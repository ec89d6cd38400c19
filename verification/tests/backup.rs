//! Device backups, step by step.
use imessage_html::backup::{
    copy_unencrypted_sidecar_if_present, decrypt_backup, decrypt_file,
    decrypt_sidecar_if_present, get_decrypted_contacts_database,
    get_decrypted_message_database, path_with_extra_ext, stage_unencrypted_ios_db, BackupAction,
    BackupEvent, DecryptAction, DecryptEvent, FoundFile, PlainSidecarEvent, SidecarAction,
    SidecarEvent, MAX_IN_MEMORY_DECRYPT,
};
use imessage_html::config::{Options, Platform};
use imessage_html::error::RuntimeError;

fn options(platform: Platform, password: Option<&str>) -> Options {
    Options {
        platform,
        db_path: "/backups/phone".to_string(),
        attachment_root: None,
        cleartext_password: password.map(str::to_string),
        custom_name: None,
        no_lazy: false,
        forensic: false,
    }
}

fn note(action: SidecarAction) -> Option<String> {
    match action {
        SidecarAction::Stop { note } => note,
        _ => panic!("expected to stop"),
    }
}

#[test]
fn only_device_backups_are_looked_at() {
    let mac = options(Platform::MacOS, Some("pw"));
    assert!(matches!(decrypt_backup(&mac, BackupEvent::Started), BackupAction::NotEncrypted));
    let ios = options(Platform::IOS, None);
    assert!(matches!(decrypt_backup(&ios, BackupEvent::Started), BackupAction::ReadManifest));
}

#[test]
fn a_backup_that_is_not_encrypted_needs_no_password() {
    for password in [None, Some("pw")] {
        let action = decrypt_backup(
            &options(Platform::IOS, password),
            BackupEvent::ManifestRead(Ok(false)),
        );
        assert!(matches!(action, BackupAction::NotEncrypted));
    }
}

#[test]
fn a_password_comes_from_the_options_or_the_user() {
    let event = || BackupEvent::ManifestRead(Ok(true));
    let with = options(Platform::IOS, Some("pw"));
    match decrypt_backup(&with, event()) {
        BackupAction::Open { password } => assert_eq!(password, "pw"),
        _ => panic!("expected to open the backup"),
    }
    let without = options(Platform::IOS, None);
    assert!(matches!(decrypt_backup(&without, event()), BackupAction::PromptForPassword));
    match decrypt_backup(&without, BackupEvent::PasswordEntered(Ok("typed".to_string()))) {
        BackupAction::Open { password } => assert_eq!(password, "typed"),
        _ => panic!("expected to open the backup"),
    }
}

#[test]
fn failures_to_open_a_backup_are_told_apart() {
    let options = options(Platform::IOS, None);
    let failure = |event: BackupEvent| match decrypt_backup(&options, event) {
        BackupAction::Fail(why) => why,
        _ => panic!("expected a failure"),
    };
    assert_eq!(
        failure(BackupEvent::ManifestRead(Err("gone".to_string()))),
        RuntimeError::BackupError("gone".to_string())
    );
    assert_eq!(
        failure(BackupEvent::PasswordEntered(Err("no tty".to_string()))),
        RuntimeError::InvalidOptions(
            "Unable to read password interactively (no tty); pass --cleartext-password for non-interactive use."
                .to_string()
        )
    );
    assert_eq!(
        failure(BackupEvent::Opened(Err("wrong".to_string()))),
        RuntimeError::BackupError("wrong".to_string())
    );
    assert!(matches!(
        decrypt_backup(&options, BackupEvent::Opened(Ok(()))),
        BackupAction::Finished
    ));
}

#[test]
fn suffixes_go_on_the_last_segment() {
    assert_eq!(path_with_extra_ext("/tmp/crabapple-sms.db", "-wal"), "/tmp/crabapple-sms.db-wal");
    assert_eq!(path_with_extra_ext("", "-shm"), "-shm");
}

#[test]
fn the_log_of_the_message_database_is_copied_with_it() {
    let copy = get_decrypted_message_database();
    assert_eq!(copy.database.source, "3d0d7e5fb2ce288813306e4d4636395e047a3d28");
    assert_eq!(copy.database.dest, "crabapple-sms.db");
    let sidecars: Vec<_> = copy.sidecars.iter().map(|c| (&c.source[..], &c.dest[..])).collect();
    assert_eq!(
        sidecars,
        vec![
            ("cd47480f213dba9bc38ee792775d17e3f5a73a59", "crabapple-sms.db-wal"),
            ("36ce215df2239f14660f11541cb64a3f790c95cd", "crabapple-sms.db-shm"),
        ]
    );
}

#[test]
fn files_of_a_plain_backup_lie_under_two_characters() {
    let copy = stage_unencrypted_ios_db();
    assert_eq!(copy.database.source, "3d/3d0d7e5fb2ce288813306e4d4636395e047a3d28");
    assert_eq!(copy.database.dest, "crabapple-sms.db");
    let sidecars: Vec<_> = copy.sidecars.iter().map(|c| (&c.source[..], &c.dest[..])).collect();
    assert_eq!(
        sidecars,
        vec![
            ("cd/cd47480f213dba9bc38ee792775d17e3f5a73a59", "crabapple-sms.db-wal"),
            ("36/36ce215df2239f14660f11541cb64a3f790c95cd", "crabapple-sms.db-shm"),
        ]
    );
}

#[test]
fn the_contacts_database_is_copied_alone() {
    let copy = get_decrypted_contacts_database();
    assert_eq!(copy.source, "31bb7ba8914766d4ba40d6dfb6113c8b614be442");
    assert_eq!(copy.dest, "crabapple-contacts.db");
}

#[test]
fn sidecars_are_decrypted_where_the_backup_has_them() {
    let step = |event: SidecarEvent| decrypt_sidecar_if_present("cd47", "/tmp/sms.db-wal", event);
    assert!(matches!(step(SidecarEvent::LookedUp(true)), SidecarAction::OpenStream));
    assert!(matches!(step(SidecarEvent::StreamOpened(true)), SidecarAction::CreateFile));
    assert!(matches!(step(SidecarEvent::FileCreated(true)), SidecarAction::Copy));
    assert_eq!(
        note(step(SidecarEvent::Copied(Ok(())))).as_deref(),
        Some("  → restored WAL/SHM sidecar at /tmp/sms.db-wal")
    );
}

#[test]
fn sidecars_that_fail_are_done_without() {
    let step = |event: SidecarEvent| {
        note(decrypt_sidecar_if_present("cd47", "/tmp/sms.db-wal", event))
    };
    assert_eq!(step(SidecarEvent::LookedUp(false)), None);
    assert_eq!(
        step(SidecarEvent::StreamOpened(false)).as_deref(),
        Some("warning: WAL/SHM sidecar present in backup but decryption stream failed (file_id=cd47). Continuing without it.")
    );
    assert_eq!(
        step(SidecarEvent::FileCreated(false)).as_deref(),
        Some("warning: WAL/SHM sidecar decryption succeeded but could not write to /tmp/sms.db-wal. Continuing without it.")
    );
    assert_eq!(
        step(SidecarEvent::Copied(Err("disk full".to_string()))).as_deref(),
        Some("warning: WAL/SHM sidecar copy failed: disk full. Continuing without it.")
    );
}

#[test]
fn plain_sidecars_are_copied_where_the_backup_has_them() {
    let step = |event: PlainSidecarEvent| {
        copy_unencrypted_sidecar_if_present("/b/cd/cd47", "/tmp/sms.db-wal", event)
    };
    assert!(matches!(step(PlainSidecarEvent::LookedUp(true)), SidecarAction::Copy));
    assert_eq!(note(step(PlainSidecarEvent::LookedUp(false))), None);
    assert_eq!(
        note(step(PlainSidecarEvent::Copied(Ok(())))).as_deref(),
        Some("  → restored WAL/SHM sidecar at /tmp/sms.db-wal")
    );
    assert_eq!(
        note(step(PlainSidecarEvent::Copied(Err("denied".to_string())))).as_deref(),
        Some("warning: failed to stage WAL/SHM sidecar from /b/cd/cd47 to /tmp/sms.db-wal: denied. Continuing without it.")
    );
}

#[test]
fn large_files_are_not_held_in_memory() {
    assert_eq!(MAX_IN_MEMORY_DECRYPT, 25 * 1024 * 1024);
    let found = |size: u64| {
        decrypt_file(DecryptEvent::LookedUp(Ok(FoundFile { file_id: "33c8".to_string(), size })))
    };
    match found(MAX_IN_MEMORY_DECRYPT) {
        DecryptAction::InMemory { copy } => assert_eq!(copy, "33c8"),
        _ => panic!("expected to decrypt in memory"),
    }
    match found(MAX_IN_MEMORY_DECRYPT + 1) {
        DecryptAction::Stream { copy } => assert_eq!(copy, "33c8"),
        _ => panic!("expected to decrypt from disk to disk"),
    }
}

#[test]
fn failures_to_decrypt_a_file_are_told_apart() {
    let failure = |event: DecryptEvent| match decrypt_file(event) {
        DecryptAction::Fail(why) => why,
        _ => panic!("expected a failure"),
    };
    assert_eq!(failure(DecryptEvent::Named(None)), RuntimeError::FileNameError);
    assert_eq!(
        failure(DecryptEvent::LookedUp(Err("gone".to_string()))),
        RuntimeError::BackupError("gone".to_string())
    );
    let disk = RuntimeError::DiskError("full".to_string());
    let written = |result: Result<(), RuntimeError>| DecryptEvent::Written {
        copy: "33c8".to_string(),
        result,
    };
    assert_eq!(failure(written(Err(disk.clone()))), disk);
    match decrypt_file(DecryptEvent::Named(Some("33c8".to_string()))) {
        DecryptAction::LookUp { name } => assert_eq!(name, "33c8"),
        _ => panic!("expected to look the file up"),
    }
    match decrypt_file(written(Ok(()))) {
        DecryptAction::Finished { copy } => assert_eq!(copy, "33c8"),
        _ => panic!("expected to be done"),
    }
}
