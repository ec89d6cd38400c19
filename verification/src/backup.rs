//! What to do with the files of a device backup.
//!
//! Reading, decrypting and writing files is the application's part. It tells
//! the functions here what came of each step, and they tell it what to do next.
use vstd::prelude::*;

use crate::config::{Options, Platform};
use crate::database::messages_path;
use crate::error::RuntimeError;
use crate::text::slices::{
    byte_len, byte_slice, lemma_ascii_slice, on_boundary, slice_text, text_byte_len,
};

verus! {

/// The largest file, in bytes, that is decrypted in memory.
pub const MAX_IN_MEMORY_DECRYPT: u64 = 26214400;

/// The option that takes a backup's password.
pub const OPTION_CLEARTEXT_PASSWORD: &'static str = "cleartext-password";

/// What the copy of the message database is called.
pub const MESSAGES_COPY: &'static str = "crabapple-sms.db";

/// What the copy of the contacts database is called.
pub const CONTACTS_COPY: &'static str = "crabapple-contacts.db";

/// Where a backup keeps the contacts database.
pub const CONTACTS_PATH: &'static str = "31/31bb7ba8914766d4ba40d6dfb6113c8b614be442";

/// The backup's name for the write-ahead log of the message database.
///
/// Messages that were written shortly before the backup may stand in this log
/// alone: without it next to the database they are missing from the export.
pub const SMS_WAL_FILE_ID: &'static str = "cd47480f213dba9bc38ee792775d17e3f5a73a59";

/// The backup's name for the index of the write-ahead log.
pub const SMS_SHM_FILE_ID: &'static str = "36ce215df2239f14660f11541cb64a3f790c95cd";

// Opening a backup.

/// What came of a step towards opening a backup. A step that failed says why.
pub enum BackupEvent {
    /// No step was taken yet.
    Started,
    /// The manifest was read: whether the backup is encrypted.
    ManifestRead(Result<bool, String>),
    /// The user was asked for the password.
    PasswordEntered(Result<String, String>),
    /// The backup was opened.
    Opened(Result<(), String>),
}

/// What to do next to open a backup.
pub enum BackupAction {
    /// Read the backup's manifest.
    ReadManifest,
    /// Ask the user for the password.
    PromptForPassword,
    /// Open the backup with this password.
    Open { password: String },
    /// Stop: there is no encrypted backup to open.
    NotEncrypted,
    /// Stop: the backup is open.
    Finished,
    /// Stop: this went wrong.
    Fail(RuntimeError),
}

/// What is said where the user could not be asked for a password.
pub open spec fn no_prompt_text(why: Seq<char>) -> Seq<char> {
    "Unable to read password interactively ("@ + why + "); pass --"@ + OPTION_CLEARTEXT_PASSWORD@
        + " for non-interactive use."@
}

/// Whether `action` is what to do after `event`.
pub open spec fn is_backup_step(options: Options, event: BackupEvent, action: BackupAction) -> bool {
    match event {
        BackupEvent::Started => if options.platform is IOS {
            action is ReadManifest
        } else {
            action is NotEncrypted
        },
        BackupEvent::ManifestRead(Err(why)) => action matches BackupAction::Fail(
            RuntimeError::BackupError(text),
        ) && text@ == why@,
        BackupEvent::ManifestRead(Ok(false)) => action is NotEncrypted,
        BackupEvent::ManifestRead(Ok(true)) => match options.cleartext_password {
            Some(given) => action matches BackupAction::Open { password } && password@ == given@,
            None => action is PromptForPassword,
        },
        BackupEvent::PasswordEntered(Ok(entered)) => action matches BackupAction::Open { password }
            && password@ == entered@,
        BackupEvent::PasswordEntered(Err(why)) => action matches BackupAction::Fail(
            RuntimeError::InvalidOptions(text),
        ) && text@ == no_prompt_text(why@),
        BackupEvent::Opened(Ok(())) => action is Finished,
        BackupEvent::Opened(Err(why)) => action matches BackupAction::Fail(
            RuntimeError::BackupError(text),
        ) && text@ == why@,
    }
}

/// The next step towards opening a backup.
///
/// Only a backup of an iOS device is opened, and only if it is encrypted: where
/// it is not, a password in the options has no part. The user is asked for the
/// password where the options hold none.
pub fn decrypt_backup(options: &Options, event: BackupEvent) -> (action: BackupAction)
    ensures
        is_backup_step(*options, event, action),
{
    match event {
        BackupEvent::Started => match options.platform {
            Platform::IOS => BackupAction::ReadManifest,
            Platform::MacOS => BackupAction::NotEncrypted,
        },
        BackupEvent::ManifestRead(Err(why)) => BackupAction::Fail(RuntimeError::BackupError(why)),
        BackupEvent::ManifestRead(Ok(is_encrypted)) => {
            if !is_encrypted {
                return BackupAction::NotEncrypted;
            }
            match &options.cleartext_password {
                Some(password) => BackupAction::Open { password: password.clone() },
                None => BackupAction::PromptForPassword,
            }
        },
        BackupEvent::PasswordEntered(Ok(password)) => BackupAction::Open { password },
        BackupEvent::PasswordEntered(Err(why)) => {
            let mut text = "Unable to read password interactively (".to_string();
            text.append(why.as_str());
            text.append("); pass --");
            text.append(OPTION_CLEARTEXT_PASSWORD);
            text.append(" for non-interactive use.");
            BackupAction::Fail(RuntimeError::InvalidOptions(text))
        },
        BackupEvent::Opened(Ok(())) => BackupAction::Finished,
        BackupEvent::Opened(Err(why)) => BackupAction::Fail(RuntimeError::BackupError(why)),
    }
}

// Files next to the message database.

/// A path with a suffix on its last segment.
pub fn path_with_extra_ext(base: &str, suffix: &str) -> (path: String)
    ensures
        path@ == base@ + suffix@,
{
    let mut path = base.to_string();
    path.append(suffix);
    path
}

/// The backup's name for a file, out of the path under which the backup keeps
/// it: the path without its first segment, which is two characters long.
pub fn file_id_of(path: &str) -> (file_id: &str)
    requires
        on_boundary(path@, 3),
        3 <= byte_len(path@),
    ensures
        file_id@ == byte_slice(path@, 3, byte_len(path@) as int),
{
    let len: usize = text_byte_len(path);
    proof {
        lemma_ends_on_boundary(path@);
    }
    slice_text(path, 3, len)
}

/// Where a backup that is not encrypted keeps a file: under the first two
/// characters of the file's name.
pub fn unencrypted_path(file_id: &str) -> (path: String)
    requires
        on_boundary(file_id@, 2),
        2 <= byte_len(file_id@),
    ensures
        path@ == byte_slice(file_id@, 0, 2) + "/"@ + file_id@,
{
    proof {
        lemma_starts_on_boundary(file_id@);
    }
    let mut path = slice_text(file_id, 0, 2).to_string();
    path.append("/");
    path.append(file_id);
    path
}

proof fn lemma_ends_on_boundary(text: Seq<char>)
    ensures
        on_boundary(text, byte_len(text) as int),
{
    vstd::utf8::encode_utf8_valid_utf8(text);
    vstd::utf8::is_char_boundary_start_end_of_seq(vstd::utf8::encode_utf8(text));
}

proof fn lemma_starts_on_boundary(text: Seq<char>)
    ensures
        on_boundary(text, 0),
{
    vstd::utf8::encode_utf8_valid_utf8(text);
    vstd::utf8::is_char_boundary_start_end_of_seq(vstd::utf8::encode_utf8(text));
}

/// A file of the backup, and what its copy is called.
pub struct FileCopy {
    pub source: String,
    pub dest: String,
}

impl FileCopy {
    fn new(source: &str, dest: &str) -> (copy: FileCopy)
        ensures
            copy.source@ == source@,
            copy.dest@ == dest@,
    {
        FileCopy { source: source.to_string(), dest: dest.to_string() }
    }
}

/// A database, and the files that SQLite looks for next to it.
pub struct DatabaseCopy {
    pub database: FileCopy,
    pub sidecars: Vec<FileCopy>,
}

/// What to copy out of an encrypted backup for the message database, by the
/// backup's names.
pub fn get_decrypted_message_database() -> (copy: DatabaseCopy)
    ensures
        copy.database.source@ == "3d0d7e5fb2ce288813306e4d4636395e047a3d28"@,
        copy.database.dest@ == MESSAGES_COPY@,
        copy.sidecars@.len() == 2,
        copy.sidecars@[0].source@ == SMS_WAL_FILE_ID@,
        copy.sidecars@[0].dest@ == MESSAGES_COPY@ + "-wal"@,
        copy.sidecars@[1].source@ == SMS_SHM_FILE_ID@,
        copy.sidecars@[1].dest@ == MESSAGES_COPY@ + "-shm"@,
{
    let path = messages_path();
    proof {
        reveal_strlit("3d/3d0d7e5fb2ce288813306e4d4636395e047a3d28");
        reveal_strlit("3d0d7e5fb2ce288813306e4d4636395e047a3d28");
        lemma_ascii_slice(path@, 3, path@.len() as int);
        assert(path@.subrange(3, path@.len() as int)
            =~= "3d0d7e5fb2ce288813306e4d4636395e047a3d28"@);
    }
    let mut sidecars: Vec<FileCopy> = Vec::new();
    sidecars.push(
        FileCopy::new(SMS_WAL_FILE_ID, path_with_extra_ext(MESSAGES_COPY, "-wal").as_str()),
    );
    sidecars.push(
        FileCopy::new(SMS_SHM_FILE_ID, path_with_extra_ext(MESSAGES_COPY, "-shm").as_str()),
    );
    DatabaseCopy { database: FileCopy::new(file_id_of(path), MESSAGES_COPY), sidecars }
}

/// What to copy out of an encrypted backup for the contacts database, by the
/// backup's name.
pub fn get_decrypted_contacts_database() -> (copy: FileCopy)
    ensures
        copy.source@ == "31bb7ba8914766d4ba40d6dfb6113c8b614be442"@,
        copy.dest@ == CONTACTS_COPY@,
{
    proof {
        reveal_strlit("31/31bb7ba8914766d4ba40d6dfb6113c8b614be442");
        reveal_strlit("31bb7ba8914766d4ba40d6dfb6113c8b614be442");
        let path = CONTACTS_PATH@;
        lemma_ascii_slice(path, 3, path.len() as int);
        assert(path.subrange(3, path.len() as int)
            =~= "31bb7ba8914766d4ba40d6dfb6113c8b614be442"@);
    }
    FileCopy::new(file_id_of(CONTACTS_PATH), CONTACTS_COPY)
}

/// What to copy out of a backup that is not encrypted for the message database,
/// by paths below the backup.
///
/// The backup keeps the database and the files next to it under unrelated
/// names, where SQLite does not find them together.
pub fn stage_unencrypted_ios_db() -> (copy: DatabaseCopy)
    ensures
        copy.database.source@ == "3d/3d0d7e5fb2ce288813306e4d4636395e047a3d28"@,
        copy.database.dest@ == MESSAGES_COPY@,
        copy.sidecars@.len() == 2,
        copy.sidecars@[0].source@ == "cd/"@ + SMS_WAL_FILE_ID@,
        copy.sidecars@[0].dest@ == MESSAGES_COPY@ + "-wal"@,
        copy.sidecars@[1].source@ == "36/"@ + SMS_SHM_FILE_ID@,
        copy.sidecars@[1].dest@ == MESSAGES_COPY@ + "-shm"@,
{
    proof {
        reveal_strlit("cd47480f213dba9bc38ee792775d17e3f5a73a59");
        reveal_strlit("36ce215df2239f14660f11541cb64a3f790c95cd");
        reveal_strlit("cd/");
        reveal_strlit("36/");
        reveal_strlit("/");
        lemma_ascii_slice(SMS_WAL_FILE_ID@, 0, 2);
        lemma_ascii_slice(SMS_SHM_FILE_ID@, 0, 2);
        assert(SMS_WAL_FILE_ID@.subrange(0, 2) + "/"@ =~= "cd/"@);
        assert(SMS_SHM_FILE_ID@.subrange(0, 2) + "/"@ =~= "36/"@);
    }
    let mut sidecars: Vec<FileCopy> = Vec::new();
    sidecars.push(
        FileCopy::new(
            unencrypted_path(SMS_WAL_FILE_ID).as_str(),
            path_with_extra_ext(MESSAGES_COPY, "-wal").as_str(),
        ),
    );
    sidecars.push(
        FileCopy::new(
            unencrypted_path(SMS_SHM_FILE_ID).as_str(),
            path_with_extra_ext(MESSAGES_COPY, "-shm").as_str(),
        ),
    );
    DatabaseCopy { database: FileCopy::new(messages_path(), MESSAGES_COPY), sidecars }
}

/// What came of a step towards decrypting a file next to the database.
pub enum SidecarEvent {
    /// The backup was searched: whether it holds the file.
    LookedUp(bool),
    /// The file was opened for decryption: whether that worked.
    StreamOpened(bool),
    /// The copy was created: whether that worked.
    FileCreated(bool),
    /// The file was copied, or why that failed.
    Copied(Result<(), String>),
}

/// What to do next to copy a file next to the database.
pub enum SidecarAction {
    /// Open the file for decryption.
    OpenStream,
    /// Create the copy.
    CreateFile,
    /// Copy the file.
    Copy,
    /// Stop, and tell the user this, if anything. The export goes on with or
    /// without the file.
    Stop { note: Option<String> },
}

/// Whether `action` is to stop with a note.
pub open spec fn stops_with(action: SidecarAction, text: Seq<char>) -> bool {
    action matches SidecarAction::Stop { note: Some(note) } && note@ == text
}

/// What is said of a file that was restored.
pub open spec fn restored_text(dest: Seq<char>) -> Seq<char> {
    "  → restored WAL/SHM sidecar at "@ + dest
}

/// Whether `action` is what to do after `event`.
pub open spec fn is_sidecar_step(
    file_id: Seq<char>,
    dest: Seq<char>,
    event: SidecarEvent,
    action: SidecarAction,
) -> bool {
    match event {
        SidecarEvent::LookedUp(true) => action is OpenStream,
        SidecarEvent::LookedUp(false) => action matches SidecarAction::Stop { note: None },
        SidecarEvent::StreamOpened(true) => action is CreateFile,
        SidecarEvent::StreamOpened(false) => stops_with(
            action,
            "warning: WAL/SHM sidecar present in backup but decryption stream failed (file_id="@
                + file_id + "). Continuing without it."@,
        ),
        SidecarEvent::FileCreated(true) => action is Copy,
        SidecarEvent::FileCreated(false) => stops_with(
            action,
            "warning: WAL/SHM sidecar decryption succeeded but could not write to "@ + dest
                + ". Continuing without it."@,
        ),
        SidecarEvent::Copied(Ok(())) => stops_with(action, restored_text(dest)),
        SidecarEvent::Copied(Err(why)) => stops_with(
            action,
            "warning: WAL/SHM sidecar copy failed: "@ + why@ + ". Continuing without it."@,
        ),
    }
}

fn noted(before: &str, subject: &str, after: &str) -> (note: String)
    ensures
        note@ == before@ + subject@ + after@,
{
    let mut note = before.to_string();
    note.append(subject);
    note.append(after);
    note
}

/// The next step towards decrypting a file next to the database. A backup need
/// not hold it, and no failure ends the export.
pub fn decrypt_sidecar_if_present(file_id: &str, dest: &str, event: SidecarEvent) -> (action:
    SidecarAction)
    ensures
        is_sidecar_step(file_id@, dest@, event, action),
{
    match event {
        SidecarEvent::LookedUp(found) => if found {
            SidecarAction::OpenStream
        } else {
            SidecarAction::Stop { note: None }
        },
        SidecarEvent::StreamOpened(opened) => if opened {
            SidecarAction::CreateFile
        } else {
            SidecarAction::Stop {
                note: Some(
                    noted(
                        "warning: WAL/SHM sidecar present in backup but decryption stream failed (file_id=",
                        file_id,
                        "). Continuing without it.",
                    ),
                ),
            }
        },
        SidecarEvent::FileCreated(created) => if created {
            SidecarAction::Copy
        } else {
            SidecarAction::Stop {
                note: Some(
                    noted(
                        "warning: WAL/SHM sidecar decryption succeeded but could not write to ",
                        dest,
                        ". Continuing without it.",
                    ),
                ),
            }
        },
        SidecarEvent::Copied(Ok(())) => {
            let mut note = "  → restored WAL/SHM sidecar at ".to_string();
            note.append(dest);
            SidecarAction::Stop { note: Some(note) }
        },
        SidecarEvent::Copied(Err(why)) => SidecarAction::Stop {
            note: Some(
                noted(
                    "warning: WAL/SHM sidecar copy failed: ",
                    why.as_str(),
                    ". Continuing without it.",
                ),
            ),
        },
    }
}

/// What came of a step towards copying a file next to the database out of a
/// backup that is not encrypted.
pub enum PlainSidecarEvent {
    /// The backup was searched: whether it holds the file.
    LookedUp(bool),
    /// The file was copied, or why that failed.
    Copied(Result<(), String>),
}

/// Whether `action` is what to do after `event`.
pub open spec fn is_plain_sidecar_step(
    source: Seq<char>,
    dest: Seq<char>,
    event: PlainSidecarEvent,
    action: SidecarAction,
) -> bool {
    match event {
        PlainSidecarEvent::LookedUp(true) => action is Copy,
        PlainSidecarEvent::LookedUp(false) => action matches SidecarAction::Stop {
            note: None,
        },
        PlainSidecarEvent::Copied(Ok(())) => stops_with(action, restored_text(dest)),
        PlainSidecarEvent::Copied(Err(why)) => stops_with(
            action,
            "warning: failed to stage WAL/SHM sidecar from "@ + source + " to "@ + dest
                + ": "@ + why@ + ". Continuing without it."@,
        ),
    }
}

/// The next step towards copying a file next to the database out of a backup
/// that is not encrypted. A backup need not hold it, and no failure ends the
/// export.
pub fn copy_unencrypted_sidecar_if_present(source: &str, dest: &str, event: PlainSidecarEvent) -> (
    action: SidecarAction)
    ensures
        is_plain_sidecar_step(source@, dest@, event, action),
{
    match event {
        PlainSidecarEvent::LookedUp(found) => if found {
            SidecarAction::Copy
        } else {
            SidecarAction::Stop { note: None }
        },
        PlainSidecarEvent::Copied(Ok(())) => {
            let mut note = "  → restored WAL/SHM sidecar at ".to_string();
            note.append(dest);
            SidecarAction::Stop { note: Some(note) }
        },
        PlainSidecarEvent::Copied(Err(why)) => {
            let mut note = "warning: failed to stage WAL/SHM sidecar from ".to_string();
            note.append(source);
            note.append(" to ");
            note.append(dest);
            note.append(": ");
            note.append(why.as_str());
            note.append(". Continuing without it.");
            SidecarAction::Stop { note: Some(note) }
        },
    }
}

// Other files.

/// A file that the backup holds.
pub struct FoundFile {
    /// The backup's name for the file.
    pub file_id: String,
    /// The file's size in bytes.
    pub size: u64,
}

/// What came of a step towards decrypting a file.
pub enum DecryptEvent {
    /// The file's path was taken apart: its last segment, if there is one and it
    /// is text.
    Named(Option<String>),
    /// The backup was searched: the file, or why it is not there.
    LookedUp(Result<FoundFile, String>),
    /// The copy of this name was written, or what went wrong.
    Written { copy: String, result: Result<(), RuntimeError> },
}

/// What to do next to decrypt a file. A copy is called by its name in the
/// temporary directory.
pub enum DecryptAction {
    /// Look the file up by its name.
    LookUp { name: String },
    /// Decrypt the file into this copy piece by piece, from disk to disk.
    Stream { copy: String },
    /// Decrypt the file in memory, and write this copy at once.
    InMemory { copy: String },
    /// Stop: this copy is there.
    Finished { copy: String },
    /// Stop: this went wrong.
    Fail(RuntimeError),
}

/// Whether `action` is what to do after `event`.
pub open spec fn is_decrypt_step(event: DecryptEvent, action: DecryptAction) -> bool {
    match event {
        DecryptEvent::Named(Some(name)) => action == DecryptAction::LookUp { name },
        DecryptEvent::Named(None) => action == DecryptAction::Fail(
            RuntimeError::FileNameError,
        ),
        DecryptEvent::LookedUp(Ok(found)) => if found.size > MAX_IN_MEMORY_DECRYPT {
            action == (DecryptAction::Stream { copy: found.file_id })
        } else {
            action == (DecryptAction::InMemory { copy: found.file_id })
        },
        DecryptEvent::LookedUp(Err(why)) => action == DecryptAction::Fail(
            RuntimeError::BackupError(why),
        ),
        DecryptEvent::Written { copy, result } => match result {
            Ok(()) => action == (DecryptAction::Finished { copy }),
            Err(why) => action == DecryptAction::Fail(why),
        },
    }
}

/// The next step towards decrypting a file of a backup. The copy is called by
/// the backup's name for the file, wherever the file was looked for. A large
/// file is not held in memory.
pub fn decrypt_file(event: DecryptEvent) -> (action: DecryptAction)
    ensures
        is_decrypt_step(event, action),
{
    match event {
        DecryptEvent::Named(Some(name)) => DecryptAction::LookUp { name },
        DecryptEvent::Named(None) => DecryptAction::Fail(RuntimeError::FileNameError),
        DecryptEvent::LookedUp(Ok(found)) => if found.size > MAX_IN_MEMORY_DECRYPT {
            DecryptAction::Stream { copy: found.file_id }
        } else {
            DecryptAction::InMemory { copy: found.file_id }
        },
        DecryptEvent::LookedUp(Err(why)) => DecryptAction::Fail(RuntimeError::BackupError(why)),
        DecryptEvent::Written { copy, result } => match result {
            Ok(()) => DecryptAction::Finished { copy },
            Err(why) => DecryptAction::Fail(why),
        },
    }
}

// What holds of every backup.

/// The user is asked for a password only where the backup is encrypted and the
/// options hold none.
pub proof fn law_prompt_only_without_password(
    options: Options,
    event: BackupEvent,
    action: BackupAction,
)
    requires
        is_backup_step(options, event, action),
        action is PromptForPassword,
    ensures
        event == BackupEvent::ManifestRead(Ok(true)),
        options.cleartext_password is None,
{
}

/// A backup that is not encrypted is never opened, and no password is asked for,
/// whatever the options hold.
pub proof fn law_unencrypted_backup_is_left_alone(options: Options, action: BackupAction)
    requires
        is_backup_step(options, BackupEvent::ManifestRead(Ok(false)), action),
    ensures
        action is NotEncrypted,
{
}

/// Only a backup of an iOS device is looked at.
pub proof fn law_other_platforms_have_no_backup(options: Options, action: BackupAction)
    requires
        !(options.platform is IOS),
        is_backup_step(options, BackupEvent::Started, action),
    ensures
        action is NotEncrypted,
{
}

/// A backup is opened with the password that the options hold, or, where they
/// hold none, with the one that the user entered; and never on what the
/// manifest said of a backup that is not encrypted.
pub proof fn law_password_comes_from_options_or_user(
    options: Options,
    event: BackupEvent,
    action: BackupAction,
)
    requires
        is_backup_step(options, event, action),
        action is Open,
    ensures
        match event {
            BackupEvent::ManifestRead(Ok(encrypted)) => encrypted && options.cleartext_password
                is Some && action->password@ == options.cleartext_password->0@,
            BackupEvent::PasswordEntered(Ok(entered)) => action->password@ == entered@,
            _ => false,
        },
{
}

} // verus!
