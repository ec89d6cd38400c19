//! Device backups.
use vstd::prelude::*;

use crate::backup::{
    is_backup_step, is_decrypt_step, is_plain_sidecar_step, is_sidecar_step, BackupAction,
    BackupEvent, DecryptAction, DecryptEvent, FoundFile, PlainSidecarEvent, SidecarAction,
    SidecarEvent, OPTION_CLEARTEXT_PASSWORD,
};
use crate::config::Options;
use crate::error::RuntimeError;
use crate::laws::order::{in_order, lemma_gap, lemma_nothing, lemma_segment};

verus! {

/// A file is streamed just where it is larger than twenty-five mebibytes, and is
/// else decrypted in memory. Either way its copy has the backup's name for it.
pub proof fn law_only_large_files_are_streamed(found: FoundFile, action: DecryptAction)
    requires
        is_decrypt_step(DecryptEvent::LookedUp(Ok(found)), action),
    ensures
        found.size > 25 * 1024 * 1024 ==> action == (DecryptAction::Stream {
            copy: found.file_id,
        }),
        found.size <= 25 * 1024 * 1024 ==> action == (DecryptAction::InMemory {
            copy: found.file_id,
        }),
{
}

/// Of two files the smaller is streamed only if the larger is.
pub proof fn law_streaming_grows_with_size(
    a: FoundFile,
    b: FoundFile,
    for_a: DecryptAction,
    for_b: DecryptAction,
)
    requires
        a.size <= b.size,
        is_decrypt_step(DecryptEvent::LookedUp(Ok(a)), for_a),
        is_decrypt_step(DecryptEvent::LookedUp(Ok(b)), for_b),
    ensures
        for_a is Stream ==> for_b is Stream,
        for_b is InMemory ==> for_a is InMemory,
{
}

/// A file that is decrypted from start to end: it is looked up under its name,
/// copied under the backup's name for it, and that copy is what is left. No step
/// fails but where something outside failed.
pub proof fn law_file_is_decrypted_under_its_id(
    name: String,
    found: FoundFile,
    first: DecryptAction,
    second: DecryptAction,
    third: DecryptAction,
)
    requires
        is_decrypt_step(DecryptEvent::Named(Some(name)), first),
        is_decrypt_step(DecryptEvent::LookedUp(Ok(found)), second),
        is_decrypt_step(DecryptEvent::Written { copy: found.file_id, result: Ok(()) }, third),
    ensures
        first == (DecryptAction::LookUp { name }),
        second == (DecryptAction::Stream { copy: found.file_id }) || second == (
        DecryptAction::InMemory { copy: found.file_id }),
        third == (DecryptAction::Finished { copy: found.file_id }),
{
}

/// What fails outside while a file is decrypted fails the decryption, with what
/// was said of it.
pub proof fn law_decryption_fails_as_told(
    why: String,
    error: RuntimeError,
    copy: String,
    unnamed: DecryptAction,
    missing: DecryptAction,
    unwritten: DecryptAction,
)
    requires
        is_decrypt_step(DecryptEvent::Named(None), unnamed),
        is_decrypt_step(DecryptEvent::LookedUp(Err(why)), missing),
        is_decrypt_step(DecryptEvent::Written { copy, result: Err(error) }, unwritten),
    ensures
        unnamed == DecryptAction::Fail(RuntimeError::FileNameError),
        missing == DecryptAction::Fail(RuntimeError::BackupError(why)),
        unwritten == DecryptAction::Fail(error),
{
}

/// A file next to the database is opened only once it is found, its copy is
/// created only once it is open, and it is copied only once the copy is created.
/// What went wrong, or where the copy is, is said at the end.
pub proof fn law_sidecar_steps_follow_each_other(
    file_id: Seq<char>,
    dest: Seq<char>,
    event: SidecarEvent,
    action: SidecarAction,
)
    requires
        is_sidecar_step(file_id, dest, event, action),
    ensures
        action is OpenStream <==> event == SidecarEvent::LookedUp(true),
        action is CreateFile <==> event == SidecarEvent::StreamOpened(true),
        action is Copy <==> event == SidecarEvent::FileCreated(true),
        action is Stop <==> (event == SidecarEvent::LookedUp(false) || event
            == SidecarEvent::StreamOpened(false) || event == SidecarEvent::FileCreated(false)
            || event is Copied),
        event == SidecarEvent::LookedUp(false) ==> action == (SidecarAction::Stop { note: None }),
        event is StreamOpened && action is Stop ==> action->note is Some,
        event is FileCreated && action is Stop ==> action->note is Some,
        event is Copied ==> action->note is Some,
        event == SidecarEvent::StreamOpened(false) ==> in_order(action->note->0@, seq![file_id]),
        event == SidecarEvent::FileCreated(false) ==> in_order(action->note->0@, seq![dest]),
        event matches SidecarEvent::Copied(Ok(_)) ==> in_order(action->note->0@, seq![dest]),
        event matches SidecarEvent::Copied(Err(why)) ==> in_order(action->note->0@, seq![why@]),
{
    match event {
        SidecarEvent::StreamOpened(false) => {
            lemma_note(
                "warning: WAL/SHM sidecar present in backup but decryption stream failed (file_id="@,
                file_id,
                "). Continuing without it."@,
            );
        },
        SidecarEvent::FileCreated(false) => {
            lemma_note(
                "warning: WAL/SHM sidecar decryption succeeded but could not write to "@,
                dest,
                ". Continuing without it."@,
            );
        },
        SidecarEvent::Copied(Ok(_)) => {
            let before = "  → restored WAL/SHM sidecar at "@;
            lemma_note(before, dest, Seq::empty());
            assert(before + dest + Seq::<char>::empty() =~= before + dest);
        },
        SidecarEvent::Copied(Err(why)) => {
            lemma_note(
                "warning: WAL/SHM sidecar copy failed: "@,
                why@,
                ". Continuing without it."@,
            );
        },
        _ => {},
    }
}

proof fn lemma_note(before: Seq<char>, subject: Seq<char>, after: Seq<char>)
    ensures
        in_order(before + subject + after, seq![subject]),
{
    lemma_nothing(before);
    lemma_segment(before, subject, Seq::empty());
    lemma_gap(before + subject, after, Seq::empty().push(subject));
    assert(Seq::<Seq<char>>::empty().push(subject) =~= seq![subject]);
}

/// A file next to the database of a plain backup is copied just where the backup
/// holds it. Nothing is said of one that it does not hold.
pub proof fn law_plain_sidecar_steps(
    source: Seq<char>,
    dest: Seq<char>,
    event: PlainSidecarEvent,
    action: SidecarAction,
)
    requires
        is_plain_sidecar_step(source, dest, event, action),
    ensures
        action is Copy <==> event == PlainSidecarEvent::LookedUp(true),
        event == PlainSidecarEvent::LookedUp(false) ==> action == (SidecarAction::Stop {
            note: None,
        }),
        event is Copied ==> action is Stop && action->note is Some,
        event matches PlainSidecarEvent::Copied(Ok(_)) ==> in_order(
            action->note->0@,
            seq![dest],
        ),
        event matches PlainSidecarEvent::Copied(Err(why)) ==> in_order(
            action->note->0@,
            seq![source, dest, why@],
        ),
{
    if let PlainSidecarEvent::Copied(Ok(_)) = event {
        let before = "  → restored WAL/SHM sidecar at "@;
        lemma_note(before, dest, Seq::empty());
        assert(before + dest + Seq::<char>::empty() =~= before + dest);
    }
    if let PlainSidecarEvent::Copied(Err(why)) = event {
        let t0 = "warning: failed to stage WAL/SHM sidecar from "@;
        lemma_nothing(t0);
        lemma_segment(t0, source, Seq::empty());
        let s1 = Seq::<Seq<char>>::empty().push(source);
        lemma_gap(t0 + source, " to "@, s1);
        lemma_segment(t0 + source + " to "@, dest, s1);
        let s2 = s1.push(dest);
        let t2 = t0 + source + " to "@ + dest;
        lemma_gap(t2, ": "@, s2);
        lemma_segment(t2 + ": "@, why@, s2);
        lemma_gap(t2 + ": "@ + why@, ". Continuing without it."@, s2.push(why@));
        assert(s2.push(why@) =~= seq![source, dest, why@]);
    }
}

/// Opening a backup ends in success only once it was opened, and nothing but
/// what failed outside fails it, with what was said of it; where no password could
/// be asked for, the option that takes one is named.
pub proof fn law_backup_ends_as_it_went(
    options: Options,
    event: BackupEvent,
    action: BackupAction,
)
    requires
        is_backup_step(options, event, action),
    ensures
        action is Finished <==> (event matches BackupEvent::Opened(Ok(_))),
        action is Fail <==> (event matches BackupEvent::ManifestRead(Err(_)) || event
            matches BackupEvent::PasswordEntered(Err(_)) || event matches BackupEvent::Opened(
            Err(_),
        )),
        action is ReadManifest <==> event is Started && options.platform is IOS,
        event matches BackupEvent::ManifestRead(Err(why)) ==> (action matches BackupAction::Fail(
            RuntimeError::BackupError(text),
        ) && text@ == why@),
        event matches BackupEvent::Opened(Err(why)) ==> (action matches BackupAction::Fail(
            RuntimeError::BackupError(text),
        ) && text@ == why@),
        event matches BackupEvent::PasswordEntered(Err(why)) ==> (action
            matches BackupAction::Fail(RuntimeError::InvalidOptions(text)) && in_order(
            text@,
            seq![why@, OPTION_CLEARTEXT_PASSWORD@],
        )),
{
    if let BackupEvent::PasswordEntered(Err(why)) = event {
        let t0 = "Unable to read password interactively ("@;
        let option = OPTION_CLEARTEXT_PASSWORD@;
        lemma_nothing(t0);
        lemma_segment(t0, why@, Seq::empty());
        let s1 = Seq::<Seq<char>>::empty().push(why@);
        lemma_gap(t0 + why@, "); pass --"@, s1);
        let t1 = t0 + why@ + "); pass --"@;
        lemma_segment(t1, option, s1);
        lemma_gap(t1 + option, " for non-interactive use."@, s1.push(option));
        assert(s1.push(option) =~= seq![why@, option]);
    }
}

} // verus!
