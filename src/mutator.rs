use vstd::prelude::*;
use crate::store::{ErrorKind, StoreError};

verus! {

/// The text of a failure of `kind`, with the detail that came with it.
pub open spec fn failure_text(kind: ErrorKind, detail: Seq<char>) -> Seq<char> {
    match kind {
        ErrorKind::Unreadable => "Failed to read config: "@ + detail,
        ErrorKind::MalformedDocument => "Failed to parse config: "@ + detail,
        ErrorKind::WriteFailed => "Failed to write config: "@ + detail,
        ErrorKind::BackupFailed => "Failed to create backup: "@ + detail,
        _ => detail,
    }
}

/// A failure of `kind`, its message naming the step that failed.
pub fn failure(kind: ErrorKind, detail: &str) -> (r: StoreError)
    ensures
        r.kind == kind,
        r.message@ == failure_text(kind, detail@),
{
    let mut message = match kind {
        ErrorKind::Unreadable => String::from_str("Failed to read config: "),
        ErrorKind::MalformedDocument => String::from_str("Failed to parse config: "),
        ErrorKind::WriteFailed => String::from_str("Failed to write config: "),
        ErrorKind::BackupFailed => String::from_str("Failed to create backup: "),
        _ => String::new(),
    };
    message.append(detail);
    proof {
        assert(Seq::<char>::empty() + detail@ == detail@);
    }
    StoreError { kind, message }
}

/// Where a change of a document stands.
#[derive(PartialEq, Eq, Structural, Clone, Copy, Debug)]
pub enum Stage {
    Start,
    BackingUp,
    Preparing,
    Writing,
    Restoring,
    RemovingBackup,
    Finished,
}

/// What the file-system side is to do next.
#[derive(PartialEq, Eq, Structural, Clone, Copy, Debug)]
pub enum Action {
    /// Copy the document to its backup path.
    TakeBackup,
    /// Read the document (or start from an empty one) and apply the change in memory.
    Prepare,
    /// Write the changed document.
    Write,
    /// Copy the backup back over the document.
    RestoreBackup,
    /// Delete the backup.
    RemoveBackup,
    /// Report the outcome.
    Finish,
}

/// What the file-system side reports back.
pub enum Event {
    /// The change begins; whether the document exists.
    Begin(bool),
    /// The backup was taken, or the detail of why it could not be.
    BackupTaken(Option<String>),
    /// The changed document is ready, or the kind and detail of the failure.
    Prepared(Option<(ErrorKind, String)>),
    /// The document was written, or the detail of why it could not be.
    Written(Option<String>),
    /// Whether the backup was copied back.
    Restored(bool),
    /// The backup was deleted (or could not be; nothing depends on it).
    BackupRemoved,
}

/// A change in progress: its stage, whether a backup exists, and the failure
/// it will report.
pub struct Change {
    pub stage: Stage,
    pub backup_taken: bool,
    pub failure: Option<(ErrorKind, String)>,
}

/// No backup exists before one is taken.
pub open spec fn well_formed(c: Change) -> bool {
    (c.stage == Stage::Start || c.stage == Stage::BackingUp) ==> !c.backup_taken
}

/// The event that each stage waits for.
pub open spec fn fits(stage: Stage, event: Event) -> bool {
    match event {
        Event::Begin(_) => stage == Stage::Start,
        Event::BackupTaken(_) => stage == Stage::BackingUp,
        Event::Prepared(_) => stage == Stage::Preparing,
        Event::Written(_) => stage == Stage::Writing,
        Event::Restored(_) => stage == Stage::Restoring,
        Event::BackupRemoved => stage == Stage::RemovingBackup,
    }
}

pub open spec fn at(stage: Stage, backup_taken: bool, failure: Option<(ErrorKind, String)>) -> Change {
    Change { stage, backup_taken, failure }
}

/// The next state and action. A backup is taken when the document exists;
/// after it is taken, every way out but a failed restore deletes it; a failed
/// write is answered by copying the backup back, and reports `WriteFailed`.
pub open spec fn next(c: Change, event: Event) -> (Change, Action) {
    match event {
        Event::Begin(exists) => if exists {
            (at(Stage::BackingUp, false, None), Action::TakeBackup)
        } else {
            (at(Stage::Preparing, false, None), Action::Prepare)
        },
        Event::BackupTaken(None) => (at(Stage::Preparing, true, None), Action::Prepare),
        Event::BackupTaken(Some(d)) => (
            at(Stage::Finished, false, Some((ErrorKind::BackupFailed, d))),
            Action::Finish,
        ),
        Event::Prepared(None) => (at(Stage::Writing, c.backup_taken, None), Action::Write),
        Event::Prepared(Some(f)) => if c.backup_taken {
            (at(Stage::RemovingBackup, true, Some(f)), Action::RemoveBackup)
        } else {
            (at(Stage::Finished, false, Some(f)), Action::Finish)
        },
        Event::Written(None) => if c.backup_taken {
            (at(Stage::RemovingBackup, true, None), Action::RemoveBackup)
        } else {
            (at(Stage::Finished, false, None), Action::Finish)
        },
        Event::Written(Some(d)) => if c.backup_taken {
            (at(Stage::Restoring, true, Some((ErrorKind::WriteFailed, d))), Action::RestoreBackup)
        } else {
            (at(Stage::Finished, false, Some((ErrorKind::WriteFailed, d))), Action::Finish)
        },
        Event::Restored(true) => (at(Stage::RemovingBackup, true, c.failure), Action::RemoveBackup),
        Event::Restored(false) => (at(Stage::Finished, true, c.failure), Action::Finish),
        Event::BackupRemoved => (at(Stage::Finished, false, c.failure), Action::Finish),
    }
}

/// A change that has not begun.
pub fn start() -> (r: Change)
    ensures
        r == at(Stage::Start, false, None),
        well_formed(r),
{
    Change { stage: Stage::Start, backup_taken: false, failure: None }
}

/// Advances a change by the event its stage waits for.
pub fn step(c: Change, event: Event) -> (r: (Change, Action))
    requires
        fits(c.stage, event),
    ensures
        r == next(c, event),
        well_formed(r.0),
{
    match event {
        Event::Begin(exists) => if exists {
            (Change { stage: Stage::BackingUp, backup_taken: false, failure: None }, Action::TakeBackup)
        } else {
            (Change { stage: Stage::Preparing, backup_taken: false, failure: None }, Action::Prepare)
        },
        Event::BackupTaken(None) => (Change { stage: Stage::Preparing, backup_taken: true, failure: None }, Action::Prepare),
        Event::BackupTaken(Some(d)) => (
            Change { stage: Stage::Finished, backup_taken: false, failure: Some((ErrorKind::BackupFailed, d)) },
            Action::Finish,
        ),
        Event::Prepared(None) => (Change { stage: Stage::Writing, backup_taken: c.backup_taken, failure: None }, Action::Write),
        Event::Prepared(Some(f)) => if c.backup_taken {
            (Change { stage: Stage::RemovingBackup, backup_taken: true, failure: Some(f) }, Action::RemoveBackup)
        } else {
            (Change { stage: Stage::Finished, backup_taken: false, failure: Some(f) }, Action::Finish)
        },
        Event::Written(None) => if c.backup_taken {
            (Change { stage: Stage::RemovingBackup, backup_taken: true, failure: None }, Action::RemoveBackup)
        } else {
            (Change { stage: Stage::Finished, backup_taken: false, failure: None }, Action::Finish)
        },
        Event::Written(Some(d)) => if c.backup_taken {
            (
                Change { stage: Stage::Restoring, backup_taken: true, failure: Some((ErrorKind::WriteFailed, d)) },
                Action::RestoreBackup,
            )
        } else {
            (
                Change { stage: Stage::Finished, backup_taken: false, failure: Some((ErrorKind::WriteFailed, d)) },
                Action::Finish,
            )
        },
        Event::Restored(ok) => if ok {
            (Change { stage: Stage::RemovingBackup, backup_taken: true, failure: c.failure }, Action::RemoveBackup)
        } else {
            (Change { stage: Stage::Finished, backup_taken: true, failure: c.failure }, Action::Finish)
        },
        Event::BackupRemoved => (Change { stage: Stage::Finished, backup_taken: false, failure: c.failure }, Action::Finish),
    }
}

/// What a finished change reports.
pub fn outcome(c: Change) -> (r: Result<(), StoreError>)
    ensures
        match c.failure {
            None => r is Ok,
            Some((kind, detail)) => r matches Err(e) && e.kind == kind && e.message@ == failure_text(
                kind,
                detail@,
            ),
        },
{
    match c.failure {
        None => Ok(()),
        Some((kind, detail)) => Err(failure(kind, detail.as_str())),
    }
}

/// A failed write after a backup was taken is answered by copying the backup
/// back; the change then reports `WriteFailed`, whatever the restore did.
pub proof fn law_failed_write_restores(c: Change, detail: String, restored: bool)
    requires
        c.stage == Stage::Writing,
        c.backup_taken,
    ensures
        next(c, Event::Written(Some(detail))).1 == Action::RestoreBackup,
        next(next(c, Event::Written(Some(detail))).0, Event::Restored(restored)).0.failure == Some(
            (ErrorKind::WriteFailed, detail),
        ),
{
}

/// A change that took a backup finishes only once the backup is deleted,
/// unless copying it back failed, when it is kept for recovery.
pub proof fn law_backup_not_left_behind(c: Change, event: Event)
    requires
        well_formed(c),
        fits(c.stage, event),
        c.backup_taken,
        next(c, event).0.stage == Stage::Finished,
    ensures
        c.stage == Stage::RemovingBackup || (c.stage == Stage::Restoring && event == Event::Restored(false)),
        next(c, event).0.backup_taken == (event == Event::Restored(false)),
{
}

/// The change goes through in full when nothing fails: backup, change, write,
/// and the backup deleted, reporting success.
pub proof fn law_clean_run(c: Change)
    requires
        c == at(Stage::Start, false, None),
    ensures
        ({
            let (c1, a1) = next(c, Event::Begin(true));
            let (c2, a2) = next(c1, Event::BackupTaken(None));
            let (c3, a3) = next(c2, Event::Prepared(None));
            let (c4, a4) = next(c3, Event::Written(None));
            let (c5, a5) = next(c4, Event::BackupRemoved);
            a1 == Action::TakeBackup && a2 == Action::Prepare && a3 == Action::Write && a4
                == Action::RemoveBackup && a5 == Action::Finish && c5.stage == Stage::Finished
                && c5.failure is None && !c5.backup_taken
        }),
{
}

} // verus!
