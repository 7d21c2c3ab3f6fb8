//! What a wait for a lock on a cache entry brought.

use vstd::prelude::*;
use crate::failure;
use crate::failure::{Failure, FailureView};

verus! {

/// What a lock protects.
#[derive(Debug, Clone, Copy, PartialEq, Eq, Structural)]
pub enum LockKind {
    /// The place of an entry: whoever makes, replaces or removes it holds this lock.
    Entry,
    /// The payload of an entry: those who run it share this lock.
    Use,
}

/// What became of a wait for a lock.
#[derive(Debug)]
pub enum LockReport {
    /// It is held.
    Acquired,
    /// Somebody else holds it, and there was no wait.
    Busy,
    /// It cannot be had, in these words.
    Refused(String),
    /// The waiting task is gone.
    Lost,
}

/// The failure of a wait, if it failed.
pub open spec fn lock_fault(kind: LockKind, report: LockReport) -> Option<FailureView> {
    match (kind, report) {
        (_, LockReport::Acquired) => None,
        (_, LockReport::Busy) => None,
        (LockKind::Entry, LockReport::Refused(words)) => Some(
            failure::failure("failed to acquire cache lock: "@ + words@),
        ),
        (LockKind::Use, LockReport::Refused(words)) => Some(
            failure::failure("failed to acquire cache use lock: "@ + words@),
        ),
        (LockKind::Entry, LockReport::Lost) => Some(
            failure::failure("cache lock task terminated unexpectedly"@),
        ),
        (LockKind::Use, LockReport::Lost) => Some(
            failure::failure("cache use-lock task terminated unexpectedly"@),
        ),
    }
}

/// Judges a wait for a lock: tells whether the lock is held.
pub fn lock_outcome(kind: LockKind, report: LockReport) -> (r: Result<bool, Failure>)
    ensures
        match lock_fault(kind, report) {
            Some(e) => r is Err && r->Err_0@ == e,
            None => r == Ok::<bool, Failure>(report is Acquired),
        },
{
    match report {
        LockReport::Acquired => Ok(true),
        LockReport::Busy => Ok(false),
        LockReport::Refused(words) => match kind {
            LockKind::Entry => Err(
                Failure::new("failed to acquire cache lock: ".to_owned().concat(words.as_str())),
            ),
            LockKind::Use => Err(
                Failure::new(
                    "failed to acquire cache use lock: ".to_owned().concat(words.as_str()),
                ),
            ),
        },
        LockReport::Lost => match kind {
            LockKind::Entry => Err(
                Failure::new("cache lock task terminated unexpectedly".to_owned()),
            ),
            LockKind::Use => Err(
                Failure::new("cache use-lock task terminated unexpectedly".to_owned()),
            ),
        },
    }
}

/// A lock that was had, or that another holds, is no failure; one that the system refused fails in
/// the system's words, and so does one that nothing more was heard of.
pub proof fn law_only_refused_or_lost_locks_fail(kind: LockKind, report: LockReport)
    ensures
        lock_fault(kind, report) is None <==> report is Acquired || report is Busy,
        report is Refused ==> report->Refused_0@.is_suffix_of(
            lock_fault(kind, report)->Some_0.message,
        ),
{
    if report is Refused {
        let words = report->Refused_0@;
        let message = lock_fault(kind, report)->Some_0.message;
        assert(message.skip(message.len() - words.len()) =~= words);
    }
}

/// A lock is held exactly if it was acquired, and one that is held elsewhere is no failure.
pub proof fn law_locks_are_held_when_acquired(
    kind: LockKind,
    report: LockReport,
    r: Result<bool, Failure>,
)
    requires
        call_ensures(lock_outcome, (kind, report), r),
    ensures
        r is Ok && r->Ok_0 <==> report is Acquired,
        r is Ok && !r->Ok_0 <==> report is Busy,
        r is Err <==> report is Refused || report is Lost,
{
}

} // verus!
