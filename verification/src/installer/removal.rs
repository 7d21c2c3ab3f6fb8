//! Removing cache entries one after another.

use vstd::prelude::*;
use crate::failure::{Failure, FailureView};
use crate::installer::cache::{CachedAgent, CachedAgentView};

verus! {

/// What became of the removal of one entry.
#[derive(Debug)]
pub enum RemovalOutcome {
    /// Its directory is gone.
    Removed,
    /// There was no such directory any more.
    Missing,
    /// A lock on it could not be had.
    NotLocked(Failure),
    /// The system refused to remove it.
    Refused(Failure),
}

/// A [`RemovalOutcome`] over sequences.
#[verifier::ext_equal]
pub enum RemovalOutcomeView {
    Removed,
    Missing,
    NotLocked(FailureView),
    Refused(FailureView),
}

impl View for RemovalOutcome {
    type V = RemovalOutcomeView;

    open spec fn view(&self) -> RemovalOutcomeView {
        match self {
            RemovalOutcome::Removed => RemovalOutcomeView::Removed,
            RemovalOutcome::Missing => RemovalOutcomeView::Missing,
            RemovalOutcome::NotLocked(e) => RemovalOutcomeView::NotLocked(e@),
            RemovalOutcome::Refused(e) => RemovalOutcomeView::Refused(e@),
        }
    }
}

/// The failure that ends the removals.
pub open spec fn removal_fault(outcome: RemovalOutcomeView, cache_dir: Seq<char>) -> Option<
    FailureView,
> {
    match outcome {
        RemovalOutcomeView::Removed => None,
        RemovalOutcomeView::Missing => None,
        RemovalOutcomeView::NotLocked(e) => Some(e),
        RemovalOutcomeView::Refused(e) => Some(
            e.within("failed to remove cache directory "@ + cache_dir),
        ),
    }
}

/// The removal of several entries, which ends at the first failure.
#[derive(Debug)]
pub struct RemovalRun {
    pub entries: Vec<CachedAgent>,
    /// How many are dealt with.
    pub done: usize,
    /// Whether anything was removed.
    pub removed: bool,
    pub failure: Option<Failure>,
}

/// A [`RemovalRun`] over sequences.
#[verifier::ext_equal]
pub struct RemovalView {
    pub entries: Seq<CachedAgentView>,
    pub done: nat,
    pub removed: bool,
    pub failure: Option<FailureView>,
}

impl View for RemovalRun {
    type V = RemovalView;

    open spec fn view(&self) -> RemovalView {
        RemovalView {
            entries: self.entries.deep_view(),
            done: self.done as nat,
            removed: self.removed,
            failure: match self.failure {
                Some(e) => Some(e@),
                None => None,
            },
        }
    }
}

impl RemovalView {
    /// Whether there is an entry to remove.
    pub open spec fn is_open(self) -> bool {
        self.failure is None && self.done < self.entries.len()
    }

    /// The run after the removal of the next entry.
    pub open spec fn after(self, outcome: RemovalOutcomeView) -> RemovalView {
        if !self.is_open() {
            self
        } else {
            RemovalView {
                done: self.done + 1,
                removed: self.removed || outcome is Removed,
                failure: removal_fault(outcome, self.entries[self.done as int].cache_dir),
                ..self
            }
        }
    }
}

/// The run that removes `entries`, after these outcomes.
pub open spec fn removals_after(
    entries: Seq<CachedAgentView>,
    outcomes: Seq<RemovalOutcomeView>,
) -> RemovalView
    decreases outcomes.len(),
{
    if outcomes.len() == 0 {
        RemovalView { entries, done: 0, removed: false, failure: None }
    } else {
        removals_after(entries, outcomes.drop_last()).after(outcomes.last())
    }
}

/// Whether an outcome ends the removals.
pub open spec fn is_fault(outcome: RemovalOutcomeView) -> bool {
    outcome is NotLocked || outcome is Refused
}

/// As long as nothing fails, every entry is dealt with in its turn; and whether anything was
/// removed is remembered.
pub proof fn law_entries_are_removed_in_turn(
    entries: Seq<CachedAgentView>,
    outcomes: Seq<RemovalOutcomeView>,
)
    requires
        outcomes.len() <= entries.len(),
        forall|i: int| 0 <= i < outcomes.len() ==> !is_fault(#[trigger] outcomes[i]),
    ensures
        removals_after(entries, outcomes).entries == entries,
        removals_after(entries, outcomes).done == outcomes.len(),
        removals_after(entries, outcomes).failure is None,
        removals_after(entries, outcomes).removed == exists|i: int|
            0 <= i < outcomes.len() && (#[trigger] outcomes[i]) is Removed,
    decreases outcomes.len(),
{
    if outcomes.len() > 0 {
        let front = outcomes.drop_last();
        assert forall|i: int| 0 <= i < front.len() implies !is_fault(#[trigger] front[i]) by {
            assert(front[i] == outcomes[i]);
        }
        law_entries_are_removed_in_turn(entries, front);
        assert(!is_fault(outcomes[outcomes.len() - 1]));
        if exists|i: int| 0 <= i < outcomes.len() && (#[trigger] outcomes[i]) is Removed {
            let i = choose|i: int| 0 <= i < outcomes.len() && (#[trigger] outcomes[i]) is Removed;
            if i < front.len() {
                assert(front[i] is Removed);
            }
        }
        if exists|i: int| 0 <= i < front.len() && (#[trigger] front[i]) is Removed {
            let i = choose|i: int| 0 <= i < front.len() && (#[trigger] front[i]) is Removed;
            assert(outcomes[i] is Removed);
        }
        if outcomes.last() is Removed {
            assert(outcomes[outcomes.len() - 1] is Removed);
        }
    }
}

/// After a failure, nothing more is removed.
pub proof fn law_removals_end_at_a_failure(run: RemovalView, outcome: RemovalOutcomeView)
    requires
        run.failure is Some,
    ensures
        !run.is_open(),
        run.after(outcome) == run,
{
}

impl RemovalRun {
    /// Begins to remove `entries`.
    pub fn new(entries: Vec<CachedAgent>) -> (r: RemovalRun)
        ensures
            r@ == removals_after(entries.deep_view(), Seq::empty()),
    {
        RemovalRun { entries, done: 0, removed: false, failure: None }
    }

    /// The entry to remove next, if there is one.
    pub fn next_entry(&self) -> (r: Option<&CachedAgent>)
        ensures
            match r {
                Some(entry) => self@.is_open() && entry.deep_view()
                    == self@.entries[self@.done as int],
                None => !self@.is_open(),
            },
    {
        if self.failure.is_none() && self.done < self.entries.len() {
            Some(&self.entries[self.done])
        } else {
            None
        }
    }

    /// Takes note of what became of that entry.
    pub fn record(&mut self, outcome: RemovalOutcome)
        ensures
            final(self)@ == old(self)@.after(outcome@),
    {
        if self.failure.is_some() || self.done >= self.entries.len() {
            return;
        }
        match outcome {
            RemovalOutcome::Removed => {
                self.removed = true;
            },
            RemovalOutcome::Missing => {},
            RemovalOutcome::NotLocked(e) => {
                self.failure = Some(e);
            },
            RemovalOutcome::Refused(e) => {
                self.failure = Some(
                    e.within(
                        "failed to remove cache directory ".to_owned().concat(
                            self.entries[self.done].cache_dir.as_str(),
                        ),
                    ),
                );
            },
        }
        self.done = self.done + 1;
    }

    /// Tells whether anything was removed, or what failed.
    pub fn finish(self) -> (r: Result<bool, Failure>)
        ensures
            match self@.failure {
                Some(e) => r is Err && r->Err_0@ == e,
                None => r == Ok::<bool, Failure>(self@.removed),
            },
    {
        match self.failure {
            Some(e) => Err(e),
            None => Ok(self.removed),
        }
    }
}

/// An entry that could not be removed ends the removal with its failure; one that is gone, or was
/// not there, does not.
pub proof fn law_failed_removals_are_reported(run: RemovalView, outcome: RemovalOutcome)
    requires
        run.failure is None,
        run.done < run.entries.len(),
    ensures
        ({
            let after = run.after(outcome@);
            &&& after.done == run.done + 1
            &&& after.entries == run.entries
            &&& after.failure is Some <==> outcome is NotLocked || outcome is Refused
            &&& outcome is NotLocked ==> after.failure == Some(outcome->NotLocked_0@)
            &&& outcome is Refused ==> after.failure->Some_0.causes.first()
                == outcome->Refused_0.message@ && run.entries[run.done as int].cache_dir.is_suffix_of(
                after.failure->Some_0.message,
            )
            &&& outcome is Removed ==> after.removed
            &&& !(outcome is Removed) ==> after.removed == run.removed
        }),
{
    let dir = run.entries[run.done as int].cache_dir;
    let words = "failed to remove cache directory "@ + dir;
    assert(words.skip(words.len() - dir.len()) =~= dir);
}

/// Runs with the same view agree on everything.
pub proof fn law_removal_views_hold_every_field(a: RemovalRun, b: RemovalRun)
    requires
        a@ == b@,
    ensures
        a.entries.deep_view() == b.entries.deep_view(),
        a.done == b.done,
        a.removed == b.removed,
        a.failure is Some == b.failure is Some,
        a.failure is Some ==> a.failure->Some_0@ == b.failure->Some_0@,
{
}

/// Entries are removed in turn until they are through or one failed; the end tells whether any was
/// removed, or what failed.
pub proof fn law_removals_go_through_in_turn(
    removal: RemovalRun,
    next: Option<&CachedAgent>,
    done: Result<bool, Failure>,
)
    requires
        call_ensures(RemovalRun::next_entry, (&removal,), next),
        call_ensures(RemovalRun::finish, (removal,), done),
    ensures
        next is Some <==> removal@.is_open(),
        next is Some ==> next->Some_0.deep_view() == removal@.entries[removal@.done as int],
        done is Err <==> removal@.failure is Some,
        done is Ok ==> done->Ok_0 == removal@.removed,
{
}

} // verus!
