//! Publishing a prepared cache entry, and taking it back where that fails.

use vstd::prelude::*;
use crate::failure;
use crate::failure::{Failure, FailureView};
use crate::installer::binary::{CachedBinary, CachedBinaryView};
use crate::installer::cache;
use crate::installer::cache::{entry_name_of, safe_path_component, BinaryCachePaths};
use crate::paths;
use crate::paths::join_path;
use crate::text;
use crate::text::to_decimal;

verus! {

/// The name of a working directory beside an entry.
pub open spec fn work_dir_name(
    name: Seq<char>,
    kind: Seq<char>,
    pid: u32,
    nanos: u128,
) -> Seq<char> {
    "."@ + cache::component(name) + "-"@ + kind + "-"@ + text::decimal(pid as nat) + "-"@
        + text::decimal(nanos as nat)
}

/// Names a working directory so that no other process uses the name at the same time.
pub fn unique_work_dir_name(name: &str, kind: &str, pid: u32, nanos: u128) -> (r: String)
    ensures
        r@ == work_dir_name(name@, kind@, pid, nanos),
{
    ".".to_owned().concat(safe_path_component(name).as_str()).concat("-").concat(kind).concat(
        "-",
    ).concat(to_decimal(pid as u128).as_str()).concat("-").concat(to_decimal(nanos).as_str())
}

/// Where an entry is moved while its replacement is published.
pub fn backup_dir(entry: &BinaryCachePaths, pid: u32, nanos: u128) -> (r: String)
    ensures
        r@ == paths::join(
            entry.parent_dir@,
            work_dir_name(cache::entry_name(entry.cache_dir@), "backup"@, pid, nanos),
        ),
{
    let name = entry_name_of(entry.cache_dir.as_str());
    join_path(
        entry.parent_dir.as_str(),
        unique_work_dir_name(name.as_str(), "backup", pid, nanos).as_str(),
    )
}

/// The start of the name of a staging directory for an entry.
pub fn staging_prefix(entry: &BinaryCachePaths) -> (r: String)
    ensures
        r@ == "."@ + cache::entry_name(entry.cache_dir@) + "-staging-"@,
{
    ".".to_owned().concat(entry_name_of(entry.cache_dir.as_str()).as_str()).concat("-staging-")
}

/// What the publisher is to do next.
#[derive(Debug, Clone, Copy, PartialEq, Eq, Structural)]
pub enum PromotionAction {
    /// Look whether the entry exists.
    ProbeEntry,
    /// Check the entry that exists.
    CheckExisting,
    /// Remove the staging directory, as the entry that exists will do.
    DiscardStaging,
    /// Move the entry to the backup directory.
    PreserveEntry,
    /// Move the staging directory to the place of the entry.
    Publish,
    /// Check the entry that was published.
    CheckPublished,
    /// Remove the backup directory.
    RemoveBackup,
    /// Take the published entry away again.
    RemovePublished,
    /// Look whether the place of the entry is free.
    ProbeForRestore,
    /// Move the backup directory to the place of the entry.
    RestoreBackup,
    /// Remove the staging directory.
    CleanStaging,
    /// Nothing: the transaction is over.
    Finish,
}

/// What came of an action.
#[derive(Debug)]
pub enum PromotionEvent {
    /// Whether something exists at the place that was looked at.
    Probed(Result<bool, Failure>),
    /// What the check of an entry brought.
    Checked(Result<Option<CachedBinary>, Failure>),
    /// Whether a move or a removal worked.
    Done(Result<(), Failure>),
}

impl PromotionEvent {
    /// Whether this event can follow an action.
    pub open spec fn answers(self, action: PromotionAction) -> bool {
        match action {
            PromotionAction::ProbeEntry | PromotionAction::ProbeForRestore => self is Probed,
            PromotionAction::CheckExisting | PromotionAction::CheckPublished => self is Checked,
            PromotionAction::Finish => false,
            _ => self is Done,
        }
    }
}

/// The publication of a prepared entry as a transaction.
///
/// The previous entry is kept as a backup until the new one has been checked. A failure on the
/// way leads back: the new entry is removed and the backup is moved to its place.
#[derive(Debug)]
pub struct PromotionTransaction {
    pub staging_dir: String,
    pub cache_dir: String,
    /// Whether an entry that exists and is usable is replaced all the same.
    pub replace_existing: bool,
    /// What is to be done next.
    pub action: PromotionAction,
    /// Whether the previous entry lies in the backup directory.
    pub backed_up: bool,
    /// Whether the new entry lies at the place of the entry.
    pub published: bool,
    /// Whether the result is final.
    pub committed: bool,
    /// The result, once it is known.
    pub outcome: Option<Result<CachedBinary, Failure>>,
}

/// What a transaction knows, with its outcome over sequences.
#[verifier::ext_equal]
pub struct PromotionView {
    pub staging_dir: Seq<char>,
    pub cache_dir: Seq<char>,
    pub replace_existing: bool,
    pub action: PromotionAction,
    pub backed_up: bool,
    pub published: bool,
    pub committed: bool,
    pub outcome: Option<Result<CachedBinaryView, FailureView>>,
}

/// An outcome over sequences.
pub open spec fn outcome_view(outcome: Option<Result<CachedBinary, Failure>>) -> Option<
    Result<CachedBinaryView, FailureView>,
> {
    match outcome {
        None => None,
        Some(Ok(b)) => Some(Ok(b@)),
        Some(Err(e)) => Some(Err(e@)),
    }
}

impl View for PromotionTransaction {
    type V = PromotionView;

    open spec fn view(&self) -> PromotionView {
        PromotionView {
            staging_dir: self.staging_dir@,
            cache_dir: self.cache_dir@,
            replace_existing: self.replace_existing,
            action: self.action,
            backed_up: self.backed_up,
            published: self.published,
            committed: self.committed,
            outcome: outcome_view(self.outcome),
        }
    }
}

impl PromotionView {
    /// The way back from a failure.
    pub open spec fn failing(self, e: FailureView) -> PromotionView {
        PromotionView {
            outcome: Some(Err(e)),
            action: if self.published {
                PromotionAction::RemovePublished
            } else if self.backed_up {
                PromotionAction::ProbeForRestore
            } else {
                PromotionAction::CleanStaging
            },
            ..self
        }
    }

    /// The transaction after the event that answers its action.
    pub open spec fn after(self, event: PromotionEvent) -> PromotionView {
        match (self.action, event) {
            (PromotionAction::ProbeEntry, PromotionEvent::Probed(Err(e))) => self.failing(
                e@.within("failed to inspect "@ + self.cache_dir),
            ),
            (PromotionAction::ProbeEntry, PromotionEvent::Probed(Ok(exists))) => PromotionView {
                action: if !exists {
                    PromotionAction::Publish
                } else if self.replace_existing {
                    PromotionAction::PreserveEntry
                } else {
                    PromotionAction::CheckExisting
                },
                ..self
            },
            (PromotionAction::CheckExisting, PromotionEvent::Checked(Err(e))) => self.failing(e@),
            (PromotionAction::CheckExisting, PromotionEvent::Checked(Ok(None))) => PromotionView {
                action: PromotionAction::PreserveEntry,
                ..self
            },
            (PromotionAction::CheckExisting, PromotionEvent::Checked(Ok(Some(b)))) =>
                PromotionView {
                action: PromotionAction::DiscardStaging,
                outcome: Some(Ok(b@)),
                ..self
            },
            (PromotionAction::DiscardStaging, PromotionEvent::Done(Ok(()))) => PromotionView {
                action: PromotionAction::Finish,
                committed: true,
                ..self
            },
            (PromotionAction::DiscardStaging, PromotionEvent::Done(Err(e))) => self.failing(
                e@.within("failed to discard superseded staging directory"@),
            ),
            (PromotionAction::PreserveEntry, PromotionEvent::Done(Ok(()))) => PromotionView {
                action: PromotionAction::Publish,
                backed_up: true,
                ..self
            },
            (PromotionAction::PreserveEntry, PromotionEvent::Done(Err(e))) => self.failing(
                e@.within(
                    "failed to preserve existing cache directory "@ + self.cache_dir
                        + " before replacement"@,
                ),
            ),
            (PromotionAction::Publish, PromotionEvent::Done(Ok(()))) => PromotionView {
                action: PromotionAction::CheckPublished,
                published: true,
                ..self
            },
            (PromotionAction::Publish, PromotionEvent::Done(Err(e))) => self.failing(
                e@.within(
                    "failed to promote staged cache "@ + self.staging_dir + " to "@
                        + self.cache_dir,
                ),
            ),
            (PromotionAction::CheckPublished, PromotionEvent::Checked(Err(e))) => self.failing(e@),
            (PromotionAction::CheckPublished, PromotionEvent::Checked(Ok(None))) => self.failing(
                failure::failure("published cache failed post-publish validation"@),
            ),
            (PromotionAction::CheckPublished, PromotionEvent::Checked(Ok(Some(b)))) =>
                PromotionView {
                action: if self.backed_up {
                    PromotionAction::RemoveBackup
                } else {
                    PromotionAction::Finish
                },
                committed: true,
                outcome: Some(Ok(b@)),
                ..self
            },
            (PromotionAction::RemoveBackup, PromotionEvent::Done(_)) => PromotionView {
                action: PromotionAction::Finish,
                ..self
            },
            (PromotionAction::RemovePublished, PromotionEvent::Done(result)) => PromotionView {
                action: if self.backed_up {
                    PromotionAction::ProbeForRestore
                } else {
                    PromotionAction::CleanStaging
                },
                published: result is Err,
                ..self
            },
            (PromotionAction::ProbeForRestore, PromotionEvent::Probed(result)) => PromotionView {
                action: if result is Ok && result->Ok_0 {
                    PromotionAction::CleanStaging
                } else {
                    PromotionAction::RestoreBackup
                },
                ..self
            },
            (PromotionAction::RestoreBackup, PromotionEvent::Done(result)) => PromotionView {
                action: PromotionAction::CleanStaging,
                backed_up: result is Err,
                published: self.published && result is Err,
                ..self
            },
            (PromotionAction::CleanStaging, PromotionEvent::Done(_)) => PromotionView {
                action: PromotionAction::Finish,
                ..self
            },
            _ => self,
        }
    }
}

impl PromotionTransaction {
    /// A transaction that has not begun.
    pub fn new(staging_dir: &str, cache_dir: &str, replace_existing: bool) -> (r:
        PromotionTransaction)
        ensures
            r@ == (PromotionView {
                staging_dir: staging_dir@,
                cache_dir: cache_dir@,
                replace_existing,
                action: PromotionAction::ProbeEntry,
                backed_up: false,
                published: false,
                committed: false,
                outcome: None,
            }),
    {
        PromotionTransaction {
            staging_dir: staging_dir.to_owned(),
            cache_dir: cache_dir.to_owned(),
            replace_existing,
            action: PromotionAction::ProbeEntry,
            backed_up: false,
            published: false,
            committed: false,
            outcome: None,
        }
    }

    fn fail(&mut self, e: Failure)
        ensures
            final(self)@ == old(self)@.failing(e@),
    {
        self.outcome = Some(Err(e));
        if self.published {
            self.action = PromotionAction::RemovePublished;
        } else if self.backed_up {
            self.action = PromotionAction::ProbeForRestore;
        } else {
            self.action = PromotionAction::CleanStaging;
        }
    }

    /// Takes what came of the action, and decides on the next one.
    pub fn run(&mut self, event: PromotionEvent)
        requires
            event.answers(old(self).action),
        ensures
            final(self)@ == old(self)@.after(event),
    {
        match (self.action, event) {
            (PromotionAction::ProbeEntry, PromotionEvent::Probed(Err(e))) => {
                let words = "failed to inspect ".to_owned().concat(self.cache_dir.as_str());
                self.fail(e.within(words));
            },
            (PromotionAction::ProbeEntry, PromotionEvent::Probed(Ok(exists))) => {
                if !exists {
                    self.action = PromotionAction::Publish;
                } else if self.replace_existing {
                    self.action = PromotionAction::PreserveEntry;
                } else {
                    self.action = PromotionAction::CheckExisting;
                }
            },
            (PromotionAction::CheckExisting, PromotionEvent::Checked(Err(e))) => {
                self.fail(e);
            },
            (PromotionAction::CheckExisting, PromotionEvent::Checked(Ok(None))) => {
                self.action = PromotionAction::PreserveEntry;
            },
            (PromotionAction::CheckExisting, PromotionEvent::Checked(Ok(Some(b)))) => {
                self.outcome = Some(Ok(b));
                self.action = PromotionAction::DiscardStaging;
            },
            (PromotionAction::DiscardStaging, PromotionEvent::Done(Ok(()))) => {
                self.committed = true;
                self.action = PromotionAction::Finish;
            },
            (PromotionAction::DiscardStaging, PromotionEvent::Done(Err(e))) => {
                self.fail(e.within("failed to discard superseded staging directory".to_owned()));
            },
            (PromotionAction::PreserveEntry, PromotionEvent::Done(Ok(()))) => {
                self.backed_up = true;
                self.action = PromotionAction::Publish;
            },
            (PromotionAction::PreserveEntry, PromotionEvent::Done(Err(e))) => {
                let words = "failed to preserve existing cache directory ".to_owned().concat(
                    self.cache_dir.as_str(),
                ).concat(" before replacement");
                self.fail(e.within(words));
            },
            (PromotionAction::Publish, PromotionEvent::Done(Ok(()))) => {
                self.published = true;
                self.action = PromotionAction::CheckPublished;
            },
            (PromotionAction::Publish, PromotionEvent::Done(Err(e))) => {
                let words = "failed to promote staged cache ".to_owned().concat(
                    self.staging_dir.as_str(),
                ).concat(" to ").concat(self.cache_dir.as_str());
                self.fail(e.within(words));
            },
            (PromotionAction::CheckPublished, PromotionEvent::Checked(Err(e))) => {
                self.fail(e);
            },
            (PromotionAction::CheckPublished, PromotionEvent::Checked(Ok(None))) => {
                self.fail(
                    Failure::new("published cache failed post-publish validation".to_owned()),
                );
            },
            (PromotionAction::CheckPublished, PromotionEvent::Checked(Ok(Some(b)))) => {
                self.committed = true;
                self.outcome = Some(Ok(b));
                if self.backed_up {
                    self.action = PromotionAction::RemoveBackup;
                } else {
                    self.action = PromotionAction::Finish;
                }
            },
            (PromotionAction::RemoveBackup, PromotionEvent::Done(_)) => {
                self.action = PromotionAction::Finish;
            },
            (PromotionAction::RemovePublished, PromotionEvent::Done(result)) => {
                self.published = result.is_err();
                if self.backed_up {
                    self.action = PromotionAction::ProbeForRestore;
                } else {
                    self.action = PromotionAction::CleanStaging;
                }
            },
            (PromotionAction::ProbeForRestore, PromotionEvent::Probed(result)) => {
                let occupied: bool = match result {
                    Ok(exists) => exists,
                    Err(_) => false,
                };
                if occupied {
                    self.action = PromotionAction::CleanStaging;
                } else {
                    self.action = PromotionAction::RestoreBackup;
                }
            },
            (PromotionAction::RestoreBackup, PromotionEvent::Done(result)) => {
                self.backed_up = result.is_err();
                self.published = self.published && result.is_err();
                self.action = PromotionAction::CleanStaging;
            },
            (PromotionAction::CleanStaging, PromotionEvent::Done(_)) => {
                self.action = PromotionAction::Finish;
            },
            _ => {},
        }
    }
}

/// What lies in the three directories of a transaction; numbers stand for payloads.
pub struct Disk {
    pub entry: Option<int>,
    pub backup: Option<int>,
    pub staging: Option<int>,
}

/// Whether carrying out `action` on `before` can bring `event` and leave `after`. A failed move
/// leaves everything in place; a failed removal may have removed a part.
pub open spec fn carried_out(
    action: PromotionAction,
    before: Disk,
    event: PromotionEvent,
    after: Disk,
) -> bool {
    match (action, event) {
        (
            PromotionAction::ProbeEntry | PromotionAction::ProbeForRestore,
            PromotionEvent::Probed(result),
        ) => {
            &&& after == before
            &&& result matches Ok(exists) ==> exists == (before.entry is Some)
        },
        (
            PromotionAction::CheckExisting | PromotionAction::CheckPublished,
            PromotionEvent::Checked(_),
        ) => after == before,
        (
            PromotionAction::DiscardStaging | PromotionAction::CleanStaging,
            PromotionEvent::Done(result),
        ) => {
            &&& after.entry == before.entry
            &&& after.backup == before.backup
            &&& result is Ok || before.staging is None ==> after.staging is None
        },
        (PromotionAction::PreserveEntry, PromotionEvent::Done(result)) => if result is Ok {
            after == (Disk { entry: None, backup: before.entry, ..before })
        } else {
            after == before
        },
        (PromotionAction::Publish, PromotionEvent::Done(result)) => if result is Ok {
            before.staging is Some && after == (Disk {
                entry: before.staging,
                staging: None,
                ..before
            })
        } else {
            after == before
        },
        (PromotionAction::RemoveBackup, PromotionEvent::Done(_)) => after.entry == before.entry
            && after.staging == before.staging,
        (PromotionAction::RemovePublished, PromotionEvent::Done(result)) => {
            &&& after.backup == before.backup
            &&& after.staging == before.staging
            &&& result is Ok ==> after.entry is None
        },
        (PromotionAction::RestoreBackup, PromotionEvent::Done(result)) => if result is Ok {
            after == (Disk { entry: before.backup, backup: None, ..before })
        } else {
            after == before
        },
        _ => false,
    }
}

/// What holds of the disk at every point of a transaction that started with `previous` at the
/// place of the entry and `prepared` in the staging directory.
pub open spec fn accounted_for(
    t: PromotionView,
    disk: Disk,
    previous: Option<int>,
    prepared: int,
) -> bool {
    &&& !t.committed && t.backed_up ==> previous is Some && disk.backup == previous
    &&& !t.committed && !t.backed_up && !t.published ==> disk.entry == previous
    &&& !t.committed && t.backed_up && !t.published ==> disk.entry is None
    &&& !t.committed && !t.backed_up && t.published ==> previous is None
    &&& t.committed ==> {
        &&& t.outcome is Some
        &&& t.outcome->Some_0 is Ok
        &&& disk.staging is None
        &&& disk.entry == if t.published {
            Some(prepared)
        } else {
            previous
        }
    }
    &&& match t.action {
        PromotionAction::ProbeEntry => !t.published && !t.backed_up && !t.committed
            && disk.staging == Some(prepared),
        PromotionAction::CheckExisting => !t.published && !t.backed_up && !t.committed
            && disk.staging == Some(prepared) && previous is Some,
        PromotionAction::DiscardStaging => !t.published && !t.backed_up && !t.committed
            && previous is Some && t.outcome is Some && t.outcome->Some_0 is Ok,
        PromotionAction::PreserveEntry => !t.published && !t.backed_up && !t.committed
            && disk.staging == Some(prepared) && previous is Some,
        PromotionAction::Publish => !t.published && !t.committed && disk.staging == Some(prepared)
            && disk.entry is None,
        PromotionAction::CheckPublished => t.published && !t.committed && disk.staging is None
            && disk.entry == Some(prepared),
        PromotionAction::RemoveBackup => t.committed,
        PromotionAction::RemovePublished => t.published && !t.committed,
        PromotionAction::ProbeForRestore => t.backed_up && !t.committed,
        PromotionAction::RestoreBackup => t.backed_up && !t.committed,
        PromotionAction::CleanStaging => !t.committed,
        PromotionAction::Finish => true,
    }
    &&& !t.committed && t.action == PromotionAction::Finish ==> t.outcome is Some
        && t.outcome->Some_0 is Err
    &&& t.action == PromotionAction::RemovePublished || t.action
        == PromotionAction::ProbeForRestore || t.action == PromotionAction::RestoreBackup
        || t.action == PromotionAction::CleanStaging ==> t.outcome is Some && t.outcome->Some_0 is Err
}

/// A publication begins with everything accounted for.
pub proof fn law_promotion_begins_accounted_for(
    t: PromotionView,
    previous: Option<int>,
    prepared: int,
    backup: Option<int>,
)
    requires
        t.action == PromotionAction::ProbeEntry,
        !t.backed_up,
        !t.published,
        !t.committed,
        t.outcome is None,
    ensures
        accounted_for(
            t,
            Disk { entry: previous, backup, staging: Some(prepared) },
            previous,
            prepared,
        ),
{
}

/// Every step of a publication keeps the previous entry until the new one is committed: it lies
/// at its place, or in the backup directory.
pub proof fn law_promotion_keeps_previous(
    t: PromotionView,
    disk: Disk,
    event: PromotionEvent,
    after: Disk,
    previous: Option<int>,
    prepared: int,
)
    requires
        accounted_for(t, disk, previous, prepared),
        event.answers(t.action),
        carried_out(t.action, disk, event, after),
    ensures
        accounted_for(t.after(event), after, previous, prepared),
{
}

/// A publication that failed and could be taken back leaves the previous entry at its place. One
/// that could not be taken back leaves it in the backup directory, if there was one. Its last step
/// cleans up the staging directory: none is left, unless the system refused to remove it.
pub proof fn law_failed_promotion_restores(
    t: PromotionView,
    disk: Disk,
    event: PromotionEvent,
    after: Disk,
    previous: Option<int>,
    prepared: int,
)
    requires
        accounted_for(t, disk, previous, prepared),
        t.action != PromotionAction::Finish,
        event.answers(t.action),
        carried_out(t.action, disk, event, after),
        t.after(event).action == PromotionAction::Finish,
        t.after(event).outcome matches Some(Err(_)),
    ensures
        t.action == PromotionAction::CleanStaging,
        ({
            let end = t.after(event);
            &&& !end.published && !end.backed_up ==> after.entry == previous
            &&& end.backed_up ==> previous is Some && after.backup == previous
        }),
        event matches PromotionEvent::Done(Ok(_)) ==> after.staging is None,
        disk.staging is None ==> after.staging is None,
{
    law_promotion_keeps_previous(t, disk, event, after, previous, prepared);
}

/// A publication that succeeded has either put the prepared payload at the place of the entry,
/// or kept the previous entry, which had passed its check. It leaves no staging directory.
pub proof fn law_successful_promotion(
    t: PromotionView,
    disk: Disk,
    previous: Option<int>,
    prepared: int,
)
    requires
        accounted_for(t, disk, previous, prepared),
        t.action == PromotionAction::Finish,
        t.outcome matches Some(Ok(_)),
    ensures
        t.committed,
        disk.staging is None,
        disk.entry == if t.published {
            Some(prepared)
        } else {
            previous
        },
{
}

/// A working directory is hidden, begins with the name of its entry and ends with who made it, and
/// when.
pub proof fn law_work_names_tell_their_entry(
    name: Seq<char>,
    kind: Seq<char>,
    pid: u32,
    nanos: u128,
)
    ensures
        ({
            let all = work_dir_name(name, kind, pid, nanos);
            &&& (seq!['.'] + cache::component(name) + seq!['-'] + kind + seq!['-']).is_prefix_of(all)
            &&& (text::decimal(pid as nat) + seq!['-'] + text::decimal(
                nanos as nat,
            )).is_suffix_of(all)
            &&& all.len() == 4 + cache::component(name).len() + kind.len() + text::decimal(
                pid as nat,
            ).len() + text::decimal(nanos as nat).len()
        }),
{
    reveal_strlit(".");
    reveal_strlit("-");
    let all = work_dir_name(name, kind, pid, nanos);
    let head = seq!['.'] + cache::component(name) + seq!['-'] + kind + seq!['-'];
    let tail = text::decimal(pid as nat) + seq!['-'] + text::decimal(nanos as nat);
    assert(all =~= head + tail);
    assert(all.take(head.len() as int) =~= head);
    assert(all.skip(all.len() - tail.len()) =~= tail);
}

/// An entry that is there already is looked at before it is replaced, unless it is to be replaced in
/// any case; one that is usable stays, and is what is given. A published entry is looked at too, and
/// given only if it is usable.
pub proof fn law_entries_are_looked_at_before_they_are_given(
    t: PromotionView,
    there: bool,
    found: CachedBinary,
)
    ensures
        t.action == PromotionAction::ProbeEntry ==> {
            let next = t.after(PromotionEvent::Probed(Ok(there)));
            &&& !there ==> next.action == PromotionAction::Publish
            &&& there && t.replace_existing ==> next.action == PromotionAction::PreserveEntry
            &&& there && !t.replace_existing ==> next.action == PromotionAction::CheckExisting
        },
        t.action == PromotionAction::CheckExisting ==> {
            let kept = t.after(PromotionEvent::Checked(Ok(Some(found))));
            let bad = t.after(PromotionEvent::Checked(Ok(None)));
            &&& kept.action == PromotionAction::DiscardStaging
            &&& kept.outcome == Some(Ok::<CachedBinaryView, FailureView>(found@))
            &&& bad.action == PromotionAction::PreserveEntry
        },
        t.action == PromotionAction::PreserveEntry ==> t.after(
            PromotionEvent::Done(Ok(())),
        ).action == PromotionAction::Publish && t.after(PromotionEvent::Done(Ok(()))).backed_up,
        t.action == PromotionAction::Publish ==> t.after(PromotionEvent::Done(Ok(()))).action
            == PromotionAction::CheckPublished && t.after(PromotionEvent::Done(Ok(()))).published,
        t.action == PromotionAction::CheckPublished ==> {
            let good = t.after(PromotionEvent::Checked(Ok(Some(found))));
            let bad = t.after(PromotionEvent::Checked(Ok(None)));
            &&& good.outcome == Some(Ok::<CachedBinaryView, FailureView>(found@))
            &&& good.committed
            &&& t.backed_up ==> good.action == PromotionAction::RemoveBackup
            &&& !t.backed_up ==> good.action == PromotionAction::Finish
            &&& bad.outcome matches Some(Err(_))
            &&& !bad.committed || t.committed
        },
{
}

/// How many steps may be left at most.
pub open spec fn steps_left(action: PromotionAction) -> int {
    match action {
        PromotionAction::ProbeEntry => 11,
        PromotionAction::CheckExisting => 10,
        PromotionAction::DiscardStaging => 9,
        PromotionAction::PreserveEntry => 8,
        PromotionAction::Publish => 7,
        PromotionAction::CheckPublished => 6,
        PromotionAction::RemoveBackup => 1,
        PromotionAction::RemovePublished => 5,
        PromotionAction::ProbeForRestore => 4,
        PromotionAction::RestoreBackup => 3,
        PromotionAction::CleanStaging => 2,
        PromotionAction::Finish => 0,
    }
}

/// A publication ends: every step that is answered brings it nearer to its end. A failure stays one,
/// and what failed is told: as it was, or within words of what was being done.
pub proof fn law_publications_end(t: PromotionView, event: PromotionEvent)
    requires
        event.answers(t.action),
        t.action == PromotionAction::DiscardStaging || t.action == PromotionAction::ProbeEntry
            || t.action == PromotionAction::CheckExisting || t.action
            == PromotionAction::PreserveEntry ==> !t.published && !t.backed_up,
        t.action == PromotionAction::Publish ==> !t.published,
    ensures
        steps_left(t.after(event).action) < steps_left(t.action),
        t.after(event).cache_dir == t.cache_dir,
        t.after(event).staging_dir == t.staging_dir,
        t.after(event).replace_existing == t.replace_existing,
        (t.action == PromotionAction::RemovePublished || t.action
            == PromotionAction::ProbeForRestore || t.action == PromotionAction::RestoreBackup
            || t.action == PromotionAction::CleanStaging || t.action
            == PromotionAction::RemoveBackup) ==> t.after(event).outcome == t.outcome,
        (t.action == PromotionAction::CheckExisting || t.action == PromotionAction::CheckPublished)
            && event->Checked_0 is Err ==> t.after(event).outcome == Some(
            Err::<CachedBinaryView, FailureView>(event->Checked_0->Err_0@),
        ),
        (t.action == PromotionAction::PreserveEntry || t.action == PromotionAction::Publish
            || t.action == PromotionAction::DiscardStaging) && event->Done_0 is Err ==> {
            &&& t.after(event).outcome matches Some(Err(_))
            &&& t.after(event).outcome->Some_0->Err_0.causes.first()
                == event->Done_0->Err_0@.message
        },
{
}

/// Transactions with the same view agree on everything.
pub proof fn law_promotion_views_hold_every_field(
    a: PromotionTransaction,
    b: PromotionTransaction,
)
    requires
        a@ == b@,
    ensures
        a.staging_dir@ == b.staging_dir@,
        a.cache_dir@ == b.cache_dir@,
        a.replace_existing == b.replace_existing,
        a.action == b.action,
        a.backed_up == b.backed_up,
        a.published == b.published,
        a.committed == b.committed,
        a.outcome is Some == b.outcome is Some,
        a.outcome matches Some(Ok(x)) ==> b.outcome is Some && b.outcome->Some_0 is Ok && x@
            == b.outcome->Some_0->Ok_0@,
        a.outcome matches Some(Err(x)) ==> b.outcome is Some && b.outcome->Some_0 is Err && x@
            == b.outcome->Some_0->Err_0@,
{
}

/// A publication begins with a look at what is there, and with nothing done; what it puts aside
/// goes beside the entry, under a name that leads back to it.
pub proof fn law_publications_begin_with_a_look(
    staging: &str,
    cache_dir: &str,
    replace: bool,
    t: PromotionTransaction,
    entry: &BinaryCachePaths,
    pid: u32,
    nanos: u128,
    backup: String,
)
    requires
        call_ensures(PromotionTransaction::new, (staging, cache_dir, replace), t),
        call_ensures(backup_dir, (entry, pid, nanos), backup),
    ensures
        t@.action == PromotionAction::ProbeEntry,
        t@.staging_dir == staging@,
        t@.cache_dir == cache_dir@,
        t@.replace_existing == replace,
        !t@.backed_up && !t@.published && !t@.committed && t@.outcome is None,
        entry.parent_dir@.is_prefix_of(backup@),
        work_dir_name(cache::entry_name(entry.cache_dir@), "backup"@, pid, nanos).is_suffix_of(
            backup@,
        ),
{
    let name = work_dir_name(cache::entry_name(entry.cache_dir@), "backup"@, pid, nanos);
    law_work_names_tell_their_entry(
        cache::entry_name(entry.cache_dir@),
        "backup"@,
        pid,
        nanos,
    );
    let head = seq!['.'] + cache::component(cache::entry_name(entry.cache_dir@)) + seq!['-']
        + "backup"@ + seq!['-'];
    assert(head[0] == '.');
    assert(name.take(head.len() as int) =~= head);
    assert(name[0] == name.take(head.len() as int)[0]);
    paths::law_join_puts_components_behind(entry.parent_dir@, name);
}

} // verus!
