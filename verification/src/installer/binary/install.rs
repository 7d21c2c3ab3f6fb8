//! The course of the installation of a binary distribution.

use vstd::prelude::*;
use crate::digest;
use crate::digest::parse_sha256;
use crate::failure::{Failure, FailureView};
use crate::installer::binary::download::declared_digest;
use crate::installer::binary::publication::staging_prefix;
use crate::installer::binary::{CachedBinary, CachedBinaryView};
use crate::installer::cache;
use crate::installer::cache::{
    binary_cache_paths_with_digest, BinaryCacheMetadata, BinaryCachePaths, CachePathsView,
    MetadataView,
};
use crate::registry::{BinaryTarget, Platform, RegistryAgent};
use crate::text;

verus! {

/// Where an entry is cached, and what it must have been made from.
#[derive(Debug, Clone)]
pub struct CachePlan {
    pub entry: BinaryCachePaths,
    pub expected: BinaryCacheMetadata,
}

/// A [`CachePlan`] over sequences.
pub struct CachePlanView {
    pub entry: CachePathsView,
    pub expected: MetadataView,
}

impl View for CachePlan {
    type V = CachePlanView;

    open spec fn view(&self) -> CachePlanView {
        CachePlanView { entry: self.entry@, expected: self.expected@ }
    }
}

/// The plan for caching `target`. A target without a proper digest gets none: nothing is named
/// after it, and nothing is fetched for it.
pub open spec fn cache_plan(
    root_dir: Seq<char>,
    agent: RegistryAgent,
    platform: Platform,
    target: BinaryTarget,
) -> Result<CachePlanView, FailureView> {
    match declared_digest(target) {
        None => Err(digest::missing_digest()),
        Some(declared) => if !digest::is_digest_text(declared) {
            Err(digest::malformed_digest(declared))
        } else {
            Ok(
                CachePlanView {
                    entry: cache::cache_paths(
                        root_dir,
                        agent.id@,
                        cache::digest_key(agent.version@, declared),
                        platform,
                    ),
                    expected: MetadataView {
                        agent_id: agent.id@,
                        agent_version: agent.version@,
                        platform: cache::platform_key(platform),
                        archive: target.archive@,
                        cmd: target.cmd@,
                        sha256: Some(text::ascii_lower(declared)),
                        executable_sha256: None,
                        payload_sha256: None,
                    },
                },
            )
        },
    }
}

/// Plans the caching of a binary target.
pub fn plan_cache_entry(
    root_dir: &str,
    agent: &RegistryAgent,
    platform: Platform,
    target: &BinaryTarget,
) -> (r: Result<CachePlan, Failure>)
    ensures
        match r {
            Ok(plan) => cache_plan(root_dir@, *agent, platform, *target) == Ok::<
                CachePlanView,
                FailureView,
            >(plan@),
            Err(e) => cache_plan(root_dir@, *agent, platform, *target) == Err::<
                CachePlanView,
                FailureView,
            >(e@),
        },
{
    let declared = match &target.sha256 {
        None => {
            return Err(
                Failure::new("binary target is missing required sha256 checksum".to_owned()),
            );
        },
        Some(declared) => declared,
    };
    parse_sha256(declared.as_str())?;
    let entry = binary_cache_paths_with_digest(
        root_dir,
        agent.id.as_str(),
        agent.version.as_str(),
        platform,
        declared.as_str(),
    );
    let expected = BinaryCacheMetadata::new(
        agent.id.as_str(),
        agent.version.as_str(),
        platform,
        target.archive.as_str(),
        target.cmd.as_str(),
        Some(declared.as_str()),
    );
    Ok(CachePlan { entry, expected })
}

/// Where the installation of an entry stands.
#[derive(Debug, Clone, Copy, PartialEq, Eq, Structural)]
pub enum InstallStage {
    /// The directory above the entry is being made.
    MakingParent,
    /// The lock on the entry is waited for.
    LockingEntry,
    /// A share in the payload is waited for, to look at what is there.
    LockingForCheck,
    /// What is there is looked at.
    Checking,
    /// A staging directory is being made.
    Staging,
    /// The archive is fetched, unpacked and looked at.
    Preparing,
    /// The payload for oneself alone is waited for.
    LockingForPublication,
    /// The prepared payload takes the entry's place.
    Publishing,
    /// A share in the new payload is waited for.
    LockingForUse,
    /// It is over.
    Finished,
}

/// What happens in the course of an installation.
#[derive(Debug)]
pub enum InstallEvent {
    /// What was asked for is done, or held.
    Done,
    /// What is in the cache was looked at: it is this, or it is not usable.
    Checked(Option<CachedBinary>),
    /// The prepared payload is in its place.
    Published(CachedBinary),
    /// What was asked for failed.
    Failed(Failure),
}

/// What is to be done next. A share in the payload is given back before the staging directory is
/// made, and the payload for oneself alone before a share in it is waited for again.
#[derive(Debug)]
pub enum InstallAction {
    /// Make the directory above the entry.
    MakeParent,
    /// Wait for the lock on the entry.
    LockEntry,
    /// Wait for a share in the payload.
    ShareUse,
    /// Look at what is there.
    Check,
    /// Make a directory whose name begins with this.
    Stage(String),
    /// Fetch, unpack and look at the archive.
    Prepare,
    /// Wait for the payload for oneself alone.
    OwnUse,
    /// Put the prepared payload in the entry's place; a usable entry is replaced only if this says
    /// so.
    Publish(bool),
    /// Give back the lock on the entry, and report. A share in the payload stays held on success.
    Finish(Result<CachedBinary, Failure>),
    /// Nothing.
    Wait,
}

/// How a lock on the payload is held.
#[derive(Debug, Clone, Copy, PartialEq, Eq, Structural)]
pub enum UseHold {
    Nothing,
    Share,
    Alone,
}

impl InstallStage {
    /// Whether the lock on the entry is held.
    pub open spec fn holds_entry(self) -> bool {
        match self {
            InstallStage::MakingParent => false,
            InstallStage::LockingEntry => false,
            InstallStage::Finished => false,
            _ => true,
        }
    }

    /// How the payload is held.
    pub open spec fn holds_use(self) -> UseHold {
        match self {
            InstallStage::Checking => UseHold::Share,
            InstallStage::Publishing => UseHold::Alone,
            _ => UseHold::Nothing,
        }
    }

    /// The stage after `event`.
    pub open spec fn after(self, event: InstallEvent) -> InstallStage {
        match (self, event) {
            (InstallStage::Finished, _) => InstallStage::Finished,
            (_, InstallEvent::Failed(_)) => InstallStage::Finished,
            (InstallStage::MakingParent, InstallEvent::Done) => InstallStage::LockingEntry,
            (InstallStage::LockingEntry, InstallEvent::Done) => InstallStage::LockingForCheck,
            (InstallStage::LockingForCheck, InstallEvent::Done) => InstallStage::Checking,
            (InstallStage::Checking, InstallEvent::Checked(Some(_))) => InstallStage::Finished,
            (InstallStage::Checking, InstallEvent::Checked(None)) => InstallStage::Staging,
            (InstallStage::Staging, InstallEvent::Done) => InstallStage::Preparing,
            (InstallStage::Preparing, InstallEvent::Done) => InstallStage::LockingForPublication,
            (InstallStage::LockingForPublication, InstallEvent::Done) => InstallStage::Publishing,
            (
                InstallStage::Publishing,
                InstallEvent::Published(_),
            ) => InstallStage::LockingForUse,
            (InstallStage::LockingForUse, InstallEvent::Done) => InstallStage::Finished,
            _ => self,
        }
    }
}

/// The failure of an installation that failed at `stage`.
pub open spec fn install_fault(
    stage: InstallStage,
    entry: CachePathsView,
    e: FailureView,
) -> FailureView {
    match stage {
        InstallStage::MakingParent => e.within("failed to create "@ + entry.parent_dir),
        InstallStage::Staging => e.within(
            "failed to create staging directory in "@ + entry.parent_dir,
        ),
        _ => e,
    }
}

/// The installation of one entry.
#[derive(Debug)]
pub struct CacheInstall {
    pub stage: InstallStage,
    pub plan: CachePlan,
    /// Whether a usable entry that appears in the meantime is replaced.
    pub force_refresh: bool,
    /// What was published.
    pub published: Option<CachedBinary>,
}

/// What is reported of an installation, over sequences.
pub open spec fn report_view(r: Result<CachedBinary, Failure>) -> Result<
    CachedBinaryView,
    FailureView,
> {
    match r {
        Ok(cached) => Ok(cached@),
        Err(e) => Err(e@),
    }
}

impl CacheInstall {
    /// Whether what was published is known from its publication on.
    pub open spec fn is_sound(self) -> bool {
        self.stage == InstallStage::LockingForUse ==> self.published is Some
    }

    /// Whether `action` is what `event` asks for.
    pub open spec fn answers(self, event: InstallEvent, action: InstallAction) -> bool {
        match (self.stage, event) {
            (InstallStage::Finished, _) => action is Wait,
            (stage, InstallEvent::Failed(e)) => action is Finish && report_view(action->Finish_0)
                == Err::<CachedBinaryView, FailureView>(
                install_fault(stage, self.plan.entry@, e@),
            ),
            (InstallStage::MakingParent, InstallEvent::Done) => action is LockEntry,
            (InstallStage::LockingEntry, InstallEvent::Done) => action is ShareUse,
            (InstallStage::LockingForCheck, InstallEvent::Done) => action is Check,
            (InstallStage::Checking, InstallEvent::Checked(Some(cached))) => action is Finish
                && report_view(action->Finish_0) == Ok::<CachedBinaryView, FailureView>(cached@),
            (InstallStage::Checking, InstallEvent::Checked(None)) => action is Stage
                && action->Stage_0@ == "."@ + cache::entry_name(self.plan.entry@.cache_dir)
                + "-staging-"@,
            (InstallStage::Staging, InstallEvent::Done) => action is Prepare,
            (InstallStage::Preparing, InstallEvent::Done) => action is OwnUse,
            (InstallStage::LockingForPublication, InstallEvent::Done) => action
                == InstallAction::Publish(self.force_refresh),
            (InstallStage::Publishing, InstallEvent::Published(_)) => action is ShareUse,
            (InstallStage::LockingForUse, InstallEvent::Done) => action is Finish && report_view(
                action->Finish_0,
            ) == Ok::<CachedBinaryView, FailureView>(self.published->Some_0@),
            _ => action is Wait,
        }
    }

    /// Begins the installation of an entry. The first thing to do is to make the directory above
    /// it.
    pub fn new(plan: CachePlan, force_refresh: bool) -> (r: CacheInstall)
        ensures
            r.stage == InstallStage::MakingParent,
            r.plan == plan,
            r.force_refresh == force_refresh,
            r.published is None,
            r.is_sound(),
    {
        CacheInstall { stage: InstallStage::MakingParent, plan, force_refresh, published: None }
    }

    fn fail(&self, e: Failure) -> (r: Failure)
        ensures
            r@ == install_fault(self.stage, self.plan.entry@, e@),
    {
        match self.stage {
            InstallStage::MakingParent => e.within(
                "failed to create ".to_owned().concat(self.plan.entry.parent_dir.as_str()),
            ),
            InstallStage::Staging => e.within(
                "failed to create staging directory in ".to_owned().concat(
                    self.plan.entry.parent_dir.as_str(),
                ),
            ),
            _ => e,
        }
    }

    /// Decides what `event` asks for.
    pub fn on(&mut self, event: InstallEvent) -> (r: InstallAction)
        requires
            old(self).is_sound(),
        ensures
            final(self).is_sound(),
            final(self).stage == old(self).stage.after(event),
            final(self).plan == old(self).plan,
            final(self).force_refresh == old(self).force_refresh,
            final(self).published == match (old(self).stage, event) {
                (InstallStage::Publishing, InstallEvent::Published(cached)) => Some(cached),
                (InstallStage::LockingForUse, InstallEvent::Done) => None,
                _ => old(self).published,
            },
            old(self).answers(event, r),
    {
        match (self.stage, event) {
            (InstallStage::Finished, _) => InstallAction::Wait,
            (_, InstallEvent::Failed(e)) => {
                let failure = self.fail(e);
                self.stage = InstallStage::Finished;
                InstallAction::Finish(Err(failure))
            },
            (InstallStage::MakingParent, InstallEvent::Done) => {
                self.stage = InstallStage::LockingEntry;
                InstallAction::LockEntry
            },
            (InstallStage::LockingEntry, InstallEvent::Done) => {
                self.stage = InstallStage::LockingForCheck;
                InstallAction::ShareUse
            },
            (InstallStage::LockingForCheck, InstallEvent::Done) => {
                self.stage = InstallStage::Checking;
                InstallAction::Check
            },
            (InstallStage::Checking, InstallEvent::Checked(Some(cached))) => {
                self.stage = InstallStage::Finished;
                InstallAction::Finish(Ok(cached))
            },
            (InstallStage::Checking, InstallEvent::Checked(None)) => {
                self.stage = InstallStage::Staging;
                InstallAction::Stage(staging_prefix(&self.plan.entry))
            },
            (InstallStage::Staging, InstallEvent::Done) => {
                self.stage = InstallStage::Preparing;
                InstallAction::Prepare
            },
            (InstallStage::Preparing, InstallEvent::Done) => {
                self.stage = InstallStage::LockingForPublication;
                InstallAction::OwnUse
            },
            (InstallStage::LockingForPublication, InstallEvent::Done) => {
                self.stage = InstallStage::Publishing;
                InstallAction::Publish(self.force_refresh)
            },
            (InstallStage::Publishing, InstallEvent::Published(cached)) => {
                self.stage = InstallStage::LockingForUse;
                self.published = Some(cached);
                InstallAction::ShareUse
            },
            (InstallStage::LockingForUse, InstallEvent::Done) => {
                self.stage = InstallStage::Finished;
                let published = self.published.take();
                InstallAction::Finish(Ok(published.unwrap()))
            },
            _ => InstallAction::Wait,
        }
    }
}

/// The stage after all `events`.
pub open spec fn stage_after(events: Seq<InstallEvent>) -> InstallStage
    decreases events.len(),
{
    if events.len() == 0 {
        InstallStage::MakingParent
    } else {
        stage_after(events.drop_last()).after(events.last())
    }
}

/// Whether the entry was looked at on the way through `events` and found unusable.
pub open spec fn found_unusable(events: Seq<InstallEvent>) -> bool {
    exists|i: int|
        0 <= i < events.len() && stage_after(events.take(i)) == InstallStage::Checking && (
        #[trigger] events[i]) == InstallEvent::Checked(None)
}

/// An entry is staged, prepared and published only after it was looked at under its lock and found
/// unusable; and it is published only by one who holds its lock and has the payload for oneself.
pub proof fn law_only_unusable_entries_are_replaced(events: Seq<InstallEvent>)
    ensures
        ({
            let stage = stage_after(events);
            let replacing = stage == InstallStage::Staging || stage == InstallStage::Preparing
                || stage == InstallStage::LockingForPublication || stage
                == InstallStage::Publishing || stage == InstallStage::LockingForUse;
            &&& replacing ==> stage.holds_entry() && found_unusable(events)
            &&& stage == InstallStage::Publishing ==> stage.holds_use() == UseHold::Alone
        }),
    decreases events.len(),
{
    if events.len() > 0 {
        let front = events.drop_last();
        law_only_unusable_entries_are_replaced(front);
        let before = stage_after(front);
        let last = events.len() - 1;
        if found_unusable(front) {
            let i = choose|i: int|
                0 <= i < front.len() && stage_after(front.take(i)) == InstallStage::Checking && (
                #[trigger] front[i]) == InstallEvent::Checked(None);
            assert(front.take(i) =~= events.take(i));
            assert(events[i] == InstallEvent::Checked(None));
        }
        if before == InstallStage::Checking && events.last() == InstallEvent::Checked(None) {
            assert(events.take(last) =~= front);
            assert(events[last] == InstallEvent::Checked(None));
        }
    }
}

/// An entry is planned exactly if its archive declares a well formed digest. It lies at the place of
/// its agent, platform, version and digest, and is expected to be what the registry describes.
pub proof fn law_entries_are_planned_as_described(
    root_dir: Seq<char>,
    agent: RegistryAgent,
    platform: Platform,
    target: BinaryTarget,
)
    ensures
        ({
            let plan = cache_plan(root_dir, agent, platform, target);
            &&& plan is Ok <==> target.sha256 is Some && digest::is_digest_text(
                target.sha256->Some_0@,
            )
            &&& plan is Ok ==> {
                let declared = target.sha256->Some_0@;
                let expected = plan->Ok_0.expected;
                &&& plan->Ok_0.entry == cache::cache_paths(
                    root_dir,
                    agent.id@,
                    cache::digest_key(agent.version@, declared),
                    platform,
                )
                &&& expected.agent_id == agent.id@
                &&& expected.agent_version == agent.version@
                &&& expected.platform == cache::platform_key(platform)
                &&& expected.archive == target.archive@
                &&& expected.cmd == target.cmd@
                &&& expected.sha256 is Some
                &&& text::same_letters(expected.sha256->Some_0, declared)
                &&& expected.executable_sha256 is None
                &&& expected.payload_sha256 is None
            }
        }),
{
    if target.sha256 is Some {
        let declared = target.sha256->Some_0@;
        let low = text::ascii_lower(declared);
        text::law_lower_case_changes_capitals_only(declared);
        text::law_lower_case_changes_capitals_only(low);
        assert(text::ascii_lower(low) =~= low);
        text::law_lower_case_forgets_case_only(low, declared);
    }
}

/// An installation runs through: a usable entry is given as it is, and an unusable one is staged,
/// prepared, published and then given. A failure ends it wherever it comes.
pub proof fn law_installations_run_through(run: CacheInstall, event: InstallEvent)
    ensures
        event is Failed ==> run.stage.after(event) == InstallStage::Finished,
        InstallStage::MakingParent.after(InstallEvent::Done).after(InstallEvent::Done).after(
            InstallEvent::Done,
        ) == InstallStage::Checking,
        InstallStage::Checking.after(InstallEvent::Checked(None)).after(InstallEvent::Done).after(
            InstallEvent::Done,
        ).after(InstallEvent::Done) == InstallStage::Publishing,
        event is Published ==> InstallStage::Publishing.after(event).after(InstallEvent::Done)
            == InstallStage::Finished,
        event matches InstallEvent::Checked(Some(_)) ==> InstallStage::Checking.after(event)
            == InstallStage::Finished,
{
}

/// An installation gives the entry that was found usable, or the one that was published, and nothing
/// else; it publishes only when it may, replacing what is there only if that was asked for; and a
/// failure is passed on with its cause.
pub proof fn law_installations_give_what_was_found_or_published(
    run: CacheInstall,
    event: InstallEvent,
    action: InstallAction,
)
    requires
        run.answers(event, action),
    ensures
        action matches InstallAction::Finish(Ok(cached)) ==> {
            ||| run.stage == InstallStage::Checking && event is Checked && event->Checked_0 is Some
                && cached@ == event->Checked_0->Some_0@
            ||| run.stage == InstallStage::LockingForUse && event is Done && cached@
                == run.published->Some_0@
        },
        action matches InstallAction::Finish(Err(e)) ==> event is Failed && (e@
            == event->Failed_0@ || e@.causes.first() == event->Failed_0@.message),
        action matches InstallAction::Publish(replace) ==> replace == run.force_refresh && run.stage
            == InstallStage::LockingForPublication,
        action is Check ==> run.stage == InstallStage::LockingForCheck,
        action is Stage ==> run.stage == InstallStage::Checking && event
            == InstallEvent::Checked(None),
        action is Finish <==> run.stage != InstallStage::Finished && run.stage.after(event)
            == InstallStage::Finished,
{
}

/// Plans with the same view agree on everything.
pub proof fn law_plan_views_hold_every_field(a: CachePlan, b: CachePlan)
    requires
        a@ == b@,
    ensures
        a.entry@ == b.entry@,
        a.expected@ == b.expected@,
{
}

/// An installation begins with its plan, at the first stage, and with nothing published.
pub proof fn law_installations_begin_at_the_beginning(
    plan: CachePlan,
    force_refresh: bool,
    r: CacheInstall,
)
    requires
        call_ensures(CacheInstall::new, (plan, force_refresh), r),
    ensures
        r.stage == InstallStage::MakingParent,
        r.plan == plan,
        r.force_refresh == force_refresh,
        r.published is None,
{
}

/// What is published is what is given: once it is locked for use, the installation ends with that
/// very entry.
pub proof fn law_published_entries_are_given(
    publishing: &mut CacheInstall,
    cached: CachedBinary,
    then: InstallAction,
    locking: &mut CacheInstall,
    last: InstallAction,
)
    requires
        old(publishing).is_sound(),
        old(publishing).stage == InstallStage::Publishing,
        call_ensures(CacheInstall::on, (publishing, InstallEvent::Published(cached)), then),
        *old(locking) == *final(publishing),
        call_ensures(CacheInstall::on, (locking, InstallEvent::Done), last),
    ensures
        then is ShareUse,
        last is Finish,
        last->Finish_0 is Ok,
        last->Finish_0->Ok_0@ == cached@,
        final(locking).stage == InstallStage::Finished,
{
}

/// A usable entry is given as it is; an unusable one is staged under the entry's own hidden name,
/// which leads back to it.
pub proof fn law_usable_entries_are_given(
    run: &mut CacheInstall,
    found: Option<CachedBinary>,
    action: InstallAction,
)
    requires
        old(run).is_sound(),
        old(run).stage == InstallStage::Checking,
        call_ensures(CacheInstall::on, (run, InstallEvent::Checked(found)), action),
    ensures
        found is Some ==> action is Finish && action->Finish_0 is Ok && action->Finish_0->Ok_0@
            == found->Some_0@,
        found is None ==> action is Stage && (seq!['.'] + cache::entry_name(
            old(run).plan.entry@.cache_dir,
        ) + "-staging-"@) == action->Stage_0@,
{
    reveal_strlit(".");
    if found is None {
        assert(action->Stage_0@ =~= seq!['.'] + cache::entry_name(
            old(run).plan.entry@.cache_dir,
        ) + "-staging-"@);
    }
}

} // verus!
