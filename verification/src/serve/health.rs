//! Whether the agent behind a route can be launched.
//!
//! Readiness reflects the outcome of the most recent launch, not the most recent completion: each
//! launch receives a generation, and an outcome recorded for an older generation is counted but
//! never overwrites the readiness that a newer launch left.

use vstd::prelude::*;
use crate::text;
use crate::text::to_decimal;

verus! {

/// A launch that failed.
#[derive(Debug)]
pub struct AgentFailure {
    /// When it was recorded, in nanoseconds since the Unix epoch.
    pub at: u64,
    /// What went wrong.
    pub detail: String,
}

/// An [`AgentFailure`] over sequences.
#[verifier::ext_equal]
pub struct AgentFailureView {
    pub at: u64,
    pub detail: Seq<char>,
}

impl View for AgentFailure {
    type V = AgentFailureView;

    open spec fn view(&self) -> AgentFailureView {
        AgentFailureView { at: self.at, detail: self.detail@ }
    }
}

/// An optional failure over sequences.
pub open spec fn failure_view(f: Option<AgentFailure>) -> Option<AgentFailureView> {
    match f {
        Some(failure) => Some(failure@),
        None => None,
    }
}

/// What is known of the launches of one agent.
#[derive(Debug)]
pub struct AgentHealthState {
    /// Launches whose outcome was recorded.
    pub attempts: u64,
    /// Those among them that failed.
    pub failures: u64,
    /// Generation of the launch whose outcome is reflected in `last_attempt_failed` and
    /// `last_failure`.
    pub outcome_generation: u64,
    /// Whether that launch failed.
    pub last_attempt_failed: bool,
    /// The newest failure that was not overtaken when it was recorded.
    pub last_failure: Option<AgentFailure>,
}

/// An [`AgentHealthState`] over numbers and sequences.
#[verifier::ext_equal]
pub struct HealthView {
    pub attempts: nat,
    pub failures: nat,
    pub outcome_generation: nat,
    pub last_attempt_failed: bool,
    pub last_failure: Option<AgentFailureView>,
}

impl View for AgentHealthState {
    type V = HealthView;

    open spec fn view(&self) -> HealthView {
        HealthView {
            attempts: self.attempts as nat,
            failures: self.failures as nat,
            outcome_generation: self.outcome_generation as nat,
            last_attempt_failed: self.last_attempt_failed,
            last_failure: failure_view(self.last_failure),
        }
    }
}

/// The health of an agent of which no launch has ended.
pub open spec fn untried() -> HealthView {
    HealthView {
        attempts: 0,
        failures: 0,
        outcome_generation: 0,
        last_attempt_failed: false,
        last_failure: None,
    }
}

/// How a launch ended.
pub struct Outcome {
    pub generation: nat,
    pub failure: Option<AgentFailureView>,
}

impl HealthView {
    /// Whether the counts can be those of a history of launches.
    pub open spec fn is_counted(self) -> bool {
        self.failures <= self.attempts
    }

    /// The health after one more outcome.
    pub open spec fn recorded(self, outcome: Outcome) -> HealthView {
        let newer = outcome.generation > self.outcome_generation;
        HealthView {
            attempts: self.attempts + 1,
            failures: if outcome.failure is Some {
                self.failures + 1
            } else {
                self.failures
            },
            outcome_generation: if newer {
                outcome.generation
            } else {
                self.outcome_generation
            },
            last_attempt_failed: if newer {
                outcome.failure is Some
            } else {
                self.last_attempt_failed
            },
            last_failure: if newer && outcome.failure is Some {
                outcome.failure
            } else {
                self.last_failure
            },
        }
    }
}

/// The health after all `outcomes`, recorded in this order.
pub open spec fn after(outcomes: Seq<Outcome>) -> HealthView
    decreases outcomes.len(),
{
    if outcomes.len() == 0 {
        untried()
    } else {
        after(outcomes.drop_last()).recorded(outcomes.last())
    }
}

/// How many of `outcomes` are failures.
pub open spec fn failed(outcomes: Seq<Outcome>) -> nat
    decreases outcomes.len(),
{
    if outcomes.len() == 0 {
        0
    } else {
        failed(outcomes.drop_last()) + if outcomes.last().failure is Some {
            1nat
        } else {
            0nat
        }
    }
}

/// Every recorded outcome is counted once, whatever its generation, and the counts stay in
/// proportion.
pub proof fn law_outcomes_are_counted(outcomes: Seq<Outcome>)
    ensures
        after(outcomes).attempts == outcomes.len(),
        after(outcomes).failures == failed(outcomes),
        after(outcomes).is_counted(),
    decreases outcomes.len(),
{
    if outcomes.len() > 0 {
        law_outcomes_are_counted(outcomes.drop_last());
    }
}

/// Whether no two of `outcomes` are of one launch, and all are of launches that were given a
/// generation.
pub open spec fn is_one_per_launch(outcomes: Seq<Outcome>) -> bool {
    &&& forall|i: int| 0 <= i < outcomes.len() ==> (#[trigger] outcomes[i]).generation >= 1
    &&& forall|i: int, j: int|
        0 <= i < j < outcomes.len() ==> (#[trigger] outcomes[i]).generation != (
        #[trigger] outcomes[j]).generation
}

/// Whether `outcomes[newest]` is of the newest launch.
pub open spec fn is_newest(outcomes: Seq<Outcome>, newest: int) -> bool {
    &&& 0 <= newest < outcomes.len()
    &&& forall|i: int|
        0 <= i < outcomes.len() ==> (#[trigger] outcomes[i]).generation
            <= outcomes[newest].generation
}

proof fn lemma_generation_is_greatest(outcomes: Seq<Outcome>)
    ensures
        forall|i: int|
            0 <= i < outcomes.len() ==> (#[trigger] outcomes[i]).generation <= after(
                outcomes,
            ).outcome_generation,
        after(outcomes).outcome_generation == 0 || exists|i: int|
            0 <= i < outcomes.len() && (#[trigger] outcomes[i]).generation == after(
                outcomes,
            ).outcome_generation,
    decreases outcomes.len(),
{
    if outcomes.len() > 0 {
        let front = outcomes.drop_last();
        lemma_generation_is_greatest(front);
        assert forall|i: int| 0 <= i < outcomes.len() implies (#[trigger] outcomes[i]).generation
            <= after(outcomes).outcome_generation by {
            if i < front.len() {
                assert(front[i] == outcomes[i]);
            }
        }
        if outcomes.last().generation > after(front).outcome_generation {
            assert(outcomes[outcomes.len() - 1].generation == after(outcomes).outcome_generation);
        } else if after(front).outcome_generation != 0 {
            let i = choose|i: int|
                0 <= i < front.len() && (#[trigger] front[i]).generation == after(
                    front,
                ).outcome_generation;
            assert(outcomes[i] == front[i]);
        }
    }
}

/// Readiness is that of the newest launch among those whose outcome is known, in whatever order
/// the outcomes were recorded.
pub proof fn law_readiness_follows_the_newest_launch(outcomes: Seq<Outcome>, newest: int)
    requires
        is_one_per_launch(outcomes),
        is_newest(outcomes, newest),
    ensures
        after(outcomes).outcome_generation == outcomes[newest].generation,
        after(outcomes).last_attempt_failed == (outcomes[newest].failure is Some),
        outcomes[newest].failure is Some ==> after(outcomes).last_failure
            == outcomes[newest].failure,
    decreases outcomes.len(),
{
    let front = outcomes.drop_last();
    lemma_generation_is_greatest(front);
    assert forall|i: int| 0 <= i < front.len() implies (#[trigger] front[i]).generation >= 1 by {
        assert(front[i] == outcomes[i]);
    }
    assert forall|i: int, j: int| 0 <= i < j < front.len() implies (
    #[trigger] front[i]).generation != (#[trigger] front[j]).generation by {
        assert(front[i] == outcomes[i] && front[j] == outcomes[j]);
    }
    if newest == outcomes.len() - 1 {
        if after(front).outcome_generation != 0 {
            let i = choose|i: int|
                0 <= i < front.len() && (#[trigger] front[i]).generation == after(
                    front,
                ).outcome_generation;
            assert(front[i] == outcomes[i]);
            assert(outcomes[i].generation < outcomes[newest].generation);
        }
    } else {
        assert(front[newest] == outcomes[newest]);
        assert forall|i: int| 0 <= i < front.len() implies (#[trigger] front[i]).generation
            <= front[newest].generation by {
            assert(front[i] == outcomes[i]);
        }
        law_readiness_follows_the_newest_launch(front, newest);
        assert(outcomes[outcomes.len() - 1].generation <= outcomes[newest].generation);
    }
}

/// The health of one agent, and the generation that its next launch will get.
#[derive(Debug)]
pub struct AgentHealth {
    pub state: AgentHealthState,
    /// The generation of the latest launch.
    pub next_generation: u64,
}

impl Default for AgentHealth {
    fn default() -> (r: Self)
        ensures
            r.state@ == untried(),
            r.next_generation == 0,
    {
        AgentHealth {
            state: AgentHealthState {
                attempts: 0,
                failures: 0,
                outcome_generation: 0,
                last_attempt_failed: false,
                last_failure: None,
            },
            next_generation: 0,
        }
    }
}

impl AgentHealth {
    /// Allocates the generation for one agent launch: each is one more than the one before.
    pub fn next_generation(&mut self) -> (r: u64)
        requires
            old(self).next_generation < u64::MAX,
        ensures
            r == old(self).next_generation + 1,
            final(self).next_generation == r,
            final(self).state == old(self).state,
    {
        self.next_generation = self.next_generation + 1;
        self.next_generation
    }

    /// Records that the launch of `generation` succeeded.
    pub fn record_ok(&mut self, generation: u64)
        requires
            old(self).state.attempts < u64::MAX,
        ensures
            final(self).state@ == old(self).state@.recorded(
                Outcome { generation: generation as nat, failure: None },
            ),
            final(self).next_generation == old(self).next_generation,
    {
        self.state.attempts = self.state.attempts + 1;
        if generation > self.state.outcome_generation {
            self.state.outcome_generation = generation;
            self.state.last_attempt_failed = false;
        }
    }

    /// Records that the launch of `generation` failed, as seen at the time `at`.
    pub fn record_failure(&mut self, generation: u64, detail: String, at: u64)
        requires
            old(self).state.attempts < u64::MAX,
            old(self).state.failures < u64::MAX,
        ensures
            final(self).state@ == old(self).state@.recorded(
                Outcome {
                    generation: generation as nat,
                    failure: Some(AgentFailureView { at, detail: detail@ }),
                },
            ),
            final(self).next_generation == old(self).next_generation,
    {
        self.state.attempts = self.state.attempts + 1;
        self.state.failures = self.state.failures + 1;
        if generation > self.state.outcome_generation {
            self.state.outcome_generation = generation;
            self.state.last_attempt_failed = true;
            self.state.last_failure = Some(AgentFailure { at, detail });
        }
    }

    /// What a status display shows of this health.
    pub fn readiness_snapshot(&self) -> (r: ReadinessSnapshot)
        ensures
            r@ == snapshot(self.state@),
    {
        ReadinessSnapshot {
            attempts: self.state.attempts,
            failures: self.state.failures,
            last_attempt_failed: self.state.last_attempt_failed,
            last_failure: match &self.state.last_failure {
                Some(failure) => Some(
                    ReadinessFailure { at: failure.at, detail: failure.detail.clone() },
                ),
                None => None,
            },
        }
    }

    /// Answers a readiness probe at the time `now`, with an HTTP status and a body.
    pub fn readyz(&self, now: u64) -> (r: (u16, String))
        ensures
            r.0 == probe_answer(self.state@, now).0,
            r.1@ == probe_answer(self.state@, now).1,
    {
        if !self.state.last_attempt_failed {
            return (200, "ready\n".to_owned());
        }
        let detail: String = match &self.state.last_failure {
            None => String::new(),
            Some(failure) => {
                let age: String = if now >= failure.at {
                    duration_string(now - failure.at).concat(" ago")
                } else {
                    "recently".to_owned()
                };
                "last failure (".to_owned().concat(age.as_str()).concat("): ").concat(
                    failure.detail.as_str(),
                ).concat("\n")
            },
        };
        let body = "not ready: ".to_owned().concat(
            to_decimal(self.state.failures as u128).as_str(),
        ).concat(" of ").concat(to_decimal(self.state.attempts as u128).as_str()).concat(
            " agent launches failed; ",
        ).concat(detail.as_str());
        (503, body)
    }
}

/// A span of time in nanoseconds, in words.
pub uninterp spec fn duration_text(nanos: u64) -> Seq<char>;

/// Formats `Duration::from_nanos(nanos)` of std with `{:?}`. What the text looks like is left
/// open; it is taken to depend on the number alone.
#[verifier::external_body]
fn duration_string(nanos: u64) -> (r: String)
    ensures
        r@ == duration_text(nanos),
{
    format!("{:?}", std::time::Duration::from_nanos(nanos))
}

/// How long ago a failure was, in words. A clock that was set back makes it recent.
pub open spec fn age_text(at: u64, now: u64) -> Seq<char> {
    if now >= at {
        duration_text((now - at) as u64) + " ago"@
    } else {
        "recently"@
    }
}

/// The answer to a readiness probe: ready unless the newest launch failed.
pub open spec fn probe_answer(health: HealthView, now: u64) -> (u16, Seq<char>) {
    if !health.last_attempt_failed {
        (200, "ready\n"@)
    } else {
        let detail = match health.last_failure {
            Some(f) => "last failure ("@ + age_text(f.at, now) + "): "@ + f.detail + "\n"@,
            None => Seq::empty(),
        };
        (
            503,
            "not ready: "@ + text::decimal(health.failures) + " of "@ + text::decimal(
                health.attempts,
            ) + " agent launches failed; "@ + detail,
        )
    }
}

/// The newest failure, as a snapshot holds it.
#[derive(Debug)]
pub struct ReadinessFailure {
    /// When it was recorded, in nanoseconds since the Unix epoch.
    pub at: u64,
    pub detail: String,
}

/// An agent's health at one moment.
#[derive(Debug)]
pub struct ReadinessSnapshot {
    pub attempts: u64,
    pub failures: u64,
    pub last_attempt_failed: bool,
    pub last_failure: Option<ReadinessFailure>,
}

/// A [`ReadinessSnapshot`] over numbers and sequences.
#[verifier::ext_equal]
pub struct SnapshotView {
    pub attempts: u64,
    pub failures: u64,
    pub last_attempt_failed: bool,
    pub last_failure: Option<AgentFailureView>,
}

impl View for ReadinessSnapshot {
    type V = SnapshotView;

    open spec fn view(&self) -> SnapshotView {
        SnapshotView {
            attempts: self.attempts,
            failures: self.failures,
            last_attempt_failed: self.last_attempt_failed,
            last_failure: match self.last_failure {
                Some(f) => Some(AgentFailureView { at: f.at, detail: f.detail@ }),
                None => None,
            },
        }
    }
}

/// The snapshot of a health state.
pub open spec fn snapshot(health: HealthView) -> SnapshotView {
    SnapshotView {
        attempts: health.attempts as u64,
        failures: health.failures as u64,
        last_attempt_failed: health.last_attempt_failed,
        last_failure: health.last_failure,
    }
}

/// A probe finds the agent ready exactly if the newest launch did not fail. What it says of one that
/// is not ready begins with how many launches failed, and of how many, and ends with what went
/// wrong.
pub proof fn law_probe_tells_of_the_newest_launch(health: HealthView, now: u64)
    ensures
        probe_answer(health, now).0 == 200 <==> !health.last_attempt_failed,
        probe_answer(health, now).0 == 503 <==> health.last_attempt_failed,
        !health.last_attempt_failed ==> probe_answer(health, now).1 == "ready\n"@,
        health.last_attempt_failed ==> ("not ready: "@ + text::decimal(health.failures) + " of "@
            + text::decimal(health.attempts) + " agent launches failed; "@).is_prefix_of(
            probe_answer(health, now).1,
        ),
        health.last_attempt_failed && health.last_failure is Some ==> (
        health.last_failure->Some_0.detail + "\n"@).is_suffix_of(probe_answer(health, now).1),
{
    if health.last_attempt_failed {
        let head = "not ready: "@ + text::decimal(health.failures) + " of "@ + text::decimal(
            health.attempts,
        ) + " agent launches failed; "@;
        let all = probe_answer(health, now).1;
        assert(all.take(head.len() as int) == head);
        if health.last_failure is Some {
            let f = health.last_failure->Some_0;
            let tail = f.detail + "\n"@;
            let lead = head + ("last failure ("@ + age_text(f.at, now) + "): "@);
            assert(all == lead + tail);
            assert(all.skip(all.len() - tail.len()) == tail);
        }
    }
}

/// A recorded outcome counts as one attempt, and as a failure exactly if it is one. An outcome of an
/// older launch than one known already is counted, and changes nothing else.
pub proof fn law_recording_counts_once(
    health: HealthView,
    generation: nat,
    failure: Option<AgentFailureView>,
)
    ensures
        ({
            let after = health.recorded(Outcome { generation, failure });
            &&& after.attempts == health.attempts + 1
            &&& failure is Some ==> after.failures == health.failures + 1
            &&& failure is None ==> after.failures == health.failures
            &&& generation > health.outcome_generation ==> {
                &&& after.outcome_generation == generation
                &&& after.last_attempt_failed <==> failure is Some
                &&& failure is Some ==> after.last_failure == failure
            }
            &&& generation <= health.outcome_generation ==> {
                &&& after.outcome_generation == health.outcome_generation
                &&& after.last_attempt_failed == health.last_attempt_failed
                &&& after.last_failure == health.last_failure
            }
        }),
{
}

/// A snapshot tells the counts as they are, and the failure that was met last.
pub proof fn law_snapshot_is_of_the_state(state: AgentHealthState)
    ensures
        snapshot(state@).attempts == state.attempts,
        snapshot(state@).failures == state.failures,
        snapshot(state@).last_attempt_failed == state.last_attempt_failed,
        snapshot(state@).last_failure is Some == state.last_failure is Some,
        state.last_failure is Some ==> snapshot(state@).last_failure->Some_0.at
            == state.last_failure->Some_0.at && snapshot(state@).last_failure->Some_0.detail
            == state.last_failure->Some_0.detail@,
{
}

/// Snapshots with the same view agree on everything.
pub proof fn law_snapshot_views_hold_every_field(a: ReadinessSnapshot, b: ReadinessSnapshot)
    requires
        a@ == b@,
    ensures
        a.attempts == b.attempts,
        a.failures == b.failures,
        a.last_attempt_failed == b.last_attempt_failed,
        a.last_failure is Some == b.last_failure is Some,
        a.last_failure is Some ==> a.last_failure->Some_0.at == b.last_failure->Some_0.at
            && a.last_failure->Some_0.detail@ == b.last_failure->Some_0.detail@,
{
}

/// States with the same view agree on everything.
pub proof fn law_health_views_hold_every_field(a: AgentHealthState, b: AgentHealthState)
    requires
        a@ == b@,
    ensures
        a.attempts == b.attempts,
        a.failures == b.failures,
        a.outcome_generation == b.outcome_generation,
        a.last_attempt_failed == b.last_attempt_failed,
        a.last_failure is Some == b.last_failure is Some,
        a.last_failure is Some ==> a.last_failure->Some_0.at == b.last_failure->Some_0.at
            && a.last_failure->Some_0.detail@ == b.last_failure->Some_0.detail@,
{
}

/// Launches are numbered one after the other, and every outcome counts once: as an attempt, and as a
/// failure exactly if it is one. What is told of the newest launch is changed by a newer one only.
pub proof fn law_outcomes_count_once(
    numbered: &mut AgentHealth,
    number: u64,
    ready: &mut AgentHealth,
    generation: u64,
    failed: &mut AgentHealth,
    detail: String,
    at: u64,
)
    requires
        call_ensures(AgentHealth::next_generation, (numbered,), number),
        call_ensures(AgentHealth::record_ok, (ready, generation), ()),
        call_ensures(AgentHealth::record_failure, (failed, generation, detail, at), ()),
    ensures
        number == old(numbered).next_generation + 1,
        final(numbered).next_generation == number,
        final(ready).state.attempts == old(ready).state.attempts + 1,
        final(ready).state.failures == old(ready).state.failures,
        generation > old(ready).state.outcome_generation ==> !final(ready).state.last_attempt_failed,
        generation <= old(ready).state.outcome_generation ==> final(ready).state.last_attempt_failed
            == old(ready).state.last_attempt_failed,
        final(failed).state.attempts == old(failed).state.attempts + 1,
        final(failed).state.failures == old(failed).state.failures + 1,
        generation > old(failed).state.outcome_generation ==> final(failed).state.last_attempt_failed && final(failed).state@.last_failure == Some(
            AgentFailureView { at, detail: detail@ },
        ),
        generation <= old(failed).state.outcome_generation ==> final(failed).state.last_attempt_failed == old(failed).state.last_attempt_failed,
{
    assert(final(ready).state@.attempts == final(ready).state.attempts);
    assert(final(ready).state@.failures == final(ready).state.failures);
    assert(final(ready).state@.last_attempt_failed == final(ready).state.last_attempt_failed);
    assert(final(failed).state@.attempts == final(failed).state.attempts);
    assert(final(failed).state@.failures == final(failed).state.failures);
    assert(final(failed).state@.last_attempt_failed == final(failed).state.last_attempt_failed);
}

/// The age of a failure is the time since then, and no time at all where the clock was set back; it
/// is the same however late both moments are.
pub proof fn law_ages_are_the_time_between(at: u64, now: u64, later: u64)
    requires
        at + later <= u64::MAX,
        now + later <= u64::MAX,
    ensures
        age_text(at, now) == age_text((at + later) as u64, (now + later) as u64),
        now >= at ==> (duration_text((now - at) as u64)).is_prefix_of(age_text(at, now)),
        now < at ==> age_text(at, now) == "recently"@,
{
    if now >= at {
        let words = duration_text((now - at) as u64);
        assert(age_text(at, now).take(words.len() as int) =~= words);
    }
}

/// A probe is answered by what is known of the agent: ready unless its newest launch failed.
pub proof fn law_probes_are_answered_by_health(
    health: AgentHealth,
    now: u64,
    r: (u16, String),
    s: ReadinessSnapshot,
)
    requires
        call_ensures(AgentHealth::readyz, (&health, now), r),
        call_ensures(AgentHealth::readiness_snapshot, (&health,), s),
    ensures
        r.0 == 503 <==> health.state.last_attempt_failed,
        r.0 == 200 <==> !health.state.last_attempt_failed,
        r.0 == 200 ==> r.1@ == "ready\n"@,
        s@ == snapshot(health.state@),
{
    assert(health.state@.last_attempt_failed == health.state.last_attempt_failed);
}

} // verus!
