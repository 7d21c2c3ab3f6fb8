//! One launch of an agent, from its connection to the outcome that is recorded for it.
//!
//! The frames that pass between client and agent are observed for the answer to `initialize`; a
//! connection that ends without it is a failure, whether it ended by itself or was cut off.

use vstd::prelude::*;
use crate::serve::health::{AgentFailureView, AgentHealth, HealthView, Outcome};
use crate::text;
use crate::text::{lossy_string, same};

verus! {

/// How much of an agent's error output is kept.
pub const STDERR_TAIL_BYTES: usize = 16384;

/// The identifier of a JSON-RPC request.
#[derive(Debug)]
pub enum RequestId {
    Null,
    Number(i64),
    Str(String),
}

/// A [`RequestId`] over sequences.
#[verifier::ext_equal]
pub enum RequestIdView {
    Null,
    Number(i64),
    Str(Seq<char>),
}

impl View for RequestId {
    type V = RequestIdView;

    open spec fn view(&self) -> RequestIdView {
        match self {
            RequestId::Null => RequestIdView::Null,
            RequestId::Number(n) => RequestIdView::Number(*n),
            RequestId::Str(s) => RequestIdView::Str(s@),
        }
    }
}

impl RequestId {
    /// Whether two identifiers are equal.
    pub fn is_same(&self, other: &RequestId) -> (r: bool)
        ensures
            r == (self@ == other@),
    {
        match (self, other) {
            (RequestId::Null, RequestId::Null) => true,
            (RequestId::Number(a), RequestId::Number(b)) => *a == *b,
            (RequestId::Str(a), RequestId::Str(b)) => same(a.as_str(), b.as_str()),
            _ => false,
        }
    }
}

/// What is known of one launch.
#[derive(Debug)]
pub struct LaunchState {
    /// The order of launches: health updates from an older generation cannot overwrite a newer
    /// launch's outcome.
    pub generation: u64,
    /// Whether this launch's outcome is in the agent's health.
    pub outcome_recorded: bool,
    /// Whether the client has sent `initialize`.
    pub initialize_requested: bool,
    /// The identifier of the latest `initialize`.
    pub initialize_id: Option<RequestId>,
    /// The end of what the agent wrote to its error output.
    pub stderr_tail: Vec<u8>,
}

/// A [`LaunchState`] over numbers and sequences.
#[verifier::ext_equal]
pub struct LaunchView {
    pub generation: nat,
    pub outcome_recorded: bool,
    pub initialize_requested: bool,
    pub initialize_id: Option<RequestIdView>,
    pub stderr_tail: Seq<u8>,
}

impl View for LaunchState {
    type V = LaunchView;

    open spec fn view(&self) -> LaunchView {
        LaunchView {
            generation: self.generation as nat,
            outcome_recorded: self.outcome_recorded,
            initialize_requested: self.initialize_requested,
            initialize_id: match self.initialize_id {
                Some(id) => Some(id@),
                None => None,
            },
            stderr_tail: self.stderr_tail@,
        }
    }
}

/// A launch of which nothing has been seen.
pub open spec fn launched(generation: nat) -> LaunchView {
    LaunchView {
        generation,
        outcome_recorded: false,
        initialize_requested: false,
        initialize_id: None,
        stderr_tail: Seq::empty(),
    }
}

/// The last `count` bytes of `bytes`, or all of them if there are no more.
pub open spec fn last_bytes(bytes: Seq<u8>, count: nat) -> Seq<u8> {
    if bytes.len() <= count {
        bytes
    } else {
        bytes.skip(bytes.len() - count)
    }
}

/// A line of output with the newline that ends it.
pub open spec fn line_bytes(line: Seq<char>) -> Seq<u8> {
    vstd::utf8::encode_utf8(line).push(10)
}

/// Several lines of output, one after another.
pub open spec fn output(lines: Seq<Seq<char>>) -> Seq<u8>
    decreases lines.len(),
{
    if lines.len() == 0 {
        Seq::empty()
    } else {
        output(lines.drop_last()) + line_bytes(lines.last())
    }
}

/// The failure of a connection that ended before the agent answered `initialize`.
pub open spec fn ended_words(initialize_requested: bool) -> Seq<char> {
    if initialize_requested {
        "agent connection ended before completing initialize"@
    } else {
        "agent connection ended without sending initialize"@
    }
}

/// The failure of a connection that was cut off.
pub open spec fn cut_off_words(launch: LaunchView) -> Seq<char> {
    if !launch.initialize_requested {
        "agent connection ended without sending initialize"@
    } else if text::lossy_text(launch.stderr_tail).len() == 0 {
        "agent connection ended before completing initialize (no stderr captured)"@
    } else {
        "agent connection ended before completing initialize; stderr tail:\n"@ + text::lossy_text(
            launch.stderr_tail,
        )
    }
}

/// A launch together with the health of its agent.
pub struct Observed {
    pub launch: LaunchView,
    pub health: HealthView,
}

impl Observed {
    /// This, with the outcome recorded unless there was one already.
    pub open spec fn settled(self, failure: Option<AgentFailureView>) -> Observed {
        if self.launch.outcome_recorded {
            self
        } else {
            Observed {
                launch: LaunchView { outcome_recorded: true, ..self.launch },
                health: self.health.recorded(
                    Outcome { generation: self.launch.generation, failure },
                ),
            }
        }
    }

    /// What is known after `event`.
    pub open spec fn after(self, event: LaunchEvent) -> Observed {
        match event {
            LaunchEvent::Stderr { line } => Observed {
                launch: LaunchView {
                    stderr_tail: last_bytes(
                        self.launch.stderr_tail + line_bytes(line),
                        STDERR_TAIL_BYTES as nat,
                    ),
                    ..self.launch
                },
                ..self
            },
            LaunchEvent::Request { method, id } => if method == "initialize"@ {
                Observed {
                    launch: LaunchView {
                        initialize_requested: true,
                        initialize_id: Some(id),
                        ..self.launch
                    },
                    ..self
                }
            } else {
                self
            },
            LaunchEvent::Response { id, failure } => if self.launch.initialize_id == Some(id) {
                self.settled(failure)
            } else {
                self
            },
            LaunchEvent::Ended { error, at } => {
                let detail = match error {
                    Some(words) => words,
                    None => ended_words(self.launch.initialize_requested),
                };
                self.settled(Some(AgentFailureView { at, detail }))
            },
            LaunchEvent::CutOff { at } => self.settled(
                Some(AgentFailureView { at, detail: cut_off_words(self.launch) }),
            ),
        }
    }
}

/// Something that happens in the course of a launch.
pub enum LaunchEvent {
    /// The agent wrote a line to its error output.
    Stderr { line: Seq<char> },
    /// The client sent a request.
    Request { method: Seq<char>, id: RequestIdView },
    /// The agent answered a request, with an error if there is a failure.
    Response { id: RequestIdView, failure: Option<AgentFailureView> },
    /// The connection ended, with an error or without.
    Ended { error: Option<Seq<char>>, at: u64 },
    /// The connection was dropped before it ended.
    CutOff { at: u64 },
}

impl LaunchEvent {
    /// Whether nothing follows this event.
    pub open spec fn is_last(self) -> bool {
        self is Ended || self is CutOff
    }
}

/// What is known after all `events`, from a fresh launch.
pub open spec fn course(generation: nat, health: HealthView, events: Seq<LaunchEvent>) -> Observed
    decreases events.len(),
{
    if events.len() == 0 {
        Observed { launch: launched(generation), health }
    } else {
        course(generation, health, events.drop_last()).after(events.last())
    }
}

/// A launch is recorded at most once, under its own generation; and once its connection has ended
/// or was cut off, it has been recorded.
pub proof fn law_each_launch_is_recorded_once(
    generation: nat,
    health: HealthView,
    events: Seq<LaunchEvent>,
)
    ensures
        ({
            let end = course(generation, health, events);
            &&& end.launch.generation == generation
            &&& !end.launch.outcome_recorded ==> end.health == health
            &&& end.launch.outcome_recorded ==> exists|failure: Option<AgentFailureView>|
                end.health == #[trigger] health.recorded(Outcome { generation, failure })
            &&& (exists|i: int| 0 <= i < events.len() && (#[trigger] events[i]).is_last())
                ==> end.launch.outcome_recorded
        }),
    decreases events.len(),
{
    if events.len() > 0 {
        let front = events.drop_last();
        law_each_launch_is_recorded_once(generation, health, front);
        let before = course(generation, health, front);
        let end = course(generation, health, events);
        if before.launch.outcome_recorded {
            assert(end.health == before.health);
        } else if end.launch.outcome_recorded {
            let failure = match events.last() {
                LaunchEvent::Response { id, failure } => failure,
                LaunchEvent::Ended { error, at } => Some(
                    AgentFailureView {
                        at,
                        detail: match error {
                            Some(words) => words,
                            None => ended_words(before.launch.initialize_requested),
                        },
                    },
                ),
                LaunchEvent::CutOff { at } => Some(
                    AgentFailureView { at, detail: cut_off_words(before.launch) },
                ),
                _ => None,
            };
            assert(end.health == health.recorded(Outcome { generation, failure }));
        }
        if exists|i: int| 0 <= i < events.len() && (#[trigger] events[i]).is_last() {
            let i = choose|i: int| 0 <= i < events.len() && (#[trigger] events[i]).is_last();
            if i < front.len() {
                assert(front[i].is_last());
            }
        }
    }
}

proof fn lemma_last_bytes(a: Seq<u8>, b: Seq<u8>, count: nat)
    ensures
        last_bytes(last_bytes(a, count) + b, count) == last_bytes(a + b, count),
{
    assert(last_bytes(last_bytes(a, count) + b, count) =~= last_bytes(a + b, count));
}

/// The tail after `lines`, pushed one by one.
pub open spec fn tail_after(lines: Seq<Seq<char>>) -> Seq<u8>
    decreases lines.len(),
{
    if lines.len() == 0 {
        Seq::empty()
    } else {
        last_bytes(
            tail_after(lines.drop_last()) + line_bytes(lines.last()),
            STDERR_TAIL_BYTES as nat,
        )
    }
}

/// However many lines an agent writes, and however long they are, the tail is the end of all its
/// output, and no longer than the limit.
pub proof fn law_tail_is_the_end_of_the_output(lines: Seq<Seq<char>>)
    ensures
        tail_after(lines) == last_bytes(output(lines), STDERR_TAIL_BYTES as nat),
        tail_after(lines).len() <= STDERR_TAIL_BYTES,
    decreases lines.len(),
{
    if lines.len() > 0 {
        law_tail_is_the_end_of_the_output(lines.drop_last());
        lemma_last_bytes(
            output(lines.drop_last()),
            line_bytes(lines.last()),
            STDERR_TAIL_BYTES as nat,
        );
    }
}

impl LaunchState {
    /// Begins a launch.
    pub fn new(generation: u64) -> (r: LaunchState)
        ensures
            r@ == launched(generation as nat),
    {
        LaunchState {
            generation,
            outcome_recorded: false,
            initialize_requested: false,
            initialize_id: None,
            stderr_tail: Vec::new(),
        }
    }

    /// Keeps a line of the agent's error output, and forgets what no longer fits before it.
    pub fn push_stderr(&mut self, line: &str)
        ensures
            final(self)@ == (LaunchView {
                stderr_tail: last_bytes(
                    old(self)@.stderr_tail + line_bytes(line@),
                    STDERR_TAIL_BYTES as nat,
                ),
                ..old(self)@
            }),
    {
        let ghost before = self.stderr_tail@;
        let bytes = line.as_bytes();
        let mut tail: Vec<u8> = Vec::new();
        let mut i: usize;
        if bytes.len() >= STDERR_TAIL_BYTES - 1 {
            // Only the end of the line fits beside its newline.
            i = bytes.len() - (STDERR_TAIL_BYTES - 1);
        } else {
            let room: usize = STDERR_TAIL_BYTES - 1 - bytes.len();
            let mut k: usize = if self.stderr_tail.len() > room {
                self.stderr_tail.len() - room
            } else {
                0
            };
            let ghost start = k as int;
            while k < self.stderr_tail.len()
                invariant
                    0 <= start <= k <= self.stderr_tail.len(),
                    self.stderr_tail@ == before,
                    tail@ == before.subrange(start, k as int),
                decreases self.stderr_tail.len() - k,
            {
                tail.push(self.stderr_tail[k]);
                k += 1;
            }
            i = 0;
        }
        let ghost kept = tail@;
        let ghost from = i as int;
        while i < bytes.len()
            invariant
                0 <= from <= i <= bytes.len(),
                tail@ == kept + bytes@.subrange(from, i as int),
            decreases bytes.len() - i,
        {
            tail.push(bytes[i]);
            i += 1;
        }
        tail.push(10);
        self.stderr_tail = tail;
        assert(self.stderr_tail@ =~= last_bytes(
            before + line_bytes(line@),
            STDERR_TAIL_BYTES as nat,
        ));
    }

    /// The kept error output as text.
    pub fn stderr_tail(&self) -> (r: String)
        ensures
            r@ == text::lossy_text(self@.stderr_tail),
    {
        lossy_string(self.stderr_tail.as_slice())
    }

    /// Notes that the client has sent `initialize`.
    pub fn initialize_requested(&mut self, id: RequestId)
        ensures
            final(self)@ == (LaunchView {
                initialize_requested: true,
                initialize_id: Some(id@),
                ..old(self)@
            }),
    {
        self.initialize_requested = true;
        self.initialize_id = Some(id);
    }

    /// Whether `id` is that of the latest `initialize`.
    pub fn initialize_id_matches(&self, id: &RequestId) -> (r: bool)
        ensures
            r == (self@.initialize_id == Some(id@)),
    {
        match &self.initialize_id {
            Some(expected) => expected.is_same(id),
            None => false,
        }
    }

    /// Claims the right to record this launch's outcome, which only the first claim gets.
    pub fn try_record_outcome(&mut self) -> (r: bool)
        ensures
            r == !old(self)@.outcome_recorded,
            final(self)@ == (LaunchView { outcome_recorded: true, ..old(self)@ }),
    {
        let first = !self.outcome_recorded;
        self.outcome_recorded = true;
        first
    }

    /// Takes note of a request that the client sends to the agent.
    pub fn observe_request(&mut self, method: &str, id: RequestId)
        ensures
            final(self)@ == (Observed {
                launch: old(self)@,
                health: crate::serve::health::untried(),
            }).after(LaunchEvent::Request { method: method@, id: id@ }).launch,
    {
        if same(method, "initialize") {
            self.initialize_requested(id);
        }
    }

    /// Takes note of an answer that the agent sends: `error` holds it in words if it is an error.
    pub fn observe_response(
        &mut self,
        health: &mut AgentHealth,
        id: &RequestId,
        error: Option<String>,
        at: u64,
    )
        requires
            old(health).state.attempts < u64::MAX,
            old(health).state.failures < u64::MAX,
        ensures
            (Observed { launch: final(self)@, health: final(health).state@ }) == (Observed {
                launch: old(self)@,
                health: old(health).state@,
            }).after(
                LaunchEvent::Response {
                    id: id@,
                    failure: match error {
                        Some(detail) => Some(AgentFailureView { at, detail: detail@ }),
                        None => None,
                    },
                },
            ),
            final(health).next_generation == old(health).next_generation,
    {
        if self.initialize_id_matches(id) && self.try_record_outcome() {
            match error {
                None => health.record_ok(self.generation),
                Some(detail) => health.record_failure(self.generation, detail, at),
            }
        }
    }

    /// Takes note of the end of the connection: `error` holds what ended it, if anything did.
    pub fn complete(&mut self, health: &mut AgentHealth, error: Option<String>, at: u64)
        requires
            old(health).state.attempts < u64::MAX,
            old(health).state.failures < u64::MAX,
        ensures
            (Observed { launch: final(self)@, health: final(health).state@ }) == (Observed {
                launch: old(self)@,
                health: old(health).state@,
            }).after(LaunchEvent::Ended { error: text::opt_text(error), at }),
            final(health).next_generation == old(health).next_generation,
    {
        if self.outcome_recorded {
            return;
        }
        let detail: String = match error {
            Some(words) => words,
            None => if self.initialize_requested {
                "agent connection ended before completing initialize".to_owned()
            } else {
                "agent connection ended without sending initialize".to_owned()
            },
        };
        if self.try_record_outcome() {
            health.record_failure(self.generation, detail, at);
        }
    }

    /// Takes note that the connection was dropped before it ended.
    pub fn cut_off(&mut self, health: &mut AgentHealth, at: u64)
        requires
            old(health).state.attempts < u64::MAX,
            old(health).state.failures < u64::MAX,
        ensures
            (Observed { launch: final(self)@, health: final(health).state@ }) == (Observed {
                launch: old(self)@,
                health: old(health).state@,
            }).after(LaunchEvent::CutOff { at }),
            final(health).next_generation == old(health).next_generation,
    {
        let detail: String = if self.initialize_requested {
            let tail = self.stderr_tail();
            if tail.as_str().is_empty() {
                "agent connection ended before completing initialize (no stderr captured)".to_owned()
            } else {
                "agent connection ended before completing initialize; stderr tail:\n".to_owned().concat(
                    tail.as_str(),
                )
            }
        } else {
            "agent connection ended without sending initialize".to_owned()
        };
        if self.try_record_outcome() {
            health.record_failure(self.generation, detail, at);
        }
    }
}

/// Whether the writer of an agent's error output must now say how many lines were lost. It says so
/// at most once in a second, and only of lines that it has not spoken of.
pub fn must_report_drops(total: u64, reported: u64, elapsed_millis: u64) -> (r: bool)
    ensures
        r == (total > reported && elapsed_millis >= 1000),
{
    total > reported && elapsed_millis >= 1000
}

/// The line that tells of lost error output.
pub fn drop_report(total: u64) -> (r: String)
    ensures
        r@ == "[agent stderr] dropped "@ + text::decimal(total as nat)
            + " lines: stderr channel full"@,
{
    "[agent stderr] dropped ".to_owned().concat(text::to_decimal(total as u128).as_str()).concat(
        " lines: stderr channel full",
    )
}

/// Ids are told apart by their kind and by what they hold.
pub proof fn law_request_ids_are_told_apart(a: RequestId, b: RequestId)
    ensures
        a@ == b@ <==> match (a, b) {
            (RequestId::Null, RequestId::Null) => true,
            (RequestId::Number(m), RequestId::Number(n)) => m == n,
            (RequestId::Str(s), RequestId::Str(t)) => s@ == t@,
            _ => false,
        },
{
}

/// Launches with the same view agree on everything that decides about them.
pub proof fn law_launch_views_hold_every_field(a: LaunchState, b: LaunchState)
    requires
        a@ == b@,
    ensures
        a.generation == b.generation,
        a.outcome_recorded == b.outcome_recorded,
        a.initialize_requested == b.initialize_requested,
        a.initialize_id is Some == b.initialize_id is Some,
        a.initialize_id is Some ==> a.initialize_id->Some_0@ == b.initialize_id->Some_0@,
        a.stderr_tail@ == b.stderr_tail@,
{
}

/// The answer to the initialize request of a launch is recorded, whatever the id of the request is:
/// the launch counts as one attempt, and as a failure exactly if the answer is one.
pub proof fn law_answered_initialize_is_recorded(
    o: Observed,
    id: RequestIdView,
    failure: Option<AgentFailureView>,
)
    requires
        !o.launch.outcome_recorded,
    ensures
        ({
            let asked = o.after(LaunchEvent::Request { method: "initialize"@, id });
            let answered = asked.after(LaunchEvent::Response { id, failure });
            &&& asked.health == o.health
            &&& !asked.launch.outcome_recorded
            &&& asked.launch.initialize_id == Some(id)
            &&& asked.launch.generation == o.launch.generation
            &&& answered.launch.outcome_recorded
            &&& answered.health.attempts == o.health.attempts + 1
            &&& failure is None ==> answered.health.failures == o.health.failures
            &&& failure is Some ==> answered.health.failures == o.health.failures + 1
            &&& answered.health == o.health.recorded(
                Outcome { generation: o.launch.generation, failure },
            )
        }),
        o.launch.initialize_id == Some(id) ==> {
            let answered = o.after(LaunchEvent::Response { id, failure });
            &&& answered.launch.outcome_recorded
            &&& answered.health == o.health.recorded(
                Outcome { generation: o.launch.generation, failure },
            )
        },
{
}

/// Only the initialize request of a launch and its answer matter: other requests, and answers to
/// other requests, change nothing.
pub proof fn law_other_messages_do_not_count(
    o: Observed,
    method: Seq<char>,
    id: RequestIdView,
    failure: Option<AgentFailureView>,
)
    ensures
        method != "initialize"@ ==> o.after(LaunchEvent::Request { method, id }) == o,
        o.launch.initialize_id != Some(id) ==> o.after(LaunchEvent::Response { id, failure }) == o,
        o.launch.outcome_recorded ==> o.after(LaunchEvent::Response { id, failure }).health
            == o.health,
        o.after(LaunchEvent::Request { method, id }).health == o.health,
{
}

/// A launch that ends, one way or another, before it was answered counts as one failed attempt.
pub proof fn law_unanswered_launches_have_failed(o: Observed, error: Option<Seq<char>>, at: u64)
    requires
        !o.launch.outcome_recorded,
    ensures
        ({
            let ended = o.after(LaunchEvent::Ended { error, at });
            let cut = o.after(LaunchEvent::CutOff { at });
            &&& ended.launch.outcome_recorded && cut.launch.outcome_recorded
            &&& ended.health.attempts == o.health.attempts + 1
            &&& ended.health.failures == o.health.failures + 1
            &&& cut.health.attempts == o.health.attempts + 1
            &&& cut.health.failures == o.health.failures + 1
            &&& o.launch.generation > o.health.outcome_generation ==> {
                &&& ended.health.last_failure is Some
                &&& ended.health.last_failure->Some_0.at == at
                &&& error is Some ==> ended.health.last_failure->Some_0.detail == error->Some_0
                &&& cut.health.last_failure is Some
                &&& cut.health.last_failure->Some_0.at == at
                &&& o.launch.initialize_requested ==> text::lossy_text(
                    o.launch.stderr_tail,
                ).is_suffix_of(cut.health.last_failure->Some_0.detail)
                    || text::lossy_text(o.launch.stderr_tail).len() == 0
            }
        }),
{
    let tail = text::lossy_text(o.launch.stderr_tail);
    let words = "agent connection ended before completing initialize; stderr tail:\n"@;
    assert((words + tail).skip(words.len() as int) == tail);
}

proof fn lemma_course_step(generation: nat, health: HealthView, events: Seq<LaunchEvent>, m: int)
    requires
        0 <= m < events.len(),
    ensures
        course(generation, health, events.take(m + 1)) == course(
            generation,
            health,
            events.take(m),
        ).after(events[m]),
{
    assert(events.take(m + 1).drop_last() == events.take(m));
    assert(events.take(m + 1).last() == events[m]);
}

proof fn lemma_recorded_course(
    generation: nat,
    health: HealthView,
    events: Seq<LaunchEvent>,
    from: int,
    m: int,
)
    requires
        0 <= from <= m <= events.len(),
        course(generation, health, events.take(from)).launch.outcome_recorded,
    ensures
        course(generation, health, events.take(m)).launch.outcome_recorded,
        course(generation, health, events.take(m)).health == course(
            generation,
            health,
            events.take(from),
        ).health,
    decreases m - from,
{
    if from < m {
        lemma_recorded_course(generation, health, events, from, m - 1);
        lemma_course_step(generation, health, events, m - 1);
    }
}

proof fn lemma_course_before_the_answer(
    generation: nat,
    health: HealthView,
    events: Seq<LaunchEvent>,
    i: int,
    id: RequestIdView,
    m: int,
)
    requires
        0 <= i < events.len(),
        events[i] == (LaunchEvent::Request { method: "initialize"@, id }),
        0 <= m <= events.len(),
        forall|k: int|
            #![trigger events[k]]
            0 <= k < m ==> !(events[k] is Ended) && !(events[k] is CutOff) && (
            events[k] matches LaunchEvent::Response { failure, .. } ==> failure is None),
        forall|k: int|
            #![trigger events[k]]
            i < k < m ==> (events[k] matches LaunchEvent::Request { method, .. } ==> method
                != "initialize"@),
    ensures
        ({
            let now = course(generation, health, events.take(m));
            &&& i < m ==> now.launch.initialize_id == Some(id)
            &&& now.launch.outcome_recorded ==> now.health.failures == health.failures
                && now.health.attempts == health.attempts + 1
            &&& !now.launch.outcome_recorded ==> now.health == health
        }),
    decreases m,
{
    if m > 0 {
        lemma_course_before_the_answer(generation, health, events, i, id, m - 1);
        lemma_course_step(generation, health, events, m - 1);
        assert(events[m - 1] == events[m - 1]);
    }
}

/// A launch whose initialize request was answered well before its connection ended never counts as
/// a failure, whatever else was said on the connection, and however it ended.
pub proof fn law_ready_launches_count_no_failure(
    generation: nat,
    health: HealthView,
    events: Seq<LaunchEvent>,
    i: int,
    j: int,
    id: RequestIdView,
)
    requires
        0 <= i < j < events.len(),
        events[i] == (LaunchEvent::Request { method: "initialize"@, id }),
        events[j] == (LaunchEvent::Response { id, failure: None }),
        forall|k: int|
            #![trigger events[k]]
            0 <= k < j ==> !(events[k] is Ended) && !(events[k] is CutOff) && (
            events[k] matches LaunchEvent::Response { failure, .. } ==> failure is None),
        forall|k: int|
            #![trigger events[k]]
            i < k < j ==> (events[k] matches LaunchEvent::Request { method, .. } ==> method
                != "initialize"@),
    ensures
        course(generation, health, events).health.failures == health.failures,
        course(generation, health, events).health.attempts == health.attempts + 1,
{
    lemma_course_before_the_answer(generation, health, events, i, id, j);
    lemma_course_step(generation, health, events, j);
    lemma_recorded_course(generation, health, events, j + 1, events.len() as int);
    assert(events.take(events.len() as int) == events);
}

/// The tail of what an agent wrote is never longer than what is kept of it, and holds the line that
/// was written last, if that fits.
pub proof fn law_last_line_is_in_the_tail(o: Observed, line: Seq<char>)
    ensures
        ({
            let after = o.after(LaunchEvent::Stderr { line });
            &&& after.launch.stderr_tail.len() <= 16384
            &&& vstd::utf8::encode_utf8(line).len() < 16384 ==> vstd::utf8::encode_utf8(
                line,
            ).push(10u8).is_suffix_of(after.launch.stderr_tail)
            &&& after.launch.outcome_recorded == o.launch.outcome_recorded
            &&& after.launch.initialize_id == o.launch.initialize_id
            &&& after.health == o.health
        }),
{
    let bytes = vstd::utf8::encode_utf8(line).push(10u8);
    let all = o.launch.stderr_tail + bytes;
    let tail = last_bytes(all, STDERR_TAIL_BYTES as nat);
    if bytes.len() <= 16384 {
        assert(tail.skip(tail.len() - bytes.len()) == bytes);
    }
}

/// The answer to an `initialize` request is recorded, whatever kind of identifier the request has:
/// it is one more attempt, and one more failure exactly if the answer is an error. An answer with
/// another identifier changes nothing, and neither does one to a launch whose outcome is known.
pub proof fn law_initialize_is_answered_once(
    asked: &mut LaunchState,
    method: &str,
    id: RequestId,
    answered: &mut LaunchState,
    health: &mut AgentHealth,
    answer: &RequestId,
    error: Option<String>,
    at: u64,
)
    requires
        method@ == "initialize"@,
        call_ensures(LaunchState::observe_request, (asked, method, id), ()),
        *old(answered) == *final(asked),
        call_ensures(LaunchState::observe_response, (answered, health, answer, error, at), ()),
    ensures
        ({
            let same = match (id, *answer) {
                (RequestId::Null, RequestId::Null) => true,
                (RequestId::Number(m), RequestId::Number(n)) => m == n,
                (RequestId::Str(s), RequestId::Str(t)) => s@ == t@,
                _ => false,
            };
            let before = old(health).state;
            let after = final(health).state;
            let counts = same && !old(asked).outcome_recorded;
            &&& final(answered).outcome_recorded <==> same || old(asked).outcome_recorded
            &&& after.attempts == before.attempts + (if counts {
                1int
            } else {
                0int
            })
            &&& after.failures == before.failures + (if counts && error is Some {
                1int
            } else {
                0int
            })
            &&& !counts ==> after@ == before@
            &&& final(answered).generation == old(asked).generation
        }),
{
    law_request_ids_are_told_apart(id, *answer);
    assert(final(asked)@.initialize_id == Some(id@));
    assert(old(answered)@.initialize_id == Some(id@));
    assert(old(health).state@.attempts == old(health).state.attempts);
    assert(final(health).state@.attempts == final(health).state.attempts);
    assert(final(health).state@.failures == final(health).state.failures);
    assert(final(answered)@.outcome_recorded == final(answered).outcome_recorded);
    assert(final(answered)@.generation == final(answered).generation);
    assert(final(asked)@.generation == old(asked)@.generation);
    assert(old(asked)@.generation == old(asked).generation);
}

/// Only `initialize` requests are taken note of, and the latest one counts.
pub proof fn law_other_requests_are_ignored(
    launch: &mut LaunchState,
    method: &str,
    id: RequestId,
)
    requires
        call_ensures(LaunchState::observe_request, (launch, method, id), ()),
    ensures
        method@ != "initialize"@ ==> final(launch)@ == old(launch)@,
        method@ == "initialize"@ ==> final(launch)@.initialize_id == Some(id@)
            && final(launch)@.initialize_requested,
        final(launch)@.outcome_recorded == old(launch)@.outcome_recorded,
        final(launch)@.generation == old(launch)@.generation,
        final(launch)@.stderr_tail == old(launch)@.stderr_tail,
{
}

/// A launch that ends, or is cut off, before its outcome is known has failed, once.
pub proof fn law_ended_launches_count_once(
    launch: &mut LaunchState,
    health: &mut AgentHealth,
    error: Option<String>,
    at: u64,
)
    requires
        call_ensures(LaunchState::complete, (launch, health, error, at), ()) || call_ensures(
            LaunchState::cut_off,
            (launch, health, at),
            (),
        ),
    ensures
        final(launch).outcome_recorded,
        !old(launch).outcome_recorded ==> final(health).state.attempts == old(health).state.attempts
            + 1 && final(health).state.failures == old(health).state.failures + 1,
        old(launch).outcome_recorded ==> final(health).state@ == old(health).state@,
{
    assert(final(health).state@.attempts == final(health).state.attempts);
    assert(final(health).state@.failures == final(health).state.failures);
    assert(final(launch)@.outcome_recorded == final(launch).outcome_recorded);
}

/// A launch's outcome is recorded by the first that tries to.
pub proof fn law_the_first_to_record_wins(
    launch: &mut LaunchState,
    r: bool,
    line: &str,
    other: &mut LaunchState,
)
    requires
        call_ensures(LaunchState::try_record_outcome, (launch,), r),
        call_ensures(LaunchState::push_stderr, (other, line), ()),
    ensures
        r <==> !old(launch).outcome_recorded,
        final(launch).outcome_recorded,
        final(other)@.stderr_tail.len() <= 16_384,
        final(other)@.outcome_recorded == old(other)@.outcome_recorded,
        final(other)@.initialize_id == old(other)@.initialize_id,
{
    assert(final(launch)@.outcome_recorded == final(launch).outcome_recorded);
}

/// A launch begins with nothing known of it, and identifiers are the same exactly if they are of
/// one kind and hold the same.
pub proof fn law_launches_begin_unknown(
    generation: u64,
    fresh: LaunchState,
    a: RequestId,
    b: RequestId,
    same: bool,
    launch: LaunchState,
    matches: bool,
)
    requires
        call_ensures(LaunchState::new, (generation,), fresh),
        call_ensures(RequestId::is_same, (&a, &b), same),
        call_ensures(LaunchState::initialize_id_matches, (&launch, &a), matches),
    ensures
        fresh.generation == generation,
        !fresh.outcome_recorded && !fresh.initialize_requested && fresh.initialize_id is None,
        fresh.stderr_tail.len() == 0,
        same <==> match (a, b) {
            (RequestId::Null, RequestId::Null) => true,
            (RequestId::Number(m), RequestId::Number(n)) => m == n,
            (RequestId::Str(s), RequestId::Str(t)) => s@ == t@,
            _ => false,
        },
        matches <==> launch.initialize_id is Some && launch.initialize_id->Some_0@ == a@,
{
    law_request_ids_are_told_apart(a, b);
    assert(fresh@.generation == fresh.generation);
    assert(fresh@.outcome_recorded == fresh.outcome_recorded);
    assert(fresh@.initialize_requested == fresh.initialize_requested);
    assert(fresh@.stderr_tail == fresh.stderr_tail@);
}

/// What a launch without an outcome is blamed for: that nothing was sent, or that nothing was
/// answered, and then with what the agent wrote, as far as it wrote anything.
pub proof fn law_cut_off_launches_say_why(launch: LaunchView)
    ensures
        !launch.initialize_requested ==> cut_off_words(launch) == ended_words(false),
        launch.initialize_requested ==> ended_words(true).is_prefix_of(cut_off_words(launch)),
        launch.initialize_requested ==> text::lossy_text(launch.stderr_tail).len() == 0
            || text::lossy_text(launch.stderr_tail).is_suffix_of(cut_off_words(launch)),
        ended_words(true) != ended_words(false),
{
    reveal_strlit("agent connection ended before completing initialize");
    reveal_strlit("agent connection ended without sending initialize");
    reveal_strlit("agent connection ended before completing initialize (no stderr captured)");
    reveal_strlit("agent connection ended before completing initialize; stderr tail:\n");
    let tail = text::lossy_text(launch.stderr_tail);
    let all = cut_off_words(launch);
    assert("agent connection ended before completing initialize"@.len() == 51);
    assert("agent connection ended without sending initialize"@.len() == 49);
    if launch.initialize_requested {
        assert(all.take(51) =~= ended_words(true));
        if tail.len() > 0 {
            assert(all.skip(all.len() - tail.len()) =~= tail);
        }
    }
}

/// Dropped lines are reported when there are new ones and a second has gone by, with their number.
pub proof fn law_drops_are_reported_by_the_second(
    total: u64,
    reported: u64,
    elapsed: u64,
    r: bool,
    words: String,
)
    requires
        call_ensures(must_report_drops, (total, reported, elapsed), r),
        call_ensures(drop_report, (total,), words),
    ensures
        r ==> total > reported && elapsed >= 1_000,
        total > reported && elapsed >= 1_000 ==> r,
        words@ == "[agent stderr] dropped "@ + text::decimal(total as nat)
            + " lines: stderr channel full"@,
{
}

} // verus!
