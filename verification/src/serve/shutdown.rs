//! Bringing a server down: it drains within a grace period, and is then closed by force.

use vstd::prelude::*;
use crate::failure::{Failure, FailureView};

verus! {

/// How long the server waits for active connections to drain after a shutdown signal before it
/// cancels them, in milliseconds.
pub const SHUTDOWN_GRACE_MILLIS: u64 = 3000;

/// How long the server waits after cancelling connections before it gives up, in milliseconds.
pub const FORCE_CLOSE_GRACE_MILLIS: u64 = 1000;

/// Where a running server stands.
#[derive(Debug, Clone, Copy, PartialEq, Eq, Structural)]
pub enum ServeStage {
    /// It accepts connections.
    Serving,
    /// It accepts no more, and waits for those that it has.
    Draining,
    /// It has cancelled those that it had.
    Closing,
    /// It has ended.
    Finished,
}

/// What happens to a running server.
#[derive(Debug)]
pub enum ServeEvent {
    /// It ended, by itself or with an error.
    Ended(Result<(), Failure>),
    /// It was told to shut down.
    ShutdownRequested,
    /// The time that it was given ran out, which the clock reports as a failure.
    TimedOut(Failure),
}

/// What is to be done about a running server.
#[derive(Debug)]
pub enum ServeAction {
    /// Wait for it.
    Wait,
    /// Accept no more connections, and wait for it at most so many milliseconds.
    Drain(u64),
    /// Cancel every agent, break every connection, and wait for it at most so many milliseconds.
    ForceClose(u64),
    /// Report how it ended.
    Finish(Result<(), Failure>),
}

/// A server's way from serving to its end.
#[derive(Debug)]
pub struct ServeRun {
    pub stage: ServeStage,
    /// How long it may drain, in milliseconds.
    pub grace: u64,
}

/// How a server that ended is reported while nothing was forced.
pub open spec fn reported(result: Result<(), Failure>) -> Result<(), FailureView> {
    match result {
        Ok(_) => Ok(()),
        Err(e) => Err(e@.within("ACP HTTP server failed"@)),
    }
}

/// An outcome over sequences.
pub open spec fn outcome_view(result: Result<(), Failure>) -> Result<(), FailureView> {
    match result {
        Ok(_) => Ok(()),
        Err(e) => Err(e@),
    }
}

/// Where the server stands after `event`.
pub open spec fn next_stage(stage: ServeStage, event: ServeEvent) -> ServeStage {
    match (stage, event) {
        (ServeStage::Finished, _) => ServeStage::Finished,
        (_, ServeEvent::Ended(_)) => ServeStage::Finished,
        (ServeStage::Serving, ServeEvent::ShutdownRequested) => ServeStage::Draining,
        (ServeStage::Draining, ServeEvent::TimedOut(_)) => ServeStage::Closing,
        (ServeStage::Closing, ServeEvent::TimedOut(_)) => ServeStage::Finished,
        _ => stage,
    }
}

/// Whether `action` is what `event` asks for.
pub open spec fn answers(run: ServeRun, event: ServeEvent, action: ServeAction) -> bool {
    match (run.stage, event) {
        (ServeStage::Serving, ServeEvent::Ended(result)) => action is Finish && outcome_view(
            action->Finish_0,
        ) == reported(result),
        (ServeStage::Draining, ServeEvent::Ended(result)) => action is Finish && outcome_view(
            action->Finish_0,
        ) == reported(result),
        (ServeStage::Closing, ServeEvent::Ended(result)) => action is Finish && outcome_view(
            action->Finish_0,
        ) == outcome_view(result),
        (ServeStage::Serving, ServeEvent::ShutdownRequested) => action == ServeAction::Drain(
            run.grace,
        ),
        (ServeStage::Draining, ServeEvent::TimedOut(_)) => action == ServeAction::ForceClose(
            FORCE_CLOSE_GRACE_MILLIS,
        ),
        (ServeStage::Closing, ServeEvent::TimedOut(cause)) => action is Finish && outcome_view(
            action->Finish_0,
        ) == Err::<(), FailureView>(
            cause@.within("ACP HTTP connections did not close after forced shutdown"@),
        ),
        _ => action is Wait,
    }
}

impl ServeRun {
    /// A server that has begun to serve.
    pub fn new(grace: u64) -> (r: ServeRun)
        ensures
            r.stage is Serving,
            r.grace == grace,
    {
        ServeRun { stage: ServeStage::Serving, grace }
    }

    /// Decides what `event` asks for.
    pub fn on(&mut self, event: ServeEvent) -> (r: ServeAction)
        ensures
            final(self).stage == next_stage(old(self).stage, event),
            final(self).grace == old(self).grace,
            answers(*old(self), event, r),
    {
        match (self.stage, event) {
            (ServeStage::Serving, ServeEvent::Ended(result)) => {
                self.stage = ServeStage::Finished;
                ServeAction::Finish(report(result))
            },
            (ServeStage::Draining, ServeEvent::Ended(result)) => {
                self.stage = ServeStage::Finished;
                ServeAction::Finish(report(result))
            },
            (ServeStage::Closing, ServeEvent::Ended(result)) => {
                self.stage = ServeStage::Finished;
                ServeAction::Finish(result)
            },
            (ServeStage::Serving, ServeEvent::ShutdownRequested) => {
                self.stage = ServeStage::Draining;
                ServeAction::Drain(self.grace)
            },
            (ServeStage::Draining, ServeEvent::TimedOut(_)) => {
                self.stage = ServeStage::Closing;
                ServeAction::ForceClose(FORCE_CLOSE_GRACE_MILLIS)
            },
            (ServeStage::Closing, ServeEvent::TimedOut(cause)) => {
                self.stage = ServeStage::Finished;
                ServeAction::Finish(
                    Err(
                        cause.within(
                            "ACP HTTP connections did not close after forced shutdown".to_owned(),
                        ),
                    ),
                )
            },
            _ => ServeAction::Wait,
        }
    }
}

fn report(result: Result<(), Failure>) -> (r: Result<(), Failure>)
    ensures
        outcome_view(r) == reported(result),
{
    match result {
        Ok(_) => Ok(()),
        Err(e) => Err(e.within("ACP HTTP server failed".to_owned())),
    }
}

/// Where the server stands after all `events`.
pub open spec fn stage_after(stage: ServeStage, events: Seq<ServeEvent>) -> ServeStage
    decreases events.len(),
{
    if events.len() == 0 {
        stage
    } else {
        next_stage(stage_after(stage, events.drop_last()), events.last())
    }
}

/// Connections are broken by force only after the server was told to shut down and its grace ran
/// out; and a server whose grace ran out a second time has ended.
pub proof fn law_force_follows_the_grace(events: Seq<ServeEvent>)
    ensures
        stage_after(ServeStage::Serving, events) is Draining || stage_after(
            ServeStage::Serving,
            events,
        ) is Closing ==> exists|i: int|
            0 <= i < events.len() && (#[trigger] events[i]) is ShutdownRequested,
        stage_after(ServeStage::Serving, events) is Closing ==> exists|i: int, j: int|
            0 <= i < j < events.len() && (#[trigger] events[i]) is ShutdownRequested && (
            #[trigger] events[j]) is TimedOut,
    decreases events.len(),
{
    if events.len() > 0 {
        let front = events.drop_last();
        law_force_follows_the_grace(front);
        let before = stage_after(ServeStage::Serving, front);
        let now = stage_after(ServeStage::Serving, events);
        let last = events.len() - 1;
        if now is Draining || now is Closing {
            if before is Draining || before is Closing {
                let i = choose|i: int|
                    0 <= i < front.len() && (#[trigger] front[i]) is ShutdownRequested;
                assert(events[i] is ShutdownRequested);
            } else {
                assert(events[last] is ShutdownRequested);
            }
        }
        if now is Closing {
            if before is Closing {
                let (i, j) = choose|i: int, j: int|
                    0 <= i < j < front.len() && (#[trigger] front[i]) is ShutdownRequested && (
                    #[trigger] front[j]) is TimedOut;
                assert(events[i] is ShutdownRequested && events[j] is TimedOut);
            } else {
                let i = choose|i: int|
                    0 <= i < front.len() && (#[trigger] front[i]) is ShutdownRequested;
                assert(events[i] is ShutdownRequested && events[last] is TimedOut);
            }
        }
    }
}

/// A server that was told to shut down ends after its two waits at the latest.
pub proof fn law_shutdown_ends(stage: ServeStage, first: Failure, second: Failure)
    ensures
        stage_after(
            stage,
            seq![
                ServeEvent::ShutdownRequested,
                ServeEvent::TimedOut(first),
                ServeEvent::TimedOut(second),
            ],
        ) is Finished,
{
    let events = seq![
        ServeEvent::ShutdownRequested,
        ServeEvent::TimedOut(first),
        ServeEvent::TimedOut(second),
    ];
    let two = events.drop_last();
    let one = two.drop_last();
    assert(one.drop_last() =~= Seq::<ServeEvent>::empty());
    reveal_with_fuel(stage_after, 4);
}

/// The end of a server is always passed on, as well or badly as it ended, and never twice. A server
/// that is told to shut down is given its grace first; connections are closed by force only after
/// that, and a server that does not end even then has failed.
pub proof fn law_every_end_is_reported(run: ServeRun, event: ServeEvent, action: ServeAction)
    requires
        answers(run, event, action),
    ensures
        run.stage is Finished ==> action is Wait && next_stage(run.stage, event) is Finished,
        !(run.stage is Finished) && event is Ended ==> {
            &&& action is Finish
            &&& action->Finish_0 is Ok <==> event->Ended_0 is Ok
            &&& next_stage(run.stage, event) is Finished
        },
        run.stage is Serving && event is ShutdownRequested ==> action == ServeAction::Drain(
            run.grace,
        ) && next_stage(run.stage, event) is Draining,
        run.stage is Draining && event is TimedOut ==> action is ForceClose && next_stage(
            run.stage,
            event,
        ) is Closing,
        run.stage is Closing && event is TimedOut ==> action is Finish && action->Finish_0 is Err
            && next_stage(run.stage, event) is Finished,
        action is Drain ==> run.stage is Serving && event is ShutdownRequested,
        action is ForceClose ==> run.stage is Draining && event is TimedOut,
        action is Finish ==> next_stage(run.stage, event) is Finished,
        action is Wait ==> next_stage(run.stage, event) == run.stage,
{
}

/// Connections are closed by force within a second of being told to; what a server failed at stays
/// in what is reported of it, as it is or as the cause.
pub proof fn law_causes_of_the_end_are_told(
    run: &mut ServeRun,
    event: ServeEvent,
    action: ServeAction,
    grace: u64,
    fresh: ServeRun,
)
    requires
        call_ensures(ServeRun::on, (run, event), action),
        call_ensures(ServeRun::new, (grace,), fresh),
    ensures
        fresh.stage is Serving && fresh.grace == grace,
        final(run).grace == old(run).grace,
        action is ForceClose ==> action->ForceClose_0 == 1_000,
        action is Drain ==> action->Drain_0 == old(run).grace,
        action is Finish && event is Ended && event->Ended_0 is Err ==> action->Finish_0 is Err && (
        action->Finish_0->Err_0@ == event->Ended_0->Err_0@ || action->Finish_0->Err_0@.causes.first()
            == event->Ended_0->Err_0@.message),
        action is Finish && event is TimedOut ==> action->Finish_0 is Err
            && action->Finish_0->Err_0@.causes.first() == event->TimedOut_0@.message,
        action is Finish ==> final(run).stage is Finished,
{
    law_every_end_is_reported(*old(run), event, action);
}

} // verus!
