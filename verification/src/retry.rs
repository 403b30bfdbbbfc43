//! The retry controller: a state machine over probe events.
//!
//! One probe attempt ends in an [`AttemptOutcome`]. The controller
//! consumes one [`ProbeEvent`] per attempt and decides a [`Directive`]:
//! retry after the fixed inter-attempt delay, exit at once on a healthy
//! reply, or sleep once more and exit when the attempt budget is
//! exhausted or the progress output failed. The caller performs the
//! sockets, the sleeps and the process exit; every decision is made
//! here.

use vstd::prelude::*;

verus! {

/// The fixed attempt budget: the controller never asks for more attempts.
pub const MAX_ATTEMPTS: u32 = 30;

/// The fixed delay, in seconds, between attempts (and before a terminal
/// exit that follows a failed attempt).
pub const INTER_ATTEMPT_DELAY_SECS: u64 = 12;

/// The timeout, in seconds, for connecting and for each read and write
/// on the socket during one attempt.
pub const TCP_TIMEOUT_SECS: u64 = 8;

/// The classification of one connect-handshake-read cycle.
#[derive(Debug, PartialEq, Eq)]
pub enum AttemptOutcome {
    /// The peer sent the marker followed by the expecting-status byte.
    Success,
    /// The peer sent the marker followed by the not-expecting-status
    /// byte: still a healthy target.
    SuccessUnexpected,
    /// The peer sent five bytes that match neither healthy reply.
    InvalidResponse,
    /// Connecting, configuring the socket, writing the handshake or
    /// reading the reply failed; the field carries the error text.
    ConnectionFailure(String),
}

/// One observation handed to the controller per attempt: either the
/// outcome of the attempt, or the failure to flush the progress output
/// that precedes it.
#[derive(Debug, PartialEq, Eq)]
pub enum ProbeEvent {
    /// The attempt ran and was classified.
    Outcome(AttemptOutcome),
    /// The progress indicator could not be flushed to the console; a
    /// terminal condition of its own.
    OutputFailure,
}

/// The process exit statuses the probe can decide.
#[derive(Clone, Copy, PartialEq, Eq, Structural, Debug)]
pub enum ExitCode {
    /// The target answered with a healthy reply (either status byte).
    Success,
    /// The address argument was missing or unparsable.
    Usage,
    /// The attempt budget ran out and at least one connection error was
    /// recorded.
    Ping,
    /// The attempt budget ran out with no connection error ever
    /// recorded: an internal-consistency condition, reported distinctly.
    Bug,
    /// The local console output could not be flushed.
    Io,
}

impl ExitCode {
    /// The numeric process exit status of this terminal outcome.
    pub open spec fn spec_code(self) -> i32 {
        match self {
            ExitCode::Success => 0,
            ExitCode::Usage => 1,
            ExitCode::Ping => 2,
            ExitCode::Bug => 3,
            ExitCode::Io => 4,
        }
    }

    /// Returns the numeric process exit status of this terminal outcome.
    pub fn code(self) -> (c: i32)
        ensures
            c == self.spec_code(),
    {
        match self {
            ExitCode::Success => 0,
            ExitCode::Usage => 1,
            ExitCode::Ping => 2,
            ExitCode::Bug => 3,
            ExitCode::Io => 4,
        }
    }
}

/// The retry controller's probing state: how many attempts have
/// completed without a terminal decision, and the most recent
/// connection error, kept only for the final diagnostic.
#[derive(Debug, PartialEq, Eq)]
pub struct Controller {
    /// Attempts completed so far without a terminal decision.
    pub attempts: u32,
    /// The most recently recorded connection error text, if any.
    pub last_error: Option<String>,
}

/// What the caller must do next, as decided by one controller step.
#[derive(Debug, PartialEq, Eq)]
pub enum Directive {
    /// Sleep the inter-attempt delay, then run another attempt with
    /// this state.
    Retry(Controller),
    /// Exit at once with this code; no further waiting.
    Exit(ExitCode),
    /// Sleep the inter-attempt delay once more, report the carried
    /// connection error if there is one, then exit with this code.
    SleepAndExit(ExitCode, Option<String>),
}

/// The exit code owed when the attempt budget is exhausted: the
/// budget-with-error code if a connection error was recorded, else the
/// internal-inconsistency code.
pub open spec fn exhausted_code(last_error: Option<String>) -> ExitCode {
    if last_error is Some {
        ExitCode::Ping
    } else {
        ExitCode::Bug
    }
}

/// The transition rule of the retry state machine, evaluated once per
/// event.
pub open spec fn spec_step(c: Controller, event: ProbeEvent) -> Directive {
    match event {
        ProbeEvent::OutputFailure => Directive::SleepAndExit(ExitCode::Io, None),
        ProbeEvent::Outcome(AttemptOutcome::Success) => Directive::Exit(ExitCode::Success),
        ProbeEvent::Outcome(AttemptOutcome::SuccessUnexpected) => Directive::Exit(
            ExitCode::Success,
        ),
        ProbeEvent::Outcome(AttemptOutcome::InvalidResponse) => {
            if c.attempts + 1 >= MAX_ATTEMPTS {
                Directive::SleepAndExit(exhausted_code(c.last_error), c.last_error)
            } else {
                Directive::Retry(
                    Controller { attempts: (c.attempts + 1) as u32, last_error: c.last_error },
                )
            }
        },
        ProbeEvent::Outcome(AttemptOutcome::ConnectionFailure(e)) => {
            if c.attempts + 1 >= MAX_ATTEMPTS {
                Directive::SleepAndExit(ExitCode::Ping, Some(e))
            } else {
                Directive::Retry(
                    Controller { attempts: (c.attempts + 1) as u32, last_error: Some(e) },
                )
            }
        },
    }
}

impl Controller {
    /// The state before the first attempt: no attempt completed, no
    /// error recorded.
    pub open spec fn initial() -> Controller {
        Controller { attempts: 0, last_error: None }
    }

    /// Returns the state before the first attempt.
    pub fn new() -> (c: Controller)
        ensures
            c == Controller::initial(),
    {
        Controller { attempts: 0, last_error: None }
    }

    /// Consumes one observed event and decides what the caller does
    /// next, exactly as the transition rule [`spec_step`] says.
    pub fn step(self, event: ProbeEvent) -> (d: Directive)
        ensures
            d == spec_step(self, event),
            d matches Directive::Retry(next) ==> next.attempts == self.attempts + 1
                && next.attempts < MAX_ATTEMPTS,
    {
        match event {
            ProbeEvent::OutputFailure => Directive::SleepAndExit(ExitCode::Io, None),
            ProbeEvent::Outcome(AttemptOutcome::Success) => Directive::Exit(ExitCode::Success),
            ProbeEvent::Outcome(AttemptOutcome::SuccessUnexpected) => Directive::Exit(
                ExitCode::Success,
            ),
            ProbeEvent::Outcome(AttemptOutcome::InvalidResponse) => {
                if self.attempts >= MAX_ATTEMPTS - 1 {
                    let code = match &self.last_error {
                        Some(_) => ExitCode::Ping,
                        None => ExitCode::Bug,
                    };
                    Directive::SleepAndExit(code, self.last_error)
                } else {
                    Directive::Retry(
                        Controller { attempts: self.attempts + 1, last_error: self.last_error },
                    )
                }
            },
            ProbeEvent::Outcome(AttemptOutcome::ConnectionFailure(e)) => {
                if self.attempts >= MAX_ATTEMPTS - 1 {
                    Directive::SleepAndExit(ExitCode::Ping, Some(e))
                } else {
                    Directive::Retry(
                        Controller { attempts: self.attempts + 1, last_error: Some(e) },
                    )
                }
            },
        }
    }
}

/// Where a whole run stands: still probing with some state, or
/// terminated with an exit code and the connection error to report, if
/// any.
#[derive(Debug, PartialEq, Eq)]
pub enum RunResult {
    /// A terminal decision was reached: the exit code, and the last
    /// recorded connection error where the budget-exhaustion diagnostic
    /// reports one.
    Terminated(ExitCode, Option<String>),
    /// The supplied events ran out before a terminal decision.
    Pending(Controller),
}

/// A whole run of the retry state machine from state `c` over a
/// sequence of observed events, front to back, stopping at the first
/// terminal directive.
pub open spec fn run(c: Controller, events: Seq<ProbeEvent>) -> RunResult
    decreases events.len(),
{
    if events.len() == 0 {
        RunResult::Pending(c)
    } else {
        match spec_step(c, events[0]) {
            Directive::Retry(next) => run(next, events.subrange(1, events.len() as int)),
            Directive::Exit(code) => RunResult::Terminated(code, None),
            Directive::SleepAndExit(code, err) => RunResult::Terminated(code, err),
        }
    }
}

/// The last connection error recorded after folding the events over an
/// initial record, front to back: each connection failure overwrites
/// the record, every other event leaves it.
pub open spec fn last_error_after(init: Option<String>, events: Seq<ProbeEvent>) -> Option<
    String,
>
    decreases events.len(),
{
    if events.len() == 0 {
        init
    } else {
        let next = match events[0] {
            ProbeEvent::Outcome(AttemptOutcome::ConnectionFailure(e)) => Some(e),
            _ => init,
        };
        last_error_after(next, events.subrange(1, events.len() as int))
    }
}

/// How many events a run from state `c` consumes: one per attempt until
/// the first terminal directive, or all of them if none is reached.
pub open spec fn events_consumed(c: Controller, events: Seq<ProbeEvent>) -> nat
    decreases events.len(),
{
    if events.len() == 0 {
        0
    } else {
        match spec_step(c, events[0]) {
            Directive::Retry(next) => 1 + events_consumed(
                next,
                events.subrange(1, events.len() as int),
            ),
            _ => 1,
        }
    }
}

/// How many inter-attempt delays a run from state `c` sleeps: one per
/// retry and one more before a sleep-and-exit, none before an immediate
/// exit.
pub open spec fn delays_taken(c: Controller, events: Seq<ProbeEvent>) -> nat
    decreases events.len(),
{
    if events.len() == 0 {
        0
    } else {
        match spec_step(c, events[0]) {
            Directive::Retry(next) => 1 + delays_taken(
                next,
                events.subrange(1, events.len() as int),
            ),
            Directive::Exit(_) => 0,
            Directive::SleepAndExit(_, _) => 1,
        }
    }
}

/// Runs the state machine to completion over a sequence of already
/// observed events, front to back: the retry loop with the sockets and
/// the sleeps taken out.
pub fn run_events(events: Vec<ProbeEvent>) -> (r: RunResult)
    ensures
        r == run(Controller::initial(), events@),
{
    let ghost all = events@;
    let mut rest = events;
    let mut c = Controller::new();
    while rest.len() != 0
        invariant
            all == events@,
            run(Controller::initial(), all) == run(c, rest@),
        decreases rest@.len(),
    {
        let ghost before = rest@;
        let ghost state = c;
        let event = rest.remove(0);
        proof {
            assert(rest@ =~= before.subrange(1, before.len() as int));
        }
        match c.step(event) {
            Directive::Retry(next) => {
                c = next;
            },
            Directive::Exit(code) => {
                proof {
                    assert(run(state, before) == RunResult::Terminated(code, None::<String>));
                    assert(run(Controller::initial(), all) == RunResult::Terminated(
                        code,
                        None::<String>,
                    ));
                }
                return RunResult::Terminated(code, None);
            },
            Directive::SleepAndExit(code, err) => {
                proof {
                    assert(run(state, before) == RunResult::Terminated(code, err));
                    assert(run(Controller::initial(), all) == RunResult::Terminated(code, err));
                }
                return RunResult::Terminated(code, err);
            },
        }
    }
    RunResult::Pending(c)
}

/// Whether an event is a connection failure: the only kind of event
/// that updates the recorded last error.
pub open spec fn is_connection_failure(event: ProbeEvent) -> bool {
    event matches ProbeEvent::Outcome(AttemptOutcome::ConnectionFailure(_))
}

/// Whether an event lets the run go on: an invalid response or a
/// connection failure, the two outcomes the controller retries.
pub open spec fn retryable(event: ProbeEvent) -> bool {
    ||| event matches ProbeEvent::Outcome(AttemptOutcome::InvalidResponse)
    ||| is_connection_failure(event)
}

/// Whether any event in the sequence is a connection failure.
pub open spec fn has_connection_failure(events: Seq<ProbeEvent>) -> bool {
    exists|i: int| 0 <= i < events.len() && is_connection_failure(#[trigger] events[i])
}

/// Law: a healthy reply, with either status byte, ends the run at once
/// with the success exit code and nothing to report, whatever state the
/// controller is in: exactly one attempt is consumed and no
/// inter-attempt delay follows it.
pub proof fn lemma_healthy_reply_exits(c: Controller, events: Seq<ProbeEvent>)
    requires
        events.len() > 0,
        events[0] matches ProbeEvent::Outcome(o) && (o is Success || o is SuccessUnexpected),
    ensures
        run(c, events) == RunResult::Terminated(ExitCode::Success, None::<String>),
        events_consumed(c, events) == 1,
        delays_taken(c, events) == 0,
{
}

/// Law: the probe keeps no state between runs. From the initial state
/// the result is a function of the observed events alone, so replaying
/// the same events yields the same result.
pub proof fn lemma_replay_deterministic(first: Seq<ProbeEvent>, second: Seq<ProbeEvent>)
    requires
        first == second,
    ensures
        run(Controller::initial(), first) == run(Controller::initial(), second),
{
}

/// The recorded error ends up `Some` exactly when it started `Some` or
/// some event was a connection failure.
proof fn lemma_last_error_iff_failure(init: Option<String>, events: Seq<ProbeEvent>)
    ensures
        last_error_after(init, events) is Some <==> (init is Some || has_connection_failure(
            events,
        )),
    decreases events.len(),
{
    if events.len() == 0 {
    } else {
        let rest = events.subrange(1, events.len() as int);
        let next = match events[0] {
            ProbeEvent::Outcome(AttemptOutcome::ConnectionFailure(e)) => Some(e),
            _ => init,
        };
        lemma_last_error_iff_failure(next, rest);
        if has_connection_failure(rest) {
            let i = choose|i: int|
                0 <= i < rest.len() && is_connection_failure(#[trigger] rest[i]);
            assert(events[i + 1] == rest[i]);
            assert(has_connection_failure(events));
        }
        if has_connection_failure(events) && !is_connection_failure(events[0]) {
            let i = choose|i: int|
                0 <= i < events.len() && is_connection_failure(#[trigger] events[i]);
            assert(rest[i - 1] == events[i]);
            assert(has_connection_failure(rest));
        }
    }
}

/// When the final event is a connection failure, it is the error left
/// on record.
proof fn lemma_last_error_of_final_failure(
    init: Option<String>,
    events: Seq<ProbeEvent>,
    e: String,
)
    requires
        events.len() > 0,
        events.last() == ProbeEvent::Outcome(AttemptOutcome::ConnectionFailure(e)),
    ensures
        last_error_after(init, events) == Some(e),
    decreases events.len(),
{
    let rest = events.subrange(1, events.len() as int);
    let next = match events[0] {
        ProbeEvent::Outcome(AttemptOutcome::ConnectionFailure(e0)) => Some(e0),
        _ => init,
    };
    if events.len() == 1 {
        assert(events[0] == events.last());
    } else {
        assert(rest.last() == events.last());
        lemma_last_error_of_final_failure(next, rest, e);
    }
}

/// Exhaustion from any mid-run state: when every remaining event up to
/// the budget is retryable, the run terminates on the last of them with
/// the exhaustion code owed to the error record at that point.
proof fn lemma_exhaustion_from(c: Controller, events: Seq<ProbeEvent>)
    requires
        c.attempts < MAX_ATTEMPTS,
        events.len() == MAX_ATTEMPTS - c.attempts,
        forall|i: int| 0 <= i < events.len() ==> retryable(#[trigger] events[i]),
    ensures
        run(c, events) == RunResult::Terminated(
            exhausted_code(last_error_after(c.last_error, events)),
            last_error_after(c.last_error, events),
        ),
    decreases events.len(),
{
    let rest = events.subrange(1, events.len() as int);
    assert(retryable(events[0]));
    assert forall|i: int| 0 <= i < rest.len() implies retryable(#[trigger] rest[i]) by {
        assert(rest[i] == events[i + 1]);
    }
    match events[0] {
        ProbeEvent::Outcome(AttemptOutcome::InvalidResponse) => {
            if c.attempts + 1 >= MAX_ATTEMPTS {
                assert(rest.len() == 0);
                assert(last_error_after(c.last_error, rest) == c.last_error);
                assert(last_error_after(c.last_error, events) == c.last_error);
            } else {
                let next = Controller {
                    attempts: (c.attempts + 1) as u32,
                    last_error: c.last_error,
                };
                lemma_exhaustion_from(next, rest);
            }
        },
        ProbeEvent::Outcome(AttemptOutcome::ConnectionFailure(e)) => {
            if c.attempts + 1 >= MAX_ATTEMPTS {
                assert(rest.len() == 0);
                assert(last_error_after(Some(e), rest) == Some(e));
                assert(last_error_after(c.last_error, events) == Some(e));
            } else {
                let next = Controller {
                    attempts: (c.attempts + 1) as u32,
                    last_error: Some(e),
                };
                lemma_exhaustion_from(next, rest);
            }
        },
        _ => {
            assert(false);
        },
    }
}

/// Law: when a full budget of attempts all fail retryably, the run
/// terminates after exactly the budget of events. The exit code is the
/// budget-with-error code exactly when some attempt was a connection
/// failure, and the internal-inconsistency code when every attempt was
/// an invalid response; the error reported is the last connection error
/// observed, if any.
pub proof fn lemma_budget_exhaustion(events: Seq<ProbeEvent>)
    requires
        events.len() == MAX_ATTEMPTS,
        forall|i: int| 0 <= i < events.len() ==> retryable(#[trigger] events[i]),
    ensures
        run(Controller::initial(), events) == RunResult::Terminated(
            exhausted_code(last_error_after(None, events)),
            last_error_after(None, events),
        ),
        last_error_after(None, events) is Some <==> has_connection_failure(events),
        events_consumed(Controller::initial(), events) == MAX_ATTEMPTS,
{
    lemma_exhaustion_from(Controller::initial(), events);
    lemma_last_error_iff_failure(None, events);
    lemma_consumes_all(Controller::initial(), events);
}

/// A run over nothing but retryable events within the budget consumes
/// every one of them.
proof fn lemma_consumes_all(c: Controller, events: Seq<ProbeEvent>)
    requires
        c.attempts < MAX_ATTEMPTS,
        events.len() == MAX_ATTEMPTS - c.attempts,
        forall|i: int| 0 <= i < events.len() ==> retryable(#[trigger] events[i]),
    ensures
        events_consumed(c, events) == events.len(),
    decreases events.len(),
{
    let rest = events.subrange(1, events.len() as int);
    assert(retryable(events[0]));
    assert forall|i: int| 0 <= i < rest.len() implies retryable(#[trigger] rest[i]) by {
        assert(rest[i] == events[i + 1]);
    }
    match spec_step(c, events[0]) {
        Directive::Retry(next) => {
            lemma_consumes_all(next, rest);
        },
        _ => {},
    }
}

/// Law: a peer that never accepts the connection, so that every attempt
/// in the full budget is a connection failure, leaves the run
/// terminated with the budget-with-error exit code, and the error it
/// reports is the last connection error observed.
pub proof fn lemma_all_failures_exit(events: Seq<ProbeEvent>, e: String)
    requires
        events.len() == MAX_ATTEMPTS,
        forall|i: int| 0 <= i < events.len() ==> is_connection_failure(#[trigger] events[i]),
        events.last() == ProbeEvent::Outcome(AttemptOutcome::ConnectionFailure(e)),
    ensures
        run(Controller::initial(), events) == RunResult::Terminated(ExitCode::Ping, Some(e)),
        events_consumed(Controller::initial(), events) == MAX_ATTEMPTS,
{
    assert forall|i: int| 0 <= i < events.len() implies retryable(#[trigger] events[i]) by {
        assert(is_connection_failure(events[i]));
    }
    lemma_budget_exhaustion(events);
    lemma_last_error_of_final_failure(None, events, e);
}

/// Every run within the budget: at most the remaining budget of events
/// is consumed, at most one delay is slept per consumed event, and a
/// sequence at least as long as the remaining budget always reaches a
/// terminal decision.
proof fn lemma_bounded_run(c: Controller, events: Seq<ProbeEvent>)
    requires
        c.attempts < MAX_ATTEMPTS,
    ensures
        events_consumed(c, events) <= MAX_ATTEMPTS - c.attempts,
        delays_taken(c, events) <= events_consumed(c, events),
        events.len() >= MAX_ATTEMPTS - c.attempts ==> run(c, events) is Terminated,
    decreases events.len(),
{
    if events.len() == 0 {
    } else {
        let rest = events.subrange(1, events.len() as int);
        match spec_step(c, events[0]) {
            Directive::Retry(next) => {
                lemma_bounded_run(next, rest);
            },
            _ => {},
        }
    }
}

/// Law: the worst case is bounded. From the initial state a run
/// consumes at most the attempt budget of events and sleeps at most
/// that many inter-attempt delays before a terminal decision, so the
/// wall-clock time before exit is at most the budget times one
/// attempt's timeouts plus one delay; and a full budget of events
/// always reaches a terminal decision.
pub proof fn lemma_timing_budget(events: Seq<ProbeEvent>)
    ensures
        events_consumed(Controller::initial(), events) <= MAX_ATTEMPTS,
        delays_taken(Controller::initial(), events) <= events_consumed(
            Controller::initial(),
            events,
        ),
        events.len() >= MAX_ATTEMPTS ==> run(Controller::initial(), events) is Terminated,
{
    lemma_bounded_run(Controller::initial(), events);
}

} // verus!
