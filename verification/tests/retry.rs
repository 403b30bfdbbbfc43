use rsdsl_healthping::retry::{
    run_events, AttemptOutcome, Controller, Directive, ExitCode, ProbeEvent, RunResult,
    MAX_ATTEMPTS,
};

fn failure(msg: &str) -> ProbeEvent {
    ProbeEvent::Outcome(AttemptOutcome::ConnectionFailure(msg.to_string()))
}

fn invalid() -> ProbeEvent {
    ProbeEvent::Outcome(AttemptOutcome::InvalidResponse)
}

#[test]
fn exit_codes_match_table() {
    assert_eq!(ExitCode::Success.code(), 0);
    assert_eq!(ExitCode::Usage.code(), 1);
    assert_eq!(ExitCode::Ping.code(), 2);
    assert_eq!(ExitCode::Bug.code(), 3);
    assert_eq!(ExitCode::Io.code(), 4);
}

#[test]
fn new_controller_is_fresh() {
    let c = Controller::new();
    assert_eq!(c.attempts, 0);
    assert_eq!(c.last_error, None);
}

#[test]
fn success_on_first_attempt_exits_zero() {
    let c = Controller::new();
    let d = c.step(ProbeEvent::Outcome(AttemptOutcome::Success));
    assert_eq!(d, Directive::Exit(ExitCode::Success));
    assert_eq!(ExitCode::Success.code(), 0);
}

#[test]
fn unexpected_success_on_first_attempt_exits_zero() {
    let c = Controller::new();
    let d = c.step(ProbeEvent::Outcome(AttemptOutcome::SuccessUnexpected));
    assert_eq!(d, Directive::Exit(ExitCode::Success));
}

#[test]
fn success_after_failures_exits_zero() {
    let mut c = Controller::new();
    for i in 0..5 {
        match c.step(failure(&format!("refused {}", i))) {
            Directive::Retry(next) => c = next,
            other => panic!("expected a retry, got {:?}", other),
        }
    }
    assert_eq!(c.attempts, 5);
    let d = c.step(ProbeEvent::Outcome(AttemptOutcome::Success));
    assert_eq!(d, Directive::Exit(ExitCode::Success));
}

#[test]
fn flush_failure_is_terminal_from_any_state() {
    let fresh = Controller::new();
    assert_eq!(
        fresh.step(ProbeEvent::OutputFailure),
        Directive::SleepAndExit(ExitCode::Io, None)
    );

    let mut c = Controller::new();
    match c.step(failure("refused")) {
        Directive::Retry(next) => c = next,
        other => panic!("expected a retry, got {:?}", other),
    }
    assert_eq!(
        c.step(ProbeEvent::OutputFailure),
        Directive::SleepAndExit(ExitCode::Io, None)
    );
    assert_eq!(ExitCode::Io.code(), 4);
}

#[test]
fn connection_failure_records_last_error() {
    let c = Controller::new();
    match c.step(failure("first")) {
        Directive::Retry(next) => {
            assert_eq!(next.attempts, 1);
            assert_eq!(next.last_error, Some("first".to_string()));
        }
        other => panic!("expected a retry, got {:?}", other),
    }
}

#[test]
fn invalid_response_keeps_last_error() {
    let c = Controller::new();
    let c = match c.step(failure("kept")) {
        Directive::Retry(next) => next,
        other => panic!("expected a retry, got {:?}", other),
    };
    match c.step(invalid()) {
        Directive::Retry(next) => {
            assert_eq!(next.attempts, 2);
            assert_eq!(next.last_error, Some("kept".to_string()));
        }
        other => panic!("expected a retry, got {:?}", other),
    }
}

#[test]
fn thirty_connection_failures_exit_ping_with_last_error() {
    let mut c = Controller::new();
    for i in 0..MAX_ATTEMPTS - 1 {
        match c.step(failure(&format!("refused {}", i))) {
            Directive::Retry(next) => {
                assert_eq!(next.attempts, i + 1);
                c = next;
            }
            other => panic!("expected a retry, got {:?}", other),
        }
    }
    let d = c.step(failure("refused 29"));
    assert_eq!(
        d,
        Directive::SleepAndExit(ExitCode::Ping, Some("refused 29".to_string()))
    );
    assert_eq!(ExitCode::Ping.code(), 2);
}

#[test]
fn thirty_invalid_responses_exit_bug() {
    let mut events = Vec::new();
    for _ in 0..MAX_ATTEMPTS {
        events.push(invalid());
    }
    let result = run_events(events);
    assert_eq!(result, RunResult::Terminated(ExitCode::Bug, None));
    assert_eq!(ExitCode::Bug.code(), 3);
}

#[test]
fn mixed_failures_report_last_connection_error() {
    let mut events = Vec::new();
    for _ in 0..10 {
        events.push(invalid());
    }
    events.push(failure("boom"));
    for _ in 0..(MAX_ATTEMPTS as usize - 11) {
        events.push(invalid());
    }
    assert_eq!(events.len(), MAX_ATTEMPTS as usize);
    let result = run_events(events);
    assert_eq!(
        result,
        RunResult::Terminated(ExitCode::Ping, Some("boom".to_string()))
    );
}

#[test]
fn run_stops_at_first_healthy_reply() {
    let events = vec![
        failure("refused"),
        invalid(),
        ProbeEvent::Outcome(AttemptOutcome::Success),
        failure("never consumed"),
    ];
    let result = run_events(events);
    assert_eq!(result, RunResult::Terminated(ExitCode::Success, None));
}

#[test]
fn run_consumes_at_most_the_budget() {
    let mut events = Vec::new();
    for i in 0..MAX_ATTEMPTS + 5 {
        events.push(failure(&format!("refused {}", i)));
    }
    let result = run_events(events);
    assert_eq!(
        result,
        RunResult::Terminated(ExitCode::Ping, Some(format!("refused {}", MAX_ATTEMPTS - 1)))
    );
}

#[test]
fn run_is_pending_while_events_remain_within_budget() {
    let events = vec![invalid(), invalid(), invalid()];
    match run_events(events) {
        RunResult::Pending(c) => {
            assert_eq!(c.attempts, 3);
            assert_eq!(c.last_error, None);
        }
        other => panic!("expected a pending run, got {:?}", other),
    }
}

#[test]
fn replaying_the_same_events_gives_the_same_result() {
    let healthy = || vec![ProbeEvent::Outcome(AttemptOutcome::Success)];
    let first = run_events(healthy());
    let second = run_events(healthy());
    assert_eq!(first, RunResult::Terminated(ExitCode::Success, None));
    assert_eq!(second, RunResult::Terminated(ExitCode::Success, None));
    assert_eq!(first, second);
}
