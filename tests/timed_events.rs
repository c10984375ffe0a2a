use vtg::command::{CommandOutcome, DispatchError};
use vtg::timed::{event_timed, TimedLoop, TimedStep};

fn run_all(line: &str, fail_at: Option<u32>) -> (u32, u32, TimedStep) {
    let event = event_timed(line).expect("valid timed event");
    let mut lp = TimedLoop::new(&event);
    let mut last = None;
    let mut invocations = 0u32;
    let mut sleeps = 0u32;
    loop {
        match lp.next(last) {
            TimedStep::Sleep(p) => {
                assert_eq!(p, event.period);
                sleeps += 1;
                last = None;
            }
            TimedStep::Invoke => {
                invocations += 1;
                last = Some(if Some(invocations) == fail_at {
                    CommandOutcome::Exited(Some(2))
                } else {
                    CommandOutcome::Exited(Some(0))
                });
            }
            other => return (invocations, sleeps, other),
        }
    }
}

#[test]
fn ten_over_three_runs_four_times() {
    let e = event_timed("event_timed 10 3 ccc get temp").unwrap();
    assert_eq!(e.cycles, 4);
    assert_eq!(e.command_line, "ccc get temp");
    assert_eq!(e.command.program, "./ccc.exe");
    assert_eq!(e.command.args, vec!["get".to_string(), "temp".to_string()]);
    let (runs, sleeps, end) = run_all("event_timed 10 3 ccc get temp", None);
    assert_eq!(runs, 4);
    assert_eq!(sleeps, 4);
    assert_eq!(end, TimedStep::Finished);
}

#[test]
fn nine_over_three_runs_three_times() {
    assert_eq!(event_timed("event_timed 9 3 ccc get temp").unwrap().cycles, 3);
    let (runs, _, end) = run_all("event_timed 9 3 ccc get temp", None);
    assert_eq!(runs, 3);
    assert_eq!(end, TimedStep::Finished);
}

#[test]
fn timeout_below_period_is_a_configuration_error() {
    let r = event_timed("event_timed 2 3 ccc get temp");
    let err = r.err().expect("rejected");
    assert_eq!(err, DispatchError::InvalidArguments);
    assert!(err.is_configuration_error());
}

#[test]
fn malformed_timed_events_are_rejected() {
    for line in [
        "event_timed 10 3",
        "event_timed ten 3 ccc x",
        "event_timed 10 0 ccc x",
        "event_timed 0 0 ccc x",
        "event_timed 10 -3 ccc x",
        "event_timed 4294967296 3 ccc x",
    ] {
        assert_eq!(event_timed(line).err(), Some(DispatchError::InvalidArguments), "{}", line);
    }
}

#[test]
fn equal_timeout_and_period_runs_once() {
    assert_eq!(event_timed("event_timed 5 5 ccc x").unwrap().cycles, 1);
}

#[test]
fn a_failed_run_aborts_the_loop() {
    let (runs, _, end) = run_all("event_timed 10 3 ccc get temp", Some(2));
    assert_eq!(runs, 2);
    assert_eq!(end, TimedStep::Aborted(DispatchError::ExternalCommandFailed(Some(2))));
}

#[test]
fn inner_command_without_symbol_runs_as_written() {
    let e = event_timed("event_timed 6 2 ping   -c 1 host").unwrap();
    assert_eq!(e.cycles, 3);
    assert_eq!(e.command_line, "ping -c 1 host");
    assert_eq!(e.command.program, "ping");
    assert_eq!(e.command.args, vec!["-c".to_string(), "1".to_string(), "host".to_string()]);
}
