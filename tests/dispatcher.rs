use vtg::classify::RunMode;
use vtg::command::{CommandOutcome, DispatchError};
use vtg::dispatch::{confirmation_accepted, Action, Dispatcher, Event};

fn lines(v: &[&str]) -> Vec<String> {
    v.iter().map(|s| s.to_string()).collect()
}

/// Drives a dispatcher, answering every prompt with `answer` and every run
/// with `outcome`; returns the actions in order.
fn drive(list: &[&str], answer: &str, outcome: CommandOutcome) -> Vec<Action> {
    let mut d = Dispatcher::process_fetched_instructions(&lines(list));
    let mut actions = Vec::new();
    let mut event = Event::Ack;
    for _ in 0..1000 {
        let a = d.step(event);
        event = match &a {
            Action::ConfirmRun(_) | Action::Confirm(_) => Event::Answer(answer.to_string()),
            Action::Run(_) => Event::Ran(outcome),
            Action::Query(_) => Event::Queried(outcome, "serial_number: [77]".to_string()),
            _ => Event::Ack,
        };
        let finished = matches!(a, Action::Finished);
        actions.push(a);
        if finished {
            return actions;
        }
    }
    panic!("dispatcher did not finish");
}

fn count(actions: &[Action], f: fn(&Action) -> bool) -> usize {
    actions.iter().filter(|a| f(a)).count()
}

#[test]
fn comment_lines_are_echoed_once_without_prompts() {
    let list = ["## FULL_AUTO ##", "# one", "  # two", "## three ##", "#four"];
    let actions = drive(&list, "y", CommandOutcome::Exited(Some(0)));
    assert_eq!(count(&actions, |a| matches!(a, Action::Echo(_))), 5);
    assert_eq!(count(&actions, |a| matches!(a, Action::Confirm(_))), 0);
    let semi = ["## SEMI_AUTO ##", "# one", "# two", "# three"];
    let actions = drive(&semi, "y", CommandOutcome::Exited(Some(0)));
    assert_eq!(count(&actions, |a| matches!(a, Action::Echo(_))), 4);
    assert_eq!(count(&actions, |a| matches!(a, Action::Confirm(_))), 0);
}

#[test]
fn capture_brackets_the_run() {
    let list = ["## FULL_AUTO ##", "ccc reboot", "wait_s 1"];
    let actions = drive(&list, "y", CommandOutcome::Exited(Some(0)));
    assert!(matches!(actions[0], Action::ConfirmRun(RunMode::FullAuto)));
    assert!(matches!(actions[1], Action::StartCapture));
    let n = actions.len();
    assert!(matches!(actions[n - 2], Action::StopCapture));
    assert!(matches!(actions[n - 1], Action::Finished));
}

#[test]
fn full_auto_runs_without_confirmation_and_announces_each_line() {
    let list = ["## FULL_AUTO ##", "ccc set a 1", "panorama flash"];
    let actions = drive(&list, "y", CommandOutcome::Exited(Some(0)));
    assert_eq!(count(&actions, |a| matches!(a, Action::Confirm(_))), 0);
    assert_eq!(count(&actions, |a| matches!(a, Action::Announce(_))), 2);
    assert_eq!(count(&actions, |a| matches!(a, Action::Run(_))), 2);
    assert_eq!(count(&actions, |a| matches!(a, Action::Completed(_))), 2);
}

#[test]
fn diag_steps_are_confirmed_even_in_full_auto() {
    let list = ["## FULL_AUTO ##", "ccc diag all"];
    let declined = drive(&list, "n", CommandOutcome::Exited(Some(0)));
    assert!(matches!(declined[1], Action::RunDeclined));
    let mut d = Dispatcher::process_fetched_instructions(&lines(&list));
    assert!(matches!(d.step(Event::Ack), Action::ConfirmRun(RunMode::FullAuto)));
    assert!(matches!(d.step(Event::Answer("y\n".to_string())), Action::StartCapture));
    assert!(matches!(d.step(Event::Ack), Action::Echo(_)));
    assert!(matches!(d.step(Event::Ack), Action::Announce(_)));
    assert!(matches!(d.step(Event::Ack), Action::Confirm(_)));
    match d.step(Event::Answer("no".to_string())) {
        Action::Declined(line) => assert_eq!(line, "ccc diag all"),
        other => panic!("unexpected {:?}", other),
    }
    assert!(matches!(d.step(Event::Ack), Action::StopCapture));
}

#[test]
fn semi_auto_needs_an_exact_y() {
    assert!(confirmation_accepted("y"));
    assert!(confirmation_accepted("  y \r\n"));
    assert!(!confirmation_accepted("yes"));
    assert!(!confirmation_accepted("Y"));
    assert!(!confirmation_accepted(""));
    let list = ["## SEMI_AUTO ##", "ccc reboot", "wait_s 2"];
    let mut d = Dispatcher::process_fetched_instructions(&lines(&list));
    d.step(Event::Ack);
    d.step(Event::Answer("y".to_string()));
    assert!(matches!(d.step(Event::Ack), Action::Echo(_)));
    assert!(matches!(d.step(Event::Ack), Action::Announce(_)));
    assert!(matches!(d.step(Event::Ack), Action::Confirm(_)));
    assert!(matches!(d.step(Event::Answer("yes".to_string())), Action::Declined(_)));
    // waiting is not state-changing: no prompt
    assert!(matches!(d.step(Event::Ack), Action::Announce(_)));
    assert!(matches!(d.step(Event::Ack), Action::Sleep(2)));
}

#[test]
fn a_failed_instruction_does_not_stop_the_run() {
    let list = ["## FULL_AUTO ##", "ccc one", "ccc two"];
    let actions = drive(&list, "y", CommandOutcome::Missing);
    let failures: Vec<&Action> =
        actions.iter().filter(|a| matches!(a, Action::Failed(_, _))).collect();
    assert_eq!(failures.len(), 2);
    match failures[0] {
        Action::Failed(line, e) => {
            assert_eq!(line, "ccc one");
            assert_eq!(*e, DispatchError::NotFound);
        }
        _ => unreachable!(),
    }
}

#[test]
fn timed_event_runs_each_cycle_in_the_dispatcher() {
    let list = ["## SEMI_AUTO ##", "event_timed 10 3 ccc get temp"];
    let actions = drive(&list, "y", CommandOutcome::Exited(Some(0)));
    assert_eq!(count(&actions, |a| matches!(a, Action::Run(_))), 4);
    assert_eq!(count(&actions, |a| matches!(a, Action::Sleep(3))), 4);
    let bad = ["## FULL_AUTO ##", "event_timed 2 3 ccc get temp"];
    let actions = drive(&bad, "y", CommandOutcome::Exited(Some(0)));
    assert_eq!(count(&actions, |a| matches!(a, Action::Run(_))), 0);
    assert!(actions
        .iter()
        .any(|a| matches!(a, Action::Failed(_, DispatchError::InvalidArguments))));
}

#[test]
fn factory_init_queries_the_serial_then_runs() {
    let list = ["## FULL_AUTO ##", "factory_init"];
    let actions = drive(&list, "y", CommandOutcome::Exited(Some(0)));
    let runs: Vec<&Action> = actions.iter().filter(|a| matches!(a, Action::Run(_))).collect();
    assert_eq!(runs.len(), 1);
    match runs[0] {
        Action::Run(c) => assert_eq!(c.args[4], "77"),
        _ => unreachable!(),
    }
}

#[test]
fn interactive_lists_run_nothing() {
    let list = ["# just notes", "ccc reboot"];
    let actions = drive(&list, "y", CommandOutcome::Exited(Some(0)));
    assert!(matches!(actions[0], Action::NoDirective));
    assert!(matches!(actions[1], Action::Finished));
}
