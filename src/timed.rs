//! The timed event scheduler: `event_timed <timeout> <period> <command...>`
//! runs the command once per period until the timeout is covered, and gives up
//! at the first failed run.
use vstd::prelude::*;

use crate::command::{
    ccc_command, command_result, outcome_result, spec_is, split_command, CommandOutcome,
    CommandSpec, DispatchError,
};
use crate::command::ccc_command_spec;
use crate::text::{
    chars_of, has_prefix, parse_u32, parse_u32_spec, skip_whitespace, starts_with_at,
    string_from_chars, tokenize, tokens, trim_start, views,
};

verus! {

/// A validated timed event.
#[derive(Debug)]
pub struct TimedEventSpec {
    /// Total duration to cover, in seconds.
    pub timeout: u32,
    /// Seconds between runs; never zero, never more than `timeout`.
    pub period: u32,
    /// Number of runs: the timeout divided by the period, rounded up.
    pub cycles: u32,
    /// The command, as written after the two numbers.
    pub command_line: String,
    /// The program and arguments that each run executes.
    pub command: CommandSpec,
}

/// The least number of whole periods that cover the timeout.
pub open spec fn cycles_for(timeout: int, period: int) -> int {
    timeout / period + if timeout % period > 0 {
        1int
    } else {
        0int
    }
}

/// The words joined with single spaces.
pub open spec fn join_words(w: Seq<Seq<char>>) -> Seq<char>
    decreases w.len(),
{
    if w.len() == 0 {
        Seq::empty()
    } else if w.len() == 1 {
        w[0]
    } else {
        join_words(w.drop_last()) + seq![' '] + w.last()
    }
}

/// The command a timed event runs: a leading `ccc` names the configured
/// executable; otherwise the first token is the program.
pub open spec fn timed_command(text: Seq<char>) -> (Seq<char>, Seq<Seq<char>>) {
    if has_prefix(trim_start(text), "ccc"@) {
        ccc_command(text)
    } else {
        split_command(text, Seq::empty())
    }
}

/// Which timed event a line describes, or why it is rejected.
pub open spec fn timed_event_of(line: Seq<char>) -> Result<(u32, u32, Seq<char>), DispatchError> {
    let t = tokens(line);
    if t.len() < 4 {
        Err(DispatchError::InvalidArguments)
    } else if parse_u32_spec(t[1]) is None || parse_u32_spec(t[2]) is None {
        Err(DispatchError::InvalidArguments)
    } else {
        let timeout = parse_u32_spec(t[1])->0;
        let period = parse_u32_spec(t[2])->0;
        if period == 0 || timeout < period {
            Err(DispatchError::InvalidArguments)
        } else {
            Ok((timeout, period, join_words(t.subrange(3, t.len() as int))))
        }
    }
}

fn join_tokens(t: &Vec<Vec<char>>, from: usize) -> (r: Vec<char>)
    requires
        from < t.len(),
    ensures
        r@ == join_words(views(t@).subrange(from as int, t.len() as int)),
{
    let ghost w = views(t@);
    let mut r: Vec<char> = Vec::new();
    let mut k: usize = 0;
    while k < t[from].len()
        invariant
            from < t.len(),
            k <= t@[from as int].len(),
            r@ == t@[from as int]@.subrange(0, k as int),
        decreases t@[from as int].len() - k,
    {
        r.push(t[from][k]);
        k = k + 1;
        assert(r@ =~= t@[from as int]@.subrange(0, k as int));
    }
    assert(r@ =~= t@[from as int]@);
    assert(w.subrange(from as int, from + 1 as int) =~= seq![w[from as int]]);
    let mut i: usize = from + 1;
    while i < t.len()
        invariant
            from < i <= t.len(),
            w == views(t@),
            r@ == join_words(w.subrange(from as int, i as int)),
        decreases t.len() - i,
    {
        let ghost before = r@;
        r.push(' ');
        let mut k: usize = 0;
        while k < t[i].len()
            invariant
                i < t.len(),
                k <= t@[i as int].len(),
                r@ == before + seq![' '] + t@[i as int]@.subrange(0, k as int),
            decreases t@[i as int].len() - k,
        {
            r.push(t[i][k]);
            k = k + 1;
            assert(r@ =~= before + seq![' '] + t@[i as int]@.subrange(0, k as int));
        }
        assert(t@[i as int]@.subrange(0, k as int) =~= t@[i as int]@);
        assert(w.subrange(from as int, i + 1 as int).drop_last() =~= w.subrange(
            from as int,
            i as int,
        ));
        i = i + 1;
    }
    r
}

/// The command a timed event runs, from its text.
pub(crate) fn timed_command_spec(text: &str) -> (r: CommandSpec)
    ensures
        spec_is(r, timed_command(text@).0, timed_command(text@).1),
{
    let chars = chars_of(text);
    let start = skip_whitespace(&chars);
    if starts_with_at(&chars, start, &chars_of("ccc")) {
        proof {
            reveal_strlit("ccc");
        }
        ccc_command_spec(text)
    } else {
        let toks = tokenize(&chars);
        if toks.len() == 0 {
            return CommandSpec { program: String::new(), args: Vec::new() };
        }
        let program = string_from_chars(&toks[0]);
        let mut args: Vec<String> = Vec::new();
        let mut i: usize = 1;
        while i < toks.len()
            invariant
                1 <= i <= toks.len(),
                args.len() == i - 1,
                forall|j: int| 0 <= j < args.len() ==> #[trigger] args@[j]@ == toks@[j + 1]@,
            decreases toks.len() - i,
        {
            args.push(string_from_chars(&toks[i]));
            i = i + 1;
        }
        assert(views(toks@).drop_first().len() == args.len());
        CommandSpec { program, args }
    }
}

/// Validates a timed event line: at least four tokens, a timeout and a period
/// in seconds, with a period of at least one second and no longer than the
/// timeout. The number of runs is the timeout divided by the period, rounded up.
pub fn event_timed(trimmed_line: &str) -> (r: Result<TimedEventSpec, DispatchError>)
    ensures
        match timed_event_of(trimmed_line@) {
            Ok((timeout, period, text)) => match r {
                Ok(e) => e.timeout == timeout && e.period == period && e.cycles == cycles_for(
                    timeout as int,
                    period as int,
                ) && e.command_line@ == text && spec_is(
                    e.command,
                    timed_command(text).0,
                    timed_command(text).1,
                ),
                Err(_) => false,
            },
            Err(err) => r == Err::<TimedEventSpec, DispatchError>(err),
        },
{
    let chars = chars_of(trimmed_line);
    let toks = tokenize(&chars);
    if toks.len() < 4 {
        return Err(DispatchError::InvalidArguments);
    }
    let timeout = match parse_u32(&toks[1]) {
        Some(v) => v,
        None => {
            return Err(DispatchError::InvalidArguments);
        },
    };
    let period = match parse_u32(&toks[2]) {
        Some(v) => v,
        None => {
            return Err(DispatchError::InvalidArguments);
        },
    };
    if period == 0 || timeout < period {
        return Err(DispatchError::InvalidArguments);
    }
    let mut cycles = timeout / period;
    if timeout % period > 0 {
        assert(period >= 2);
        assert(cycles * 2 <= timeout) by (nonlinear_arith)
            requires
                period >= 2,
                cycles == timeout / period,
        ;
        cycles = cycles + 1;
    }
    let text = join_tokens(&toks, 3);
    let command_line = string_from_chars(&text);
    let command = timed_command_spec(command_line.as_str());
    Ok(TimedEventSpec { timeout, period, cycles, command_line, command })
}

/// The run count covers the timeout, and one run fewer would not.
pub proof fn lemma_cycles_cover_timeout(timeout: int, period: int)
    requires
        0 < period <= timeout,
    ensures
        cycles_for(timeout, period) * period >= timeout,
        (cycles_for(timeout, period) - 1) * period < timeout,
        cycles_for(timeout, period) >= 1,
{
    let q = timeout / period;
    let m = timeout % period;
    assert(timeout == q * period + m && 0 <= m < period) by (nonlinear_arith)
        requires
            0 < period,
            q == timeout / period,
            m == timeout % period,
    ;
    assert(q >= 1) by (nonlinear_arith)
        requires
            0 < period <= timeout,
            q == timeout / period,
    ;
    if m > 0 {
        assert((q + 1) * period == q * period + period) by (nonlinear_arith);
    } else {
        assert(q * period == q * period);
        assert((q - 1) * period == q * period - period) by (nonlinear_arith);
    }
}

/// Where a timed loop stands.
#[derive(Clone, Copy, Debug, PartialEq, Eq, Structural)]
pub enum TimedPhase {
    /// The next step waits one period (or finishes, when every run is done).
    Waiting,
    /// A period has passed; the next step runs the command.
    Due,
    /// A run was handed out; its outcome comes with the next step.
    Awaiting,
    /// Every run succeeded.
    Finished,
    /// A run failed; no further run is made.
    Aborted,
}

/// What the bench does next for a timed event.
#[derive(Clone, Copy, Debug, PartialEq, Eq, Structural)]
pub enum TimedStep {
    /// Wait this many seconds.
    Sleep(u32),
    /// Run the event's command once, in automatic mode, and report its outcome.
    Invoke,
    /// The loop completed.
    Finished,
    /// The loop stopped at a failed run.
    Aborted(DispatchError),
}

/// The state of a timed loop, as the contracts see it.
#[derive(Clone, Copy, Debug, PartialEq, Eq, Structural)]
pub struct TimedModel {
    pub period: u32,
    pub cycles: u32,
    pub issued: u32,
    pub phase: TimedPhase,
    pub failure: Option<DispatchError>,
}

/// Runs so far never exceed the run count; the loop finishes only after every
/// run, and a failure is recorded exactly when it aborted.
pub open spec fn timed_wf(m: TimedModel) -> bool {
    &&& m.issued <= m.cycles
    &&& (m.phase is Due ==> m.issued < m.cycles)
    &&& (m.phase is Finished ==> m.issued == m.cycles)
    &&& (m.phase is Aborted <==> m.failure is Some)
}

pub open spec fn timed_advance(m: TimedModel) -> (TimedModel, TimedStep) {
    if m.issued < m.cycles {
        (TimedModel { phase: TimedPhase::Due, ..m }, TimedStep::Sleep(m.period))
    } else {
        (TimedModel { phase: TimedPhase::Finished, ..m }, TimedStep::Finished)
    }
}

/// One step of a timed loop, given the outcome of the run it last handed out.
pub open spec fn timed_next(m: TimedModel, last: Option<CommandOutcome>) -> (TimedModel, TimedStep) {
    match m.phase {
        TimedPhase::Finished => (m, TimedStep::Finished),
        TimedPhase::Aborted => (m, TimedStep::Aborted(m.failure->0)),
        TimedPhase::Due => (
            TimedModel { phase: TimedPhase::Awaiting, issued: (m.issued + 1) as u32, ..m },
            TimedStep::Invoke,
        ),
        TimedPhase::Waiting => timed_advance(m),
        TimedPhase::Awaiting => match outcome_result(last->0) {
            Err(e) => (
                TimedModel { phase: TimedPhase::Aborted, failure: Some(e), ..m },
                TimedStep::Aborted(e),
            ),
            Ok(_) => timed_advance(TimedModel { phase: TimedPhase::Waiting, ..m }),
        },
    }
}

/// The loop of one timed event.
pub struct TimedLoop {
    period: u32,
    cycles: u32,
    issued: u32,
    phase: TimedPhase,
    failure: Option<DispatchError>,
}

impl View for TimedLoop {
    type V = TimedModel;

    closed spec fn view(&self) -> TimedModel {
        TimedModel {
            period: self.period,
            cycles: self.cycles,
            issued: self.issued,
            phase: self.phase,
            failure: self.failure,
        }
    }
}

impl TimedLoop {
    /// A loop that has run nothing yet.
    pub fn new(event: &TimedEventSpec) -> (r: TimedLoop)
        ensures
            r@ == (TimedModel {
                period: event.period,
                cycles: event.cycles,
                issued: 0,
                phase: TimedPhase::Waiting,
                failure: None,
            }),
            timed_wf(r@),
    {
        TimedLoop {
            period: event.period,
            cycles: event.cycles,
            issued: 0,
            phase: TimedPhase::Waiting,
            failure: None,
        }
    }

    /// Runs handed out so far.
    pub fn invocations(&self) -> (r: u32)
        ensures
            r == self@.issued,
    {
        self.issued
    }

    /// The next step; `last` is the outcome of the run handed out by the
    /// previous step, and is read only then.
    pub fn next(&mut self, last: Option<CommandOutcome>) -> (step: TimedStep)
        requires
            timed_wf(old(self)@),
            old(self)@.phase is Awaiting ==> last is Some,
        ensures
            (final(self)@, step) == timed_next(old(self)@, last),
            timed_wf(final(self)@),
    {
        match self.phase {
            TimedPhase::Finished => TimedStep::Finished,
            TimedPhase::Aborted => match self.failure {
                Some(e) => TimedStep::Aborted(e),
                None => TimedStep::Finished,
            },
            TimedPhase::Due => {
                self.issued = self.issued + 1;
                self.phase = TimedPhase::Awaiting;
                TimedStep::Invoke
            },
            TimedPhase::Waiting => self.advance(),
            TimedPhase::Awaiting => {
                let outcome = match last {
                    Some(o) => o,
                    None => CommandOutcome::SpawnFailed,
                };
                match command_result(outcome) {
                    Err(e) => {
                        self.phase = TimedPhase::Aborted;
                        self.failure = Some(e);
                        TimedStep::Aborted(e)
                    },
                    Ok(_) => {
                        self.phase = TimedPhase::Waiting;
                        self.advance()
                    },
                }
            },
        }
    }

    fn advance(&mut self) -> (step: TimedStep)
        requires
            timed_wf(old(self)@),
            old(self)@.phase is Waiting,
        ensures
            (final(self)@, step) == timed_advance(old(self)@),
            timed_wf(final(self)@),
    {
        if self.issued < self.cycles {
            self.phase = TimedPhase::Due;
            TimedStep::Sleep(self.period)
        } else {
            self.phase = TimedPhase::Finished;
            TimedStep::Finished
        }
    }
}

/// Drives a loop for at most `fuel` steps with every run succeeding: the runs
/// handed out, and whether the loop finished.
pub open spec fn drive_succeeding(m: TimedModel, fuel: nat) -> (nat, bool)
    decreases fuel,
{
    if fuel == 0 {
        (0, false)
    } else {
        let (next, step) = timed_next(m, Some(CommandOutcome::Exited(Some(0i32))));
        if step is Finished {
            (0, true)
        } else if step is Aborted {
            (0, false)
        } else {
            let (k, done) = drive_succeeding(next, (fuel - 1) as nat);
            (k + if step is Invoke {
                1nat
            } else {
                0nat
            }, done)
        }
    }
}

pub open spec fn steps_needed(m: TimedModel) -> nat {
    let left = (m.cycles - m.issued) as nat;
    match m.phase {
        TimedPhase::Due => 2 * left,
        TimedPhase::Finished => 1,
        _ => 2 * left + 1,
    }
}

proof fn lemma_drive_succeeding(m: TimedModel, fuel: nat)
    requires
        timed_wf(m),
        !(m.phase is Aborted),
        fuel >= steps_needed(m),
    ensures
        drive_succeeding(m, fuel) == ((m.cycles - m.issued) as nat, true),
    decreases fuel,
{
    reveal_with_fuel(drive_succeeding, 2);
    let ok = Some(CommandOutcome::Exited(Some(0i32)));
    assert(outcome_result(CommandOutcome::Exited(Some(0i32))) is Ok);
    let (next, step) = timed_next(m, ok);
    if !(step is Finished) {
        assert(timed_wf(next));
        assert(!(next.phase is Aborted));
        assert(fuel - 1 >= steps_needed(next));
        lemma_drive_succeeding(next, (fuel - 1) as nat);
    }
}

/// When every run succeeds, a fresh timed loop hands out exactly its run count
/// of runs, one per period, and then finishes.
pub proof fn lemma_timed_loop_runs_every_cycle(event_loop: TimedModel)
    requires
        timed_wf(event_loop),
        event_loop.issued == 0,
        event_loop.phase is Waiting,
    ensures
        drive_succeeding(event_loop, (2 * event_loop.cycles + 1) as nat) == (event_loop.cycles as nat, true),
{
    lemma_drive_succeeding(event_loop, (2 * event_loop.cycles + 1) as nat);
}

/// A timed event whose timeout is shorter than its period is a configuration
/// error, and no loop is made for it, so its command never runs.
pub proof fn lemma_short_timeout_rejected(line: Seq<char>)
    requires
        tokens(line).len() >= 4,
        parse_u32_spec(tokens(line)[1]) is Some,
        parse_u32_spec(tokens(line)[2]) is Some,
        parse_u32_spec(tokens(line)[1])->0 < parse_u32_spec(tokens(line)[2])->0,
    ensures
        timed_event_of(line) == Err::<(u32, u32, Seq<char>), DispatchError>(
            DispatchError::InvalidArguments,
        ),
{
}

} // verus!
