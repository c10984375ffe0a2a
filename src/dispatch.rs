//! The instruction dispatcher: a state machine that walks a test's instruction
//! list and tells the bench, one action at a time, what to do next. The bench
//! performs each action and hands back what came of it.
use vstd::prelude::*;

use crate::classify::{
    classify_instruction, is_diag, is_diag_line, is_passthrough, is_state_changing, kind_of,
    run_mode_of, select_run_mode, texts, InstructionKind, RunMode,
};
use crate::command::{
    dhcp_argument, generic_action_of, ccc_command, ccc_command_spec, command_result, factory_init, factory_init_args,
    get_ccc_output_integer, generic_runner, outcome_result, panorama_cli_handler,
    panorama_command, serial_query_spec, spec_is, bracketed_integer, CommandOutcome,
    CommandSpec, DispatchError, GenericAction, CCC_PROGRAM,
};
use crate::text::{chars_of, skip_whitespace, trim, trim_start, trimmed_end};
use crate::timed::{
    cycles_for, lemma_cycles_cover_timeout, timed_event_of, event_timed, timed_command, timed_command_spec, timed_next, timed_wf, TimedLoop,
    TimedModel, TimedPhase, TimedStep,
};

verus! {

/// Whether an operator's answer accepts: exactly `y`, apart from surrounding whitespace.
pub open spec fn accepts(answer: Seq<char>) -> bool {
    trim(answer) == "y"@
}

/// Reads an operator's answer.
pub fn confirmation_accepted(answer: &str) -> (r: bool)
    ensures
        r == accepts(answer@),
{
    let chars = chars_of(answer);
    let a = skip_whitespace(&chars);
    let b = trimmed_end(&chars, a);
    proof {
        reveal_strlit("y");
    }
    assert(trim(answer@) == chars@.subrange(a as int, b as int));
    if b > a && b - a == 1 && chars[a] == 'y' {
        assert(chars@.subrange(a as int, b as int) =~= "y"@);
        true
    } else {
        assert(chars@.subrange(a as int, b as int).len() != 1 || chars@.subrange(
            a as int,
            b as int,
        )[0] != 'y');
        false
    }
}

/// Whether a line waits for the operator before it runs: diagnostic `ccc`
/// steps always do; other state-changing lines do unless the list runs fully
/// automatically.
pub open spec fn needs_confirmation(line: Seq<char>, mode: RunMode) -> bool {
    let k = kind_of(line);
    (k is CccInvocation && is_diag(line)) || (is_state_changing(k) && mode != RunMode::FullAuto)
}

/// What the bench is asked to do.
#[derive(Debug)]
pub enum Action {
    /// No directive was found: nothing runs unattended.
    NoDirective,
    /// A directive selected this mode: ask whether to run the list.
    ConfirmRun(RunMode),
    /// The operator declined the run.
    RunDeclined,
    /// Start the capture session (before the first instruction).
    StartCapture,
    /// Pass a comment line through to the transcript.
    Echo(String),
    /// Echo an instruction's text before it is carried out.
    Announce(String),
    /// Ask the operator to confirm this instruction.
    Confirm(String),
    /// The operator skipped this instruction; not an error.
    Declined(String),
    /// Run this program and wait for it; report how it ended.
    Run(CommandSpec),
    /// Run this program, capturing its standard output; report both.
    Query(CommandSpec),
    /// Wait this many seconds, showing progress.
    Sleep(u32),
    /// Wait for the operator to press Enter.
    WaitKeypress,
    /// Start the DHCP lease server in the background.
    StartDhcpServer(Option<String>),
    /// The instruction completed.
    Completed(String),
    /// The instruction failed; the error is logged with its text and the run goes on.
    Failed(String, DispatchError),
    /// Stop the capture session and join its workers (after the last instruction).
    StopCapture,
    /// Nothing more to do.
    Finished,
}

/// What came of the last action.
#[derive(Debug)]
pub enum Event {
    /// The action was carried out; nothing to report.
    Ack,
    /// The operator's answer to a prompt.
    Answer(String),
    /// How a program run ended.
    Ran(CommandOutcome),
    /// How a query ended, and what it printed.
    Queried(CommandOutcome, String),
}

/// Where the dispatcher stands.
#[derive(Clone, Copy, Debug, PartialEq, Eq, Structural)]
pub enum Stage {
    /// The run mode is known; the next step reports it.
    Gate,
    /// Waiting for the answer to `ConfirmRun`.
    AwaitGate,
    /// The next step walks to the next instruction.
    LineStart,
    /// The current instruction was announced and needs confirmation.
    Confirming,
    /// Waiting for the answer to `Confirm`.
    AwaitConfirm,
    /// The current instruction was announced and runs next.
    Execute,
    /// Waiting for the outcome of the current instruction's program.
    AwaitRun,
    /// Waiting for the serial number query of a factory initialisation.
    AwaitSerial,
    /// The current instruction's timed loop is running.
    Timed,
    /// Every action was handed out.
    Done,
}

/// The dispatcher's state, as the contracts see it.
pub struct DispatchModel {
    pub lines: Seq<Seq<char>>,
    pub mode: RunMode,
    pub stage: Stage,
    pub index: int,
}

/// The first line at or after `i` that is not blank.
pub open spec fn next_nonblank(lines: Seq<Seq<char>>, i: int) -> int
    decreases lines.len() - i,
{
    if i >= lines.len() || i < 0 {
        i
    } else if kind_of(lines[i]) is Blank {
        next_nonblank(lines, i + 1)
    } else {
        i
    }
}

/// The stages in which the current instruction is being carried out.
pub open spec fn on_line(s: Stage) -> bool {
    s is Confirming || s is AwaitConfirm || s is Execute || s is AwaitRun || s is AwaitSerial
        || s is Timed
}

pub open spec fn dispatch_wf(m: DispatchModel) -> bool {
    &&& 0 <= m.index <= m.lines.len()
    &&& (on_line(m.stage) ==> m.index < m.lines.len())
    &&& (on_line(m.stage) ==> !is_passthrough(kind_of(m.lines[m.index])) && !(kind_of(
        m.lines[m.index],
    ) is Blank) && !(kind_of(m.lines[m.index]) is Unrecognized))
    &&& (m.stage is Gate || m.stage is AwaitGate ==> m.index == 0)
    &&& (m.stage is AwaitGate ==> m.mode != RunMode::Interactive)
}

/// Whether the event is an answer that accepts.
pub open spec fn event_accepts(e: Event) -> bool {
    e matches Event::Answer(s) && accepts(s@)
}

/// The outcome an event reports; any other event counts as a failed start.
pub open spec fn event_outcome(e: Event) -> CommandOutcome {
    match e {
        Event::Ran(o) => o,
        Event::Queried(o, _) => o,
        _ => CommandOutcome::SpawnFailed,
    }
}

/// What a query printed, if the event reports one.
pub open spec fn event_output(e: Event) -> Seq<char> {
    match e {
        Event::Queried(_, p) => p@,
        _ => Seq::empty(),
    }
}

/// The dispatcher stays on its current instruction, in stage `stage`.
pub open spec fn stays(m: DispatchModel, n: DispatchModel, stage: Stage) -> bool {
    n == DispatchModel { stage, ..m }
}

/// The dispatcher leaves its current instruction for the next one.
pub open spec fn moves_on(m: DispatchModel, n: DispatchModel) -> bool {
    n == DispatchModel { stage: Stage::LineStart, index: m.index + 1, ..m }
}

pub open spec fn is_failed(r: Action, line: Seq<char>, e: DispatchError) -> bool {
    r matches Action::Failed(t, e2) && t@ == line && e2 == e
}

pub open spec fn is_completed(r: Action, line: Seq<char>) -> bool {
    r matches Action::Completed(t) && t@ == line
}

/// What carrying out the current instruction does first.
pub open spec fn executes(m: DispatchModel, n: DispatchModel, r: Action) -> bool {
    let line = m.lines[m.index];
    let k = kind_of(line);
    if k is CccInvocation {
        stays(m, n, Stage::AwaitRun) && (r matches Action::Run(c) && spec_is(
            c,
            ccc_command(line).0,
            ccc_command(line).1,
        ))
    } else if k is PanoramaInvocation {
        stays(m, n, Stage::AwaitRun) && (r matches Action::Run(c) && spec_is(
            c,
            panorama_command(line).0,
            panorama_command(line).1,
        ))
    } else if k is FactoryInit {
        stays(m, n, Stage::AwaitSerial) && (r matches Action::Query(c) && spec_is(
            c,
            CCC_PROGRAM@,
            seq!["get"@, "serial_number"@],
        ))
    } else if k is TimedEvent {
        match timed_event_of(line) {
            Err(e) => moves_on(m, n) && is_failed(r, line, e),
            Ok((_, period, _)) => stays(m, n, Stage::Timed) && (r matches Action::Sleep(p) && p
                == period),
        }
    } else {
        moves_on(m, n) && match generic_action_of(line) {
            Err(e) => is_failed(r, line, e),
            Ok(GenericAction::Sleep(secs)) => r matches Action::Sleep(p) && p == secs,
            Ok(GenericAction::WaitKeypress) => r is WaitKeypress,
            Ok(GenericAction::StartDhcpServer(_)) => r matches Action::StartDhcpServer(arg) && match dhcp_argument(line) {
                Some(a) => arg is Some && arg->0@ == a,
                None => arg is None,
            },
            Ok(GenericAction::Nothing) => is_completed(r, line),
        }
    }
}

/// What walking to the next instruction does.
pub open spec fn begins_line(m: DispatchModel, n: DispatchModel, r: Action) -> bool {
    let j = next_nonblank(m.lines, m.index);
    let at_j = DispatchModel { index: j, ..m };
    if j >= m.lines.len() {
        r is StopCapture && n == DispatchModel { stage: Stage::Done, index: j, ..m }
    } else {
        let line = m.lines[j];
        let k = kind_of(line);
        if is_passthrough(k) {
            (r matches Action::Echo(t) && t@ == line) && moves_on(at_j, n)
        } else if k is Unrecognized {
            (r matches Action::Announce(t) && t@ == line) && moves_on(at_j, n)
        } else {
            (r matches Action::Announce(t) && t@ == line) && stays(
                at_j,
                n,
                if needs_confirmation(line, m.mode) {
                    Stage::Confirming
                } else {
                    Stage::Execute
                },
            )
        }
    }
}

/// One step of the current instruction's timed loop, given the outcome of the
/// run it last handed out.
pub open spec fn timed_steps(
    m: DispatchModel,
    n: DispatchModel,
    loop_before: TimedModel,
    loop_after: Option<TimedModel>,
    text_before: Seq<char>,
    text_after: Seq<char>,
    o: CommandOutcome,
    r: Action,
) -> bool {
    let line = m.lines[m.index];
    let (next, step) = timed_next(loop_before, Some(o));
    match step {
        TimedStep::Sleep(p) => (r matches Action::Sleep(q) && q == p) && stays(m, n, Stage::Timed)
            && loop_after == Some(next) && text_after == text_before,
        TimedStep::Invoke => (r matches Action::Run(c) && spec_is(
            c,
            timed_command(text_before).0,
            timed_command(text_before).1,
        )) && stays(m, n, Stage::Timed) && loop_after == Some(next) && text_after == text_before,
        TimedStep::Finished => is_completed(r, line) && moves_on(m, n),
        TimedStep::Aborted(e) => is_failed(r, line, e) && moves_on(m, n),
    }
}

/// What a program's outcome does to the current instruction.
pub open spec fn concludes(m: DispatchModel, n: DispatchModel, r: Action, o: CommandOutcome) -> bool {
    let line = m.lines[m.index];
    moves_on(m, n) && match outcome_result(o) {
        Ok(_) => is_completed(r, line),
        Err(e) => is_failed(r, line, e),
    }
}

/// Whether an instruction kind changes the state of the device or the bench.
pub fn state_changing(k: InstructionKind) -> (r: bool)
    ensures
        r == is_state_changing(k),
{
    match k {
        InstructionKind::CccInvocation => true,
        InstructionKind::TimedEvent => true,
        InstructionKind::FactoryInit => true,
        InstructionKind::PanoramaInvocation => true,
        InstructionKind::DhcpControl => true,
        _ => false,
    }
}

/// Walks a test's instruction list.
pub struct Dispatcher {
    lines: Vec<String>,
    mode: RunMode,
    stage: Stage,
    index: usize,
    timed: Option<TimedLoop>,
    timed_command: String,
}

impl View for Dispatcher {
    type V = DispatchModel;

    closed spec fn view(&self) -> DispatchModel {
        DispatchModel {
            lines: texts(self.lines@),
            mode: self.mode,
            stage: self.stage,
            index: self.index as int,
        }
    }
}

impl Dispatcher {
    /// The timed loop of the current instruction, if one runs.
    pub closed spec fn timed_model(&self) -> Option<TimedModel> {
        match self.timed {
            Some(l) => Some(l@),
            None => None,
        }
    }

    /// The command text of the current timed loop.
    pub closed spec fn timed_text(&self) -> Seq<char> {
        self.timed_command@
    }

    pub closed spec fn inv(&self) -> bool {
        &&& dispatch_wf(self@)
        &&& (self.stage is Timed <==> self.timed is Some)
        &&& (self.timed is Some ==> timed_wf(self.timed->0@))
        &&& (self.timed is Some ==> !(self.timed->0@.phase is Finished) && !(
        self.timed->0@.phase is Aborted))
    }

    /// A dispatcher for a test's instruction list; the first directive line
    /// decides the run mode.
    pub fn process_fetched_instructions(instructions: &Vec<String>) -> (r: Dispatcher)
        ensures
            r.inv(),
            r@.lines == texts(instructions@),
            r@.mode == run_mode_of(texts(instructions@)),
            r@.stage == Stage::Gate,
            r@.index == 0,
    {
        let mode = select_run_mode(instructions);
        let mut lines: Vec<String> = Vec::new();
        let mut i: usize = 0;
        while i < instructions.len()
            invariant
                i <= instructions.len(),
                lines.len() == i,
                forall|j: int| 0 <= j < i ==> #[trigger] lines@[j] == instructions@[j],
            decreases instructions.len() - i,
        {
            lines.push(instructions[i].clone());
            i = i + 1;
        }
        assert(texts(lines@) =~= texts(instructions@));
        Dispatcher {
            lines,
            mode,
            stage: Stage::Gate,
            index: 0,
            timed: None,
            timed_command: String::new(),
        }
    }

    /// The run mode.
    pub fn mode(&self) -> (r: RunMode)
        ensures
            r == self@.mode,
    {
        self.mode
    }

    /// Whether every action was handed out.
    pub fn is_done(&self) -> (r: bool)
        ensures
            r == (self@.stage is Done),
    {
        self.stage == Stage::Done
    }

    fn current_line(&self) -> (r: String)
        requires
            self.index < self.lines.len(),
        ensures
            r@ == self@.lines[self@.index],
    {
        self.lines[self.index].clone()
    }

    /// Leaves the current instruction.
    fn next_line(&mut self)
        requires
            old(self).index < old(self).lines.len(),
            old(self).timed is None,
            dispatch_wf(old(self)@),
        ensures
            final(self)@ == (DispatchModel {
                stage: Stage::LineStart,
                index: old(self)@.index + 1,
                ..old(self)@
            }),
            final(self).timed is None,
            final(self).inv(),
    {
        self.index = self.index + 1;
        self.stage = Stage::LineStart;
    }

    /// The next action, given what came of the previous one (`Event::Ack`
    /// when there is nothing to report).
    ///
    /// Without a directive nothing runs. With one, the operator first accepts
    /// the run; the capture starts before the first instruction and stops
    /// after the last. Comment and directive lines are only echoed. Every
    /// other instruction is announced first; state-changing ones wait for an
    /// exact `y` unless the list runs fully automatically, and diagnostic
    /// `ccc` steps always do. A failed instruction is reported with its text
    /// and the walk goes on with the next one.
    pub fn step(&mut self, event: Event) -> (r: Action)
        requires
            old(self).inv(),
        ensures
            final(self).inv(),
            final(self)@.lines == old(self)@.lines,
            final(self)@.mode == old(self)@.mode,
            old(self)@.stage is Done ==> r is Finished && final(self)@ == old(self)@,
            old(self)@.stage is Gate ==> if old(self)@.mode == RunMode::Interactive {
                r is NoDirective && final(self)@ == DispatchModel {
                    stage: Stage::Done,
                    ..old(self)@
                }
            } else {
                (r matches Action::ConfirmRun(md) && md == old(self)@.mode) && final(self)@
                    == DispatchModel { stage: Stage::AwaitGate, ..old(self)@ }
            },
            old(self)@.stage is AwaitGate ==> if event_accepts(event) {
                r is StartCapture && final(self)@ == DispatchModel {
                    stage: Stage::LineStart,
                    ..old(self)@
                }
            } else {
                r is RunDeclined && final(self)@ == DispatchModel {
                    stage: Stage::Done,
                    ..old(self)@
                }
            },
            old(self)@.stage is LineStart ==> begins_line(old(self)@, final(self)@, r),
            old(self)@.stage is Confirming ==> (r matches Action::Confirm(t) && t@ == old(
                self,
            )@.lines[old(self)@.index]) && stays(old(self)@, final(self)@, Stage::AwaitConfirm),
            old(self)@.stage is AwaitConfirm ==> if event_accepts(event) {
                executes(old(self)@, final(self)@, r)
            } else {
                (r matches Action::Declined(t) && t@ == old(self)@.lines[old(self)@.index])
                    && moves_on(old(self)@, final(self)@)
            },
            old(self)@.stage is Execute ==> executes(old(self)@, final(self)@, r),
            old(self)@.stage is AwaitRun ==> concludes(
                old(self)@,
                final(self)@,
                r,
                event_outcome(event),
            ),
            old(self)@.stage is AwaitSerial ==> {
                let line = old(self)@.lines[old(self)@.index];
                match outcome_result(event_outcome(event)) {
                    Err(e) => is_failed(r, line, e) && moves_on(old(self)@, final(self)@),
                    Ok(_) => match bracketed_integer(event_output(event)) {
                        None => is_failed(r, line, DispatchError::MalformedOutput) && moves_on(
                            old(self)@,
                            final(self)@,
                        ),
                        Some(serial) => (r matches Action::Run(c) && spec_is(
                            c,
                            CCC_PROGRAM@,
                            factory_init_args(serial),
                        )) && stays(old(self)@, final(self)@, Stage::AwaitRun),
                    },
                }
            },
            old(self)@.stage is Timed ==> timed_steps(
                old(self)@,
                final(self)@,
                old(self).timed_model()->0,
                final(self).timed_model(),
                old(self).timed_text(),
                final(self).timed_text(),
                event_outcome(event),
                r,
            ),
    {
        match self.stage {
            Stage::Done => Action::Finished,
            Stage::Gate => {
                if self.mode == RunMode::Interactive {
                    self.stage = Stage::Done;
                    Action::NoDirective
                } else {
                    self.stage = Stage::AwaitGate;
                    Action::ConfirmRun(self.mode)
                }
            },
            Stage::AwaitGate => {
                let accepted = match &event {
                    Event::Answer(s) => confirmation_accepted(s.as_str()),
                    _ => false,
                };
                if accepted {
                    self.stage = Stage::LineStart;
                    Action::StartCapture
                } else {
                    self.stage = Stage::Done;
                    Action::RunDeclined
                }
            },
            Stage::LineStart => self.begin_line(),
            Stage::Confirming => {
                self.stage = Stage::AwaitConfirm;
                Action::Confirm(self.current_line())
            },
            Stage::AwaitConfirm => {
                let accepted = match &event {
                    Event::Answer(s) => confirmation_accepted(s.as_str()),
                    _ => false,
                };
                if accepted {
                    self.execute()
                } else {
                    let line = self.current_line();
                    self.next_line();
                    Action::Declined(line)
                }
            },
            Stage::Execute => self.execute(),
            Stage::AwaitRun => {
                let outcome = match event {
                    Event::Ran(o) => o,
                    Event::Queried(o, _) => o,
                    _ => CommandOutcome::SpawnFailed,
                };
                let line = self.current_line();
                self.next_line();
                match command_result(outcome) {
                    Ok(_) => Action::Completed(line),
                    Err(e) => Action::Failed(line, e),
                }
            },
            Stage::AwaitSerial => {
                let (outcome, printed) = match event {
                    Event::Queried(o, p) => (o, p),
                    Event::Ran(o) => (o, String::new()),
                    _ => (CommandOutcome::SpawnFailed, String::new()),
                };
                match command_result(outcome) {
                    Err(e) => {
                        let line = self.current_line();
                        self.next_line();
                        Action::Failed(line, e)
                    },
                    Ok(_) => match get_ccc_output_integer(printed.as_str()) {
                        Err(e) => {
                            let line = self.current_line();
                            self.next_line();
                            Action::Failed(line, e)
                        },
                        Ok(serial) => {
                            self.stage = Stage::AwaitRun;
                            Action::Run(factory_init(serial))
                        },
                    },
                }
            },
            Stage::Timed => {
                let last = match event {
                    Event::Ran(o) => o,
                    Event::Queried(o, _) => o,
                    _ => CommandOutcome::SpawnFailed,
                };
                self.timed_step(Some(last))
            },
        }
    }

    fn begin_line(&mut self) -> (r: Action)
        requires
            old(self).inv(),
            old(self)@.stage is LineStart,
        ensures
            final(self).inv(),
            begins_line(old(self)@, final(self)@, r),
            final(self).timed is None,
            final(self)@.lines == old(self)@.lines,
            final(self)@.mode == old(self)@.mode,
    {
        let ghost lines = self@.lines;
        while self.index < self.lines.len() && classify_instruction(
            self.lines[self.index].as_str(),
        ) == InstructionKind::Blank
            invariant
                self.inv(),
                self@.stage is LineStart,
                self@.lines == lines,
                self@.mode == old(self)@.mode,
                next_nonblank(lines, old(self)@.index) == next_nonblank(lines, self@.index),
            decreases self.lines.len() - self.index,
        {
            self.index = self.index + 1;
        }
        if self.index == self.lines.len() {
            self.stage = Stage::Done;
            return Action::StopCapture;
        }
        let line = self.current_line();
        let kind = classify_instruction(line.as_str());
        match kind {
            InstructionKind::Comment | InstructionKind::DirectiveMarker(_) => {
                self.next_line();
                Action::Echo(line)
            },
            InstructionKind::Unrecognized => {
                self.next_line();
                Action::Announce(line)
            },
            _ => {
                let diag = is_diag_line(line.as_str());
                let confirm = (kind == InstructionKind::CccInvocation && diag) || (
                state_changing(kind) && self.mode != RunMode::FullAuto);
                if confirm {
                    self.stage = Stage::Confirming;
                } else {
                    self.stage = Stage::Execute;
                }
                Action::Announce(line)
            },
        }
    }

    fn execute(&mut self) -> (r: Action)
        requires
            old(self).inv(),
            on_line(old(self)@.stage),
            old(self).timed is None,
        ensures
            final(self).inv(),
            executes(old(self)@, final(self)@, r),
            final(self)@.stage is Timed ==> ({
                let (timeout, period, text) = timed_event_of(old(self)@.lines[old(self)@.index])->Ok_0;
                &&& final(self).timed_model() == Some(
                    TimedModel {
                        period,
                        cycles: cycles_for(timeout as int, period as int) as u32,
                        issued: 0,
                        phase: TimedPhase::Due,
                        failure: None,
                    },
                )
                &&& final(self).timed_text() == text
            }),
            final(self)@.lines == old(self)@.lines,
            final(self)@.mode == old(self)@.mode,
    {
        let line = self.current_line();
        let kind = classify_instruction(line.as_str());
        match kind {
            InstructionKind::CccInvocation => {
                proof {
                    reveal_strlit("ccc");
                }
                self.stage = Stage::AwaitRun;
                Action::Run(ccc_command_spec(line.as_str()))
            },
            InstructionKind::PanoramaInvocation => {
                proof {
                    reveal_strlit("panorama");
                }
                self.stage = Stage::AwaitRun;
                Action::Run(panorama_cli_handler(line.as_str()))
            },
            InstructionKind::FactoryInit => {
                self.stage = Stage::AwaitSerial;
                Action::Query(serial_query_spec())
            },
            InstructionKind::TimedEvent => {
                match event_timed(line.as_str()) {
                    Err(e) => {
                        self.next_line();
                        Action::Failed(line, e)
                    },
                    Ok(event) => {
                        proof {
                            lemma_cycles_cover_timeout(event.timeout as int, event.period as int);
                        }
                        let mut lp = TimedLoop::new(&event);
                        let first = lp.next(None);
                        self.timed = Some(lp);
                        self.timed_command = event.command_line;
                        self.stage = Stage::Timed;
                        match first {
                            TimedStep::Sleep(p) => Action::Sleep(p),
                            _ => Action::Finished,
                        }
                    },
                }
            },
            _ => {
                match generic_runner(line.as_str()) {
                    Err(e) => {
                        self.next_line();
                        Action::Failed(line, e)
                    },
                    Ok(GenericAction::Sleep(n)) => {
                        self.next_line();
                        Action::Sleep(n)
                    },
                    Ok(GenericAction::WaitKeypress) => {
                        self.next_line();
                        Action::WaitKeypress
                    },
                    Ok(GenericAction::StartDhcpServer(arg)) => {
                        self.next_line();
                        Action::StartDhcpServer(arg)
                    },
                    Ok(GenericAction::Nothing) => {
                        self.next_line();
                        Action::Completed(line)
                    },
                }
            },
        }
    }

    fn timed_step(&mut self, last: Option<CommandOutcome>) -> (r: Action)
        requires
            old(self).inv(),
            old(self)@.stage is Timed,
            last is Some,
        ensures
            final(self).inv(),
            timed_steps(old(self)@, final(self)@, old(self).timed_model()->0, final(self).timed_model(), old(self).timed_text(), final(self).timed_text(), last->0, r),
            final(self)@.lines == old(self)@.lines,
            final(self)@.mode == old(self)@.mode,
    {
        let mut lp = match self.timed.take() {
            Some(l) => l,
            None => {
                return Action::Finished;
            },
        };
        let step = lp.next(last);
        match step {
            TimedStep::Sleep(p) => {
                self.timed = Some(lp);
                Action::Sleep(p)
            },
            TimedStep::Invoke => {
                self.timed = Some(lp);
                Action::Run(timed_command_spec(self.timed_command.as_str()))
            },
            TimedStep::Finished => {
                let line = self.current_line();
                self.next_line();
                Action::Completed(line)
            },
            TimedStep::Aborted(e) => {
                let line = self.current_line();
                self.next_line();
                Action::Failed(line, e)
            },
        }
    }
}

/// A line holding only a comment: its first non-blank character is `#`.
pub open spec fn is_comment_line(line: Seq<char>) -> bool {
    trim_start(line).len() > 0 && trim_start(line)[0] == '#'
}

/// In a list of comment lines, every line is the next one to walk to, is
/// only echoed, and never waits for the operator, whatever the run mode: the
/// walk echoes each line once and prompts for none.
pub proof fn lemma_comment_lines_only_echo(lines: Seq<Seq<char>>, mode: RunMode)
    requires
        forall|i: int| 0 <= i < lines.len() ==> is_comment_line(#[trigger] lines[i]),
    ensures
        forall|i: int|
            0 <= i < lines.len() ==> next_nonblank(lines, i) == i && is_passthrough(
                kind_of(#[trigger] lines[i]),
            ) && !needs_confirmation(lines[i], mode),
        next_nonblank(lines, lines.len() as int) == lines.len(),
{
    assert forall|i: int| 0 <= i < lines.len() implies next_nonblank(lines, i) == i
        && is_passthrough(kind_of(#[trigger] lines[i])) && !needs_confirmation(lines[i], mode) by {
        assert(is_comment_line(lines[i]));
        let k = kind_of(lines[i]);
        assert(!(k is Blank));
        assert(k is Comment || k is DirectiveMarker);
    }
}

} // verus!
