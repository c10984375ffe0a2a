//! The automation classifier: directive markers, run mode selection and the
//! kind of each instruction line.
use vstd::prelude::*;

use crate::text::{
    chars_of, contains, contains_chars, has_prefix, skip_whitespace, starts_with_at, tokenize,
    tokens, trim_start, views,
};

verus! {

/// How a test's instruction list is run.
#[derive(Clone, Copy, Debug, PartialEq, Eq, Structural)]
pub enum RunMode {
    /// No directive: nothing runs unattended.
    Interactive,
    /// Each state-changing instruction waits for the operator's confirmation.
    SemiAuto,
    /// Instructions run without confirmation (diagnostics excepted).
    FullAuto,
}

/// What an instruction line asks for.
#[derive(Clone, Copy, Debug, PartialEq, Eq, Structural)]
pub enum InstructionKind {
    Blank,
    Comment,
    DirectiveMarker(RunMode),
    CccInvocation,
    TimedEvent,
    FactoryInit,
    PanoramaInvocation,
    DhcpControl,
    GenericWait,
    GenericKeypress,
    Unrecognized,
}

pub open spec fn marker_word() -> Seq<char> {
    "##"@
}

/// The tokens of a line, less the `##` marker tokens.
pub open spec fn without_markers(t: Seq<Seq<char>>) -> Seq<Seq<char>>
    decreases t.len(),
{
    if t.len() == 0 {
        t
    } else {
        let rest = without_markers(t.drop_last());
        if t.last() == marker_word() {
            rest
        } else {
            rest.push(t.last())
        }
    }
}

/// The run mode that a line selects: the line must consist of exactly one
/// reserved keyword, apart from `##` marker tokens.
pub open spec fn directive_of(line: Seq<char>) -> Option<RunMode> {
    let fields = without_markers(tokens(line));
    if fields.len() == 1 && fields[0] == "SEMI_AUTO"@ {
        Some(RunMode::SemiAuto)
    } else if fields.len() == 1 && fields[0] == "FULL_AUTO"@ {
        Some(RunMode::FullAuto)
    } else {
        None
    }
}

/// The mode of the first directive line, if any.
pub open spec fn first_directive(lines: Seq<Seq<char>>) -> Option<RunMode>
    decreases lines.len(),
{
    if lines.len() == 0 {
        None
    } else {
        match directive_of(lines[0]) {
            Some(m) => Some(m),
            None => first_directive(lines.drop_first()),
        }
    }
}

pub open spec fn run_mode_of(lines: Seq<Seq<char>>) -> RunMode {
    match first_directive(lines) {
        Some(m) => m,
        None => RunMode::Interactive,
    }
}

pub open spec fn texts(lines: Seq<String>) -> Seq<Seq<char>> {
    lines.map_values(|s: String| s@)
}

pub open spec fn first_word(line: Seq<char>) -> Seq<char> {
    let t = tokens(line);
    if t.len() > 0 {
        t[0]
    } else {
        Seq::empty()
    }
}

/// The kind of an instruction line.
pub open spec fn kind_of(line: Seq<char>) -> InstructionKind {
    let t = trim_start(line);
    if t.len() == 0 {
        InstructionKind::Blank
    } else if directive_of(line) is Some {
        InstructionKind::DirectiveMarker(directive_of(line)->0)
    } else if t[0] == '#' {
        InstructionKind::Comment
    } else if has_prefix(t, "ccc"@) {
        InstructionKind::CccInvocation
    } else if has_prefix(t, "event_timed"@) {
        InstructionKind::TimedEvent
    } else if has_prefix(t, "factory_init"@) {
        InstructionKind::FactoryInit
    } else if has_prefix(t, "panorama"@) {
        InstructionKind::PanoramaInvocation
    } else if first_word(line) == "wait_s"@ {
        InstructionKind::GenericWait
    } else if first_word(line) == "wait_e"@ {
        InstructionKind::GenericKeypress
    } else if first_word(line) == "dhcp_server"@ {
        InstructionKind::DhcpControl
    } else {
        InstructionKind::Unrecognized
    }
}

/// Lines that are only passed through to the transcript.
pub open spec fn is_passthrough(k: InstructionKind) -> bool {
    k is Comment || k is DirectiveMarker
}

/// Lines that change the state of the device or the bench.
pub open spec fn is_state_changing(k: InstructionKind) -> bool {
    k is CccInvocation || k is TimedEvent || k is FactoryInit || k is PanoramaInvocation
        || k is DhcpControl
}

/// A line naming a diagnostic step, which the operator always confirms.
pub open spec fn is_diag(line: Seq<char>) -> bool {
    contains(line, "diag"@)
}

/// Whether two character sequences are equal.
pub fn same_chars(a: &Vec<char>, b: &Vec<char>) -> (r: bool)
    ensures
        r == (a@ == b@),
{
    if a.len() != b.len() {
        return false;
    }
    let r = starts_with_at(a, 0, b);
    assert(a@.subrange(0, a.len() as int) =~= a@);
    assert(a@.subrange(0, 0 + a.len() as int).subrange(0, b.len() as int) =~= a@);
    r
}

/// Whether a token is the literal word `w`.
pub fn is_word(t: &Vec<char>, w: &str) -> (r: bool)
    ensures
        r == (t@ == w@),
{
    let wc = chars_of(w);
    same_chars(t, &wc)
}

/// Which run mode a directive line selects, if it is one: a line that holds
/// `SEMI_AUTO` or `FULL_AUTO` as its only token besides `##` markers.
/// A keyword inside other text selects nothing.
pub fn check_for_auto_commands(line: &str) -> (r: Option<RunMode>)
    ensures
        r == directive_of(line@),
{
    let chars = chars_of(line);
    let toks = tokenize(&chars);
    let ghost all = views(toks@);
    let mut i: usize = 0;
    let mut kept: usize = 0;
    let mut only: usize = 0;
    while i < toks.len()
        invariant
            i <= toks.len(),
            all == views(toks@),
            kept == (if without_markers(all.subrange(0, i as int)).len() < 2 {
                without_markers(all.subrange(0, i as int)).len()
            } else {
                2
            }),
            kept >= 1 ==> only < i,
            kept >= 1 ==> without_markers(all.subrange(0, i as int))[0] == toks@[only as int]@,
        decreases toks.len() - i,
    {
        assert(all.subrange(0, i + 1 as int).drop_last() =~= all.subrange(0, i as int));
        if !is_word(&toks[i], "##") {
            if kept == 0 {
                only = i;
            }
            if kept < 2 {
                kept = kept + 1;
            }
        }
        proof {
            let w = without_markers(all.subrange(0, i + 1 as int));
            let v = without_markers(all.subrange(0, i as int));
            assert(all[i as int] == toks@[i as int]@);
            if toks@[i as int]@ != marker_word() {
                assert(w == v.push(all[i as int]));
                if v.len() >= 1 {
                    assert(w[0] == v[0]);
                }
            } else {
                assert(w == v);
            }
        }
        i = i + 1;
    }
    assert(all.subrange(0, toks.len() as int) =~= all);
    if kept != 1 {
        return None;
    }
    let word = &toks[only];
    if is_word(word, "SEMI_AUTO") {
        Some(RunMode::SemiAuto)
    } else if is_word(word, "FULL_AUTO") {
        Some(RunMode::FullAuto)
    } else {
        None
    }
}

/// The run mode of an instruction list: the first directive line governs the
/// whole list; with none, the list is run interactively.
pub fn select_run_mode(lines: &Vec<String>) -> (r: RunMode)
    ensures
        r == run_mode_of(texts(lines@)),
{
    let ghost all = texts(lines@);
    let mut i: usize = 0;
    assert(all.subrange(0, all.len() as int) =~= all);
    while i < lines.len()
        invariant
            i <= lines.len(),
            all == texts(lines@),
            first_directive(all) == first_directive(all.subrange(i as int, all.len() as int)),
        decreases lines.len() - i,
    {
        let ghost rest = all.subrange(i as int, all.len() as int);
        assert(rest[0] == lines@[i as int]@);
        assert(rest.drop_first() =~= all.subrange(i + 1 as int, all.len() as int));
        match check_for_auto_commands(lines[i].as_str()) {
            Some(m) => {
                return m;
            },
            None => {},
        }
        i = i + 1;
    }
    RunMode::Interactive
}

/// Classifies one instruction line.
pub fn classify_instruction(line: &str) -> (r: InstructionKind)
    ensures
        r == kind_of(line@),
{
    let chars = chars_of(line);
    let start = skip_whitespace(&chars);
    let ghost t = trim_start(line@);
    if start == chars.len() {
        return InstructionKind::Blank;
    }
    assert(t[0] == chars@[start as int]);
    if let Some(m) = check_for_auto_commands(line) {
        return InstructionKind::DirectiveMarker(m);
    }
    if chars[start] == '#' {
        return InstructionKind::Comment;
    }
    if starts_with_at(&chars, start, &chars_of("ccc")) {
        return InstructionKind::CccInvocation;
    }
    if starts_with_at(&chars, start, &chars_of("event_timed")) {
        return InstructionKind::TimedEvent;
    }
    if starts_with_at(&chars, start, &chars_of("factory_init")) {
        return InstructionKind::FactoryInit;
    }
    if starts_with_at(&chars, start, &chars_of("panorama")) {
        return InstructionKind::PanoramaInvocation;
    }
    let toks = tokenize(&chars);
    if toks.len() == 0 {
        proof {
            reveal_strlit("wait_s");
            reveal_strlit("wait_e");
            reveal_strlit("dhcp_server");
            assert(tokens(line@).len() == 0);
            assert(first_word(line@) =~= Seq::<char>::empty());
            assert("wait_s"@.len() == 6);
            assert("wait_e"@.len() == 6);
            assert("dhcp_server"@.len() == 11);
        }
        return InstructionKind::Unrecognized;
    }
    assert(first_word(line@) == toks@[0]@);
    if is_word(&toks[0], "wait_s") {
        InstructionKind::GenericWait
    } else if is_word(&toks[0], "wait_e") {
        InstructionKind::GenericKeypress
    } else if is_word(&toks[0], "dhcp_server") {
        InstructionKind::DhcpControl
    } else {
        InstructionKind::Unrecognized
    }
}

/// Whether a line names a diagnostic step.
pub fn is_diag_line(line: &str) -> (r: bool)
    ensures
        r == is_diag(line@),
{
    contains_chars(&chars_of(line), &chars_of("diag"))
}

/// A line selects a run mode only when, apart from `##` markers, it is the
/// keyword itself and nothing else: a keyword inside other text never counts.
pub proof fn lemma_directive_is_whole_line(line: Seq<char>)
    ensures
        directive_of(line) == Some(RunMode::SemiAuto) ==> without_markers(tokens(line)) == seq![
            "SEMI_AUTO"@,
        ],
        directive_of(line) == Some(RunMode::FullAuto) ==> without_markers(tokens(line)) == seq![
            "FULL_AUTO"@,
        ],
        directive_of(line) != Some(RunMode::Interactive),
{
    let f = without_markers(tokens(line));
    if f.len() == 1 {
        assert(f =~= seq![f[0]]);
    }
}

} // verus!
