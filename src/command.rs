//! The command runner's logic: turning an instruction line into a program and
//! its arguments, and judging what the program's run came to.
use vstd::prelude::*;

use crate::text::{
    chars_of, parse_i32, parse_i32_spec, parse_u32, parse_u32_spec,
    signed_decimal, signed_decimal_chars, skip_whitespace, string_from_chars,
    texts_are, tokenize, tokens, trim, trim_start, trimmed_end, views,
};
use crate::classify::is_word;

verus! {

/// The executable that `ccc` instructions name.
pub const CCC_PROGRAM: &'static str = "./ccc.exe";

/// The executable that `panorama` instructions name.
pub const PANORAMA_PROGRAM: &'static str = "./panorama_cli.exe";

/// Why an instruction did not complete.
#[derive(Clone, Copy, Debug, PartialEq, Eq, Structural)]
pub enum DispatchError {
    /// The instruction's arguments are malformed or inconsistent.
    InvalidArguments,
    /// The resolved executable does not exist; it was not started.
    NotFound,
    /// The program could not be started.
    SpawnFailed,
    /// The program ended with a non-zero or missing exit status.
    ExternalCommandFailed(Option<i32>),
    /// A program's output did not hold the expected value.
    MalformedOutput,
}

impl DispatchError {
    /// Errors of configuration: bad arguments or a missing executable.
    pub fn is_configuration_error(&self) -> (r: bool)
        ensures
            r == (self is InvalidArguments || self is NotFound),
    {
        match self {
            DispatchError::InvalidArguments => true,
            DispatchError::NotFound => true,
            _ => false,
        }
    }

    /// Errors of the external program itself.
    pub fn is_external_command_error(&self) -> (r: bool)
        ensures
            r == (self is SpawnFailed || self is ExternalCommandFailed),
    {
        match self {
            DispatchError::SpawnFailed => true,
            DispatchError::ExternalCommandFailed(_) => true,
            _ => false,
        }
    }
}

/// A program to run and its arguments, in order.
#[derive(Debug)]
pub struct CommandSpec {
    pub program: String,
    pub args: Vec<String>,
}

/// `c` runs `program` with `args`.
pub open spec fn spec_is(c: CommandSpec, program: Seq<char>, args: Seq<Seq<char>>) -> bool {
    c.program@ == program && texts_are(c.args@, args)
}

/// What became of an attempt to run a program.
#[derive(Clone, Copy, Debug, PartialEq, Eq, Structural)]
pub enum CommandOutcome {
    /// The executable path does not exist.
    Missing,
    /// The program could not be started.
    SpawnFailed,
    /// The program ended, with this exit code if it has one.
    Exited(Option<i32>),
}

pub open spec fn outcome_result(o: CommandOutcome) -> Result<(), DispatchError> {
    match o {
        CommandOutcome::Missing => Err(DispatchError::NotFound),
        CommandOutcome::SpawnFailed => Err(DispatchError::SpawnFailed),
        CommandOutcome::Exited(code) => if code == Some(0i32) {
            Ok(())
        } else {
            Err(DispatchError::ExternalCommandFailed(code))
        },
    }
}

/// A run succeeds exactly when the program ends with exit status zero.
pub fn command_result(o: CommandOutcome) -> (r: Result<(), DispatchError>)
    ensures
        r == outcome_result(o),
{
    match o {
        CommandOutcome::Missing => Err(DispatchError::NotFound),
        CommandOutcome::SpawnFailed => Err(DispatchError::SpawnFailed),
        CommandOutcome::Exited(code) => {
            match code {
                Some(c) => if c == 0 {
                    Ok(())
                } else {
                    Err(DispatchError::ExternalCommandFailed(code))
                },
                None => Err(DispatchError::ExternalCommandFailed(code)),
            }
        },
    }
}

/// The line with its leading symbolic name (`symbol_len` characters, after
/// leading whitespace) replaced by `replacement`.
pub open spec fn substituted(line: Seq<char>, symbol_len: nat, replacement: Seq<char>) -> Seq<
    char,
> {
    let t = trim_start(line);
    replacement + t.subrange(symbol_len as int, t.len() as int)
}

/// The first token is the program and the rest its arguments; with no token
/// the program is `fallback`.
pub open spec fn split_command(text: Seq<char>, fallback: Seq<char>) -> (Seq<char>, Seq<Seq<char>>) {
    let t = tokens(text);
    if t.len() > 0 {
        (t[0], t.drop_first())
    } else {
        (fallback, Seq::empty())
    }
}

pub open spec fn ccc_command(line: Seq<char>) -> (Seq<char>, Seq<Seq<char>>) {
    split_command(substituted(line, 3, CCC_PROGRAM@), CCC_PROGRAM@)
}

pub open spec fn panorama_command(line: Seq<char>) -> (Seq<char>, Seq<Seq<char>>) {
    split_command(substituted(line, 8, "./panorama_cli.exe run -t"@), PANORAMA_PROGRAM@)
}

/// Builds the command for `line`, whose first non-blank characters are a
/// symbolic name of `symbol_len` characters, by putting `replacement` in its place.
fn command_from_template(line: &str, symbol_len: usize, replacement: &str, fallback: &str) -> (r:
    CommandSpec)
    requires
        symbol_len <= trim_start(line@).len(),
    ensures
        spec_is(
            r,
            split_command(substituted(line@, symbol_len as nat, replacement@), fallback@).0,
            split_command(substituted(line@, symbol_len as nat, replacement@), fallback@).1,
        ),
{
    let chars = chars_of(line);
    let start = skip_whitespace(&chars);
    let mut text = chars_of(replacement);
    let ghost t = trim_start(line@);
    let ghost base = text@;
    let mut k: usize = start + symbol_len;
    while k < chars.len()
        invariant
            start + symbol_len <= k <= chars.len(),
            t == chars@.subrange(start as int, chars.len() as int),
            text@ == base + chars@.subrange(start + symbol_len, k as int),
        decreases chars.len() - k,
    {
        text.push(chars[k]);
        k = k + 1;
        assert(text@ =~= base + chars@.subrange(start + symbol_len, k as int));
    }
    assert(t.subrange(symbol_len as int, t.len() as int) =~= chars@.subrange(
        start + symbol_len,
        chars.len() as int,
    ));
    let toks = tokenize(&text);
    if toks.len() == 0 {
        return CommandSpec { program: fallback.to_owned(), args: Vec::new() };
    }
    let program = string_from_chars(&toks[0]);
    let mut args: Vec<String> = Vec::new();
    let mut i: usize = 1;
    while i < toks.len()
        invariant
            1 <= i <= toks.len(),
            args.len() == i - 1,
            forall|j: int| 0 <= j < args.len() ==> #[trigger] args@[j]@ == toks@[j + 1]@,
        decreases toks.len() - i,
    {
        args.push(string_from_chars(&toks[i]));
        i = i + 1;
    }
    assert(views(toks@).drop_first().len() == args.len());
    CommandSpec { program, args }
}

/// The command that a `ccc` instruction runs: the leading `ccc` becomes the
/// executable's path, and the remaining tokens its arguments.
pub fn ccc_command_spec(line: &str) -> (r: CommandSpec)
    requires
        3 <= trim_start(line@).len(),
    ensures
        spec_is(r, ccc_command(line@).0, ccc_command(line@).1),
{
    command_from_template(line, 3, CCC_PROGRAM, CCC_PROGRAM)
}

/// The command that a `panorama` instruction runs: the provisioning tool's
/// `run -t`, followed by the instruction's remaining tokens.
pub fn panorama_cli_handler(trimmed_line: &str) -> (r: CommandSpec)
    requires
        8 <= trim_start(trimmed_line@).len(),
    ensures
        spec_is(r, panorama_command(trimmed_line@).0, panorama_command(trimmed_line@).1),
{
    command_from_template(trimmed_line, 8, "./panorama_cli.exe run -t", PANORAMA_PROGRAM)
}

pub open spec fn is_bracket(c: char) -> bool {
    c == '[' || c == ']'
}

/// The index of the first bracket at or after `k`, or the length if none.
pub open spec fn next_bracket(s: Seq<char>, k: int) -> int
    decreases s.len() - k,
{
    if k >= s.len() {
        s.len() as int
    } else if is_bracket(s[k]) {
        k
    } else {
        next_bracket(s, k + 1)
    }
}

/// The text between the first bracket and the next one (or the end).
pub open spec fn bracketed_field(s: Seq<char>) -> Option<Seq<char>> {
    let i = next_bracket(s, 0);
    if i >= s.len() {
        None
    } else {
        Some(s.subrange(i + 1, next_bracket(s, i + 1)))
    }
}

/// The integer that a query printed in square brackets.
pub open spec fn bracketed_integer(s: Seq<char>) -> Option<i32> {
    match bracketed_field(s) {
        Some(f) => parse_i32_spec(trim(f)),
        None => None,
    }
}

fn find_bracket(s: &Vec<char>, from: usize) -> (r: usize)
    requires
        from <= s.len(),
    ensures
        r == next_bracket(s@, from as int),
        from <= r <= s.len(),
{
    let mut k: usize = from;
    while k < s.len() && s[k] != '[' && s[k] != ']'
        invariant
            from <= k <= s.len(),
            next_bracket(s@, from as int) == next_bracket(s@, k as int),
        decreases s.len() - k,
    {
        k = k + 1;
    }
    k
}

fn copy_range(s: &Vec<char>, a: usize, b: usize) -> (r: Vec<char>)
    requires
        a <= b <= s.len(),
    ensures
        r@ == s@.subrange(a as int, b as int),
{
    let mut r: Vec<char> = Vec::new();
    let mut k: usize = a;
    while k < b
        invariant
            a <= k <= b <= s.len(),
            r@ == s@.subrange(a as int, k as int),
        decreases b - k,
    {
        r.push(s[k]);
        k = k + 1;
        assert(r@ =~= s@.subrange(a as int, k as int));
    }
    r
}

/// Reads the integer that a `ccc get` query printed between square brackets.
pub fn get_ccc_output_integer(output: &str) -> (r: Result<i32, DispatchError>)
    ensures
        match bracketed_integer(output@) {
            Some(v) => r == Ok::<i32, DispatchError>(v),
            None => r == Err::<i32, DispatchError>(DispatchError::MalformedOutput),
        },
{
    let s = chars_of(output);
    let i = find_bracket(&s, 0);
    if i >= s.len() {
        return Err(DispatchError::MalformedOutput);
    }
    let j = find_bracket(&s, i + 1);
    let field = copy_range(&s, i + 1, j);
    let a = skip_whitespace(&field);
    let b = trimmed_end(&field, a);
    let inner = copy_range(&field, a, b);
    assert(inner@ == trim(field@));
    match parse_i32(&inner) {
        Some(v) => Ok(v),
        None => Err(DispatchError::MalformedOutput),
    }
}

/// The query that reads the device's serial number.
pub fn serial_query_spec() -> (r: CommandSpec)
    ensures
        spec_is(r, CCC_PROGRAM@, seq!["get"@, "serial_number"@]),
{
    let mut args: Vec<String> = Vec::new();
    args.push("get".to_owned());
    args.push("serial_number".to_owned());
    CommandSpec { program: CCC_PROGRAM.to_owned(), args }
}

/// The arguments of the factory initialisation for a serial number.
pub open spec fn factory_init_args(serial: i32) -> Seq<Seq<char>> {
    seq![
        "factory-init"@,
        "--sku"@,
        "0"@,
        "--serial-number"@,
        signed_decimal(serial as int),
        "ultra.cepbin"@,
    ]
}

/// The factory initialisation command for the serial number that the device reported.
pub fn factory_init(serial: i32) -> (r: CommandSpec)
    ensures
        spec_is(r, CCC_PROGRAM@, factory_init_args(serial)),
{
    let mut args: Vec<String> = Vec::new();
    args.push("factory-init".to_owned());
    args.push("--sku".to_owned());
    args.push("0".to_owned());
    args.push("--serial-number".to_owned());
    args.push(string_from_chars(&signed_decimal_chars(serial)));
    args.push("ultra.cepbin".to_owned());
    CommandSpec { program: CCC_PROGRAM.to_owned(), args }
}

/// What a generic instruction asks of the bench.
#[derive(Debug, PartialEq, Eq)]
pub enum GenericAction {
    /// Nothing to do.
    Nothing,
    /// Wait this many seconds.
    Sleep(u32),
    /// Wait for the operator to press Enter.
    WaitKeypress,
    /// Start the DHCP lease server, with the address the device is offered, if named.
    StartDhcpServer(Option<String>),
}

/// What a generic instruction line asks for, from its first token:
/// `wait_s <seconds>`, `wait_e`, or `dhcp_server [offered-ip]`.
pub open spec fn generic_action_of(line: Seq<char>) -> Result<GenericAction, DispatchError> {
    let t = tokens(line);
    if t.len() == 0 {
        Ok(GenericAction::Nothing)
    } else if t[0] == "wait_s"@ {
        if t.len() >= 2 && parse_u32_spec(t[1]) is Some {
            Ok(GenericAction::Sleep(parse_u32_spec(t[1])->0))
        } else {
            Err(DispatchError::InvalidArguments)
        }
    } else if t[0] == "wait_e"@ {
        Ok(GenericAction::WaitKeypress)
    } else if t[0] == "dhcp_server"@ {
        Ok(GenericAction::StartDhcpServer(None))
    } else {
        Ok(GenericAction::Nothing)
    }
}

/// The offered address named after `dhcp_server`, if any.
pub open spec fn dhcp_argument(line: Seq<char>) -> Option<Seq<char>> {
    let t = tokens(line);
    if t.len() >= 2 {
        Some(t[1])
    } else {
        None
    }
}

/// Decides what a generic instruction does.
pub fn generic_runner(trimmed_line: &str) -> (r: Result<GenericAction, DispatchError>)
    ensures
        match generic_action_of(trimmed_line@) {
            Ok(GenericAction::StartDhcpServer(_)) => match r {
                Ok(GenericAction::StartDhcpServer(arg)) => match dhcp_argument(trimmed_line@) {
                    Some(a) => arg is Some && arg->0@ == a,
                    None => arg is None,
                },
                _ => false,
            },
            other => r == other,
        },
{
    let chars = chars_of(trimmed_line);
    let toks = tokenize(&chars);
    if toks.len() == 0 {
        return Ok(GenericAction::Nothing);
    }
    if is_word(&toks[0], "wait_s") {
        if toks.len() < 2 {
            return Err(DispatchError::InvalidArguments);
        }
        match parse_u32(&toks[1]) {
            Some(n) => Ok(GenericAction::Sleep(n)),
            None => Err(DispatchError::InvalidArguments),
        }
    } else if is_word(&toks[0], "wait_e") {
        Ok(GenericAction::WaitKeypress)
    } else if is_word(&toks[0], "dhcp_server") {
        if toks.len() >= 2 {
            Ok(GenericAction::StartDhcpServer(Some(string_from_chars(&toks[1]))))
        } else {
            Ok(GenericAction::StartDhcpServer(None))
        }
    } else {
        Ok(GenericAction::Nothing)
    }
}

} // verus!
