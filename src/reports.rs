//! Test selection and the invocations around the report: grouping tests by
//! label, ID and priority, the spreadsheet status update, and the
//! configuration dump attached to the email.
use vstd::prelude::*;

use crate::classify::same_chars;
use crate::command::{ccc_command, ccc_command_spec, spec_is, CommandSpec};
use crate::text::{
    chars_of, has_prefix, skip_whitespace, starts_with_at, string_from_chars, texts_are,
    trim_start,
};

verus! {

/// Base test list read when no input file is named.
pub const DEFAULT_BASE_TOML: &'static str = "base_tests_list.toml";

/// Instruction file written when no output name is given.
pub const DEFAULT_INSTRUCTION_FILE: &'static str = "validation_test_instructions.toml";

/// Report written when no output name is given.
pub const DEFAULT_CSV_FILE: &'static str = "validation_test_report.csv";

/// Folder that receives the email attachments.
pub const EMAIL_ATTACHMENTS_FLDR: &'static str = "./email_attachments/";

/// Interpreter that runs the report scripts.
pub const PYTHON: &'static str = "python";

/// One test of a test list.
#[derive(Debug)]
pub struct Test {
    pub test_id: String,
    pub test_group: String,
    pub test_priority: String,
    pub test_description: String,
    pub pass_condition: String,
    pub instructions: Vec<String>,
    pub test_authors_and_contact_persons: Vec<String>,
}

pub open spec fn ascii_lower(c: char) -> char {
    if 65 <= (c as u32) && (c as u32) <= 90 {
        ((c as u32) + 32) as char
    } else {
        c
    }
}

/// Equal up to ASCII case (what `str::eq_ignore_ascii_case` tests).
pub open spec fn eq_ignore_case(a: Seq<char>, b: Seq<char>) -> bool {
    a.len() == b.len() && forall|i: int| 0 <= i < a.len() ==> ascii_lower(a[i]) == ascii_lower(b[i])
}

fn lower(c: char) -> (r: u32)
    ensures
        r == ascii_lower(c) as u32,
{
    let u = c as u32;
    if 65 <= u && u <= 90 {
        assert(((u + 32) as char) as u32 == u + 32);
        u + 32
    } else {
        u
    }
}

fn eq_ignore_ascii_case(a: &str, b: &str) -> (r: bool)
    ensures
        r == eq_ignore_case(a@, b@),
{
    let x = chars_of(a);
    let y = chars_of(b);
    if x.len() != y.len() {
        return false;
    }
    let mut i: usize = 0;
    while i < x.len()
        invariant
            x.len() == y.len(),
            x@ == a@,
            y@ == b@,
            i <= x.len(),
            forall|j: int| 0 <= j < i ==> ascii_lower(x@[j]) == ascii_lower(y@[j]),
        decreases x.len() - i,
    {
        if lower(x[i]) != lower(y[i]) {
            assert(ascii_lower(x@[i as int]) != ascii_lower(y@[i as int]));
            return false;
        }
        assert(ascii_lower(x@[i as int]) as u32 == ascii_lower(y@[i as int]) as u32);
        i = i + 1;
    }
    true
}

/// A test is selected when no IDs are given or its ID is among them, and no
/// priority is given or its priority equals it up to ASCII case.
pub open spec fn test_selected(t: Test, ids: Seq<String>, priority: Option<String>) -> bool {
    (ids.len() == 0 || exists|i: int| 0 <= i < ids.len() && ids[i]@ == t.test_id@) && match priority {
        Some(p) => eq_ignore_case(t.test_priority@, p@),
        None => true,
    }
}

/// Whether a test is selected by `ids` and `priority`.
pub fn test_matches(test: &Test, ids: &Vec<String>, priority: &Option<String>) -> (r: bool)
    ensures
        r == test_selected(*test, ids@, *priority),
{
    let mut id_match = ids.len() == 0;
    let mut i: usize = 0;
    while i < ids.len() && !id_match
        invariant
            i <= ids.len(),
            id_match ==> (ids.len() == 0 || exists|j: int|
                0 <= j < ids.len() && ids@[j]@ == test.test_id@),
            !id_match ==> ids.len() > 0 && forall|j: int| 0 <= j < i ==> ids@[j]@ != test.test_id@,
        decreases ids.len() - i,
    {
        let a = chars_of(ids[i].as_str());
        let b = chars_of(test.test_id.as_str());
        if same_chars(&a, &b) {
            assert(ids@[i as int]@ == test.test_id@);
            id_match = true;
        }
        i = i + 1;
    }
    let prio_match = match priority {
        Some(p) => eq_ignore_ascii_case(test.test_priority.as_str(), p.as_str()),
        None => true,
    };
    id_match && prio_match
}

/// The tests of `tests` that are selected, in order.
pub open spec fn selected(tests: Seq<Test>, ids: Seq<String>, priority: Option<String>) -> Seq<Test>
    decreases tests.len(),
{
    if tests.len() == 0 {
        tests
    } else {
        let rest = selected(tests.drop_last(), ids, priority);
        if test_selected(tests.last(), ids, priority) {
            rest.push(tests.last())
        } else {
            rest
        }
    }
}

/// Keeps the tests selected by `ids` (all, when empty) and `priority` (any, when absent).
pub fn select_tests(tests: Vec<Test>, ids: &Vec<String>, priority: &Option<String>) -> (r: Vec<
    Test,
>)
    ensures
        r@ == selected(tests@, ids@, *priority),
{
    let ghost all = tests@;
    let n = tests.len();
    let mut rest = tests;
    let mut kept: Vec<Test> = Vec::new();
    let mut k: usize = 0;
    while rest.len() > 0
        invariant
            k + rest.len() == all.len(),
            all.len() == n,
            rest@ == all.subrange(k as int, all.len() as int),
            kept@ == selected(all.subrange(0, k as int), ids@, *priority),
        decreases rest.len(),
    {
        let t = rest.remove(0);
        assert(t == all[k as int]);
        assert(all.subrange(0, k + 1 as int).drop_last() =~= all.subrange(0, k as int));
        if test_matches(&t, ids, priority) {
            kept.push(t);
        }
        k = k + 1;
        assert(rest@ =~= all.subrange(k as int, all.len() as int));
    }
    assert(all.subrange(0, k as int) =~= all);
    kept
}

/// A labelled group of test IDs.
#[derive(Debug)]
pub struct LabelGroup {
    pub label: String,
    pub ids: Vec<String>,
}

/// What a grouping run reads and writes.
#[derive(Debug)]
pub struct GroupingPlan {
    /// The base test list to read.
    pub input: String,
    /// The groups to write, in order.
    pub groups: Vec<LabelGroup>,
    /// The priority every selected test must have, if any.
    pub priority: Option<String>,
    /// The grouped instruction file to write.
    pub output_toml: String,
    /// The report to write.
    pub output_csv: String,
}

/// The index of the first `sep` at or after `k`, or the length.
pub open spec fn next_sep(s: Seq<char>, sep: char, k: int) -> int
    decreases s.len() - k,
{
    if k >= s.len() || k < 0 {
        s.len() as int
    } else if s[k] == sep {
        k
    } else {
        next_sep(s, sep, k + 1)
    }
}

/// The non-empty pieces of `s` between separators: the finished pieces and
/// the piece being read.
pub open spec fn scan_pieces(s: Seq<char>, sep: char) -> (Seq<Seq<char>>, Seq<char>)
    decreases s.len(),
{
    if s.len() == 0 {
        (Seq::empty(), Seq::empty())
    } else {
        let (done, cur) = scan_pieces(s.drop_last(), sep);
        if s.last() == sep {
            if cur.len() > 0 {
                (done.push(cur), Seq::empty())
            } else {
                (done, cur)
            }
        } else {
            (done, cur.push(s.last()))
        }
    }
}

/// The non-empty pieces of `s` between separators `sep`, in order.
pub open spec fn pieces(s: Seq<char>, sep: char) -> Seq<Seq<char>> {
    let (done, cur) = scan_pieces(s, sep);
    if cur.len() > 0 {
        done.push(cur)
    } else {
        done
    }
}

/// `LABEL:ID1,ID2,...`: the label is the text before the first colon (all of
/// it, without one); the IDs are the non-empty comma-separated pieces after it.
pub open spec fn group_of(raw: Seq<char>) -> (Seq<char>, Seq<Seq<char>>) {
    let c = next_sep(raw, ':', 0);
    (
        raw.subrange(0, c),
        if c < raw.len() {
            pieces(raw.subrange(c + 1, raw.len() as int), ',')
        } else {
            Seq::empty()
        },
    )
}

/// Reads one `LABEL:IDS` group.
pub fn parse_group_spec(raw: &str) -> (r: LabelGroup)
    ensures
        r.label@ == group_of(raw@).0,
        texts_are(r.ids@, group_of(raw@).1),
{
    let s = chars_of(raw);
    let mut c: usize = 0;
    while c < s.len() && s[c] != ':'
        invariant
            c <= s.len(),
            next_sep(s@, ':', 0) == next_sep(s@, ':', c as int),
        decreases s.len() - c,
    {
        c = c + 1;
    }
    let mut label: Vec<char> = Vec::new();
    let mut k: usize = 0;
    while k < c
        invariant
            k <= c <= s.len(),
            label@ == s@.subrange(0, k as int),
        decreases c - k,
    {
        label.push(s[k]);
        k = k + 1;
        assert(label@ =~= s@.subrange(0, k as int));
    }
    let mut ids: Vec<String> = Vec::new();
    if c < s.len() {
        let ghost rest = s@.subrange(c + 1, s.len() as int);
        let mut done: Vec<String> = Vec::new();
        let mut cur: Vec<char> = Vec::new();
        let mut i: usize = c + 1;
        while i < s.len()
            invariant
                c < s.len(),
                c + 1 <= i <= s.len(),
                rest == s@.subrange(c + 1, s.len() as int),
                texts_are(done@, scan_pieces(rest.subrange(0, i - c - 1), ',').0),
                cur@ == scan_pieces(rest.subrange(0, i - c - 1), ',').1,
            decreases s.len() - i,
        {
            let ghost pre = rest.subrange(0, i - c - 1);
            assert(rest.subrange(0, i - c).drop_last() =~= pre);
            assert(rest.subrange(0, i - c).last() == s@[i as int]);
            if s[i] == ',' {
                if cur.len() > 0 {
                    let piece = string_from_chars(&cur);
                    done.push(piece);
                    cur = Vec::new();
                }
            } else {
                cur.push(s[i]);
            }
            i = i + 1;
        }
        assert(rest.subrange(0, i - c - 1) =~= rest);
        if cur.len() > 0 {
            done.push(string_from_chars(&cur));
        }
        ids = done;
    }
    LabelGroup { label: string_from_chars(&label), ids }
}

fn chars_then(base: &str, suffix: &str) -> (r: String)
    ensures
        r@ == base@ + suffix@,
{
    let mut v = chars_of(base);
    let w = chars_of(suffix);
    let ghost start = v@;
    let mut k: usize = 0;
    while k < w.len()
        invariant
            k <= w.len(),
            v@ == start + w@.subrange(0, k as int),
        decreases w.len() - k,
    {
        v.push(w[k]);
        k = k + 1;
        assert(v@ =~= start + w@.subrange(0, k as int));
    }
    assert(w@.subrange(0, w.len() as int) =~= w@);
    string_from_chars(&v)
}

fn copy_option(o: &Option<String>) -> (r: Option<String>)
    ensures
        r == *o,
{
    match o {
        Some(s) => Some(s.clone()),
        None => None,
    }
}

/// The input file: the one named, else the default base list.
pub open spec fn input_of(input_base: Option<String>) -> Seq<char> {
    match input_base {
        Some(f) => f@,
        None => DEFAULT_BASE_TOML@,
    }
}

/// The output files: `<name>.toml` and `<name>.csv`, else the defaults.
pub open spec fn outputs_of(output_name: Option<String>) -> (Seq<char>, Seq<char>) {
    match output_name {
        Some(n) => (n@ + ".toml"@, n@ + ".csv"@),
        None => (DEFAULT_INSTRUCTION_FILE@, DEFAULT_CSV_FILE@),
    }
}

fn plan_files(input_base: &Option<String>, output_name: &Option<String>) -> (r: (
    String,
    String,
    String,
))
    ensures
        r.0@ == input_of(*input_base),
        r.1@ == outputs_of(*output_name).0,
        r.2@ == outputs_of(*output_name).1,
{
    let input = match input_base {
        Some(f) => f.clone(),
        None => DEFAULT_BASE_TOML.to_owned(),
    };
    match output_name {
        Some(n) => (input, chars_then(n.as_str(), ".toml"), chars_then(n.as_str(), ".csv")),
        None => (input, DEFAULT_INSTRUCTION_FILE.to_owned(), DEFAULT_CSV_FILE.to_owned()),
    }
}

/// Plans a grouping by labels and IDs: each `LABEL:IDS` argument is one
/// group, filtered by the optional priority.
pub fn group_tests_id(
    groups: &Vec<String>,
    priority: &Option<String>,
    input_base: &Option<String>,
    output_name: &Option<String>,
) -> (r: GroupingPlan)
    ensures
        r.input@ == input_of(*input_base),
        r.output_toml@ == outputs_of(*output_name).0,
        r.output_csv@ == outputs_of(*output_name).1,
        r.priority == *priority,
        r.groups.len() == groups.len(),
        forall|i: int|
            0 <= i < groups.len() ==> #[trigger] r.groups@[i].label@ == group_of(groups@[i]@).0
                && texts_are(r.groups@[i].ids@, group_of(groups@[i]@).1),
{
    let (input, output_toml, output_csv) = plan_files(input_base, output_name);
    let mut out: Vec<LabelGroup> = Vec::new();
    let mut i: usize = 0;
    while i < groups.len()
        invariant
            i <= groups.len(),
            out.len() == i,
            forall|j: int|
                0 <= j < i ==> #[trigger] out@[j].label@ == group_of(groups@[j]@).0 && texts_are(
                    out@[j].ids@,
                    group_of(groups@[j]@).1,
                ),
        decreases groups.len() - i,
    {
        out.push(parse_group_spec(groups[i].as_str()));
        i = i + 1;
    }
    GroupingPlan { input, groups: out, priority: copy_option(priority), output_toml, output_csv }
}

/// Plans a grouping by priority alone: one group labelled with the priority,
/// holding every test of that priority; a blank priority makes no group.
pub fn group_tests_priority(
    priority: &String,
    input_base: &Option<String>,
    output_name: &Option<String>,
) -> (r: GroupingPlan)
    ensures
        r.input@ == input_of(*input_base),
        r.output_toml@ == outputs_of(*output_name).0,
        r.output_csv@ == outputs_of(*output_name).1,
        trim_start(priority@).len() == 0 ==> r.priority is None && r.groups.len() == 0,
        trim_start(priority@).len() > 0 ==> r.priority == Some(*priority) && r.groups.len() == 1
            && r.groups@[0].label@ == priority@ && r.groups@[0].ids.len() == 0,
{
    let (input, output_toml, output_csv) = plan_files(input_base, output_name);
    let chars = chars_of(priority.as_str());
    let blank = skip_whitespace(&chars) == chars.len();
    let mut out: Vec<LabelGroup> = Vec::new();
    if blank {
        GroupingPlan { input, groups: out, priority: None, output_toml, output_csv }
    } else {
        out.push(LabelGroup { label: priority.clone(), ids: Vec::new() });
        GroupingPlan {
            input,
            groups: out,
            priority: Some(priority.clone()),
            output_toml,
            output_csv,
        }
    }
}

/// The arguments of a status update of the report sheet.
pub open spec fn status_update_args(
    script: Seq<char>,
    xlsx_path: Seq<char>,
    test_id: Seq<char>,
    status: Seq<char>,
    notes: Option<Seq<char>>,
) -> Seq<Seq<char>> {
    let base = seq![script, "update"@, xlsx_path, test_id, status];
    match notes {
        Some(n) => base.push(n),
        None => base,
    }
}

pub open spec fn note_text(notes: Option<&str>) -> Option<Seq<char>> {
    match notes {
        Some(n) => Some(n@),
        None => None,
    }
}

/// The script invocation that sets a test's status in the report sheet.
pub fn update_test_status(
    script: &str,
    xlsx_path: &str,
    test_id: &str,
    new_status: &str,
    notes: Option<&str>,
) -> (r: CommandSpec)
    ensures
        spec_is(
            r,
            PYTHON@,
            status_update_args(script@, xlsx_path@, test_id@, new_status@, note_text(notes)),
        ),
{
    let mut args: Vec<String> = Vec::new();
    args.push(script.to_owned());
    args.push("update".to_owned());
    args.push(xlsx_path.to_owned());
    args.push(test_id.to_owned());
    args.push(new_status.to_owned());
    match notes {
        Some(n) => {
            args.push(n.to_owned());
        },
        None => {},
    }
    CommandSpec { program: PYTHON.to_owned(), args }
}

/// Marks a test as passed in the report sheet.
pub fn report_sheet_test_id_pass(
    script: &str,
    xlsx_path: &str,
    test_id: &str,
    notes: Option<&str>,
) -> (r: CommandSpec)
    ensures
        spec_is(
            r,
            PYTHON@,
            status_update_args(script@, xlsx_path@, test_id@, "Pass"@, note_text(notes)),
        ),
{
    update_test_status(script, xlsx_path, test_id, "Pass", notes)
}

/// Marks a test as failed in the report sheet.
pub fn report_sheet_test_id_fail(
    script: &str,
    xlsx_path: &str,
    test_id: &str,
    notes: Option<&str>,
) -> (r: CommandSpec)
    ensures
        spec_is(
            r,
            PYTHON@,
            status_update_args(script@, xlsx_path@, test_id@, "Fail"@, note_text(notes)),
        ),
{
    update_test_status(script, xlsx_path, test_id, "Fail", notes)
}

/// Files of earlier configuration dumps, removed before a new dump.
pub open spec fn is_config_dump(file_name: Seq<char>) -> bool {
    has_prefix(file_name, "sensor_config_dump_"@)
}

/// Whether a file is an earlier configuration dump.
pub fn is_config_dump_file(file_name: &str) -> (r: bool)
    ensures
        r == is_config_dump(file_name@),
{
    let s = chars_of(file_name);
    let r = starts_with_at(&s, 0, &chars_of("sensor_config_dump_"));
    assert(s@.subrange(0, s.len() as int) =~= s@);
    r
}

/// The instruction that dumps the device configuration into `folder`,
/// stamped with `timestamp`.
pub open spec fn config_dump_line(folder: Seq<char>, timestamp: Seq<char>) -> Seq<char> {
    "ccc get-all -o "@ + folder + "/sensor_config_dump_"@ + timestamp
        + ".txt -d ultra_config.toml"@
}

/// The command that dumps the device configuration into `path`, in a file
/// stamped with `timestamp`.
pub fn get_config_dump(path: &str, timestamp: &str) -> (r: CommandSpec)
    ensures
        spec_is(r, ccc_command(config_dump_line(path@, timestamp@)).0, ccc_command(config_dump_line(path@, timestamp@)).1),
{
    let a = chars_then("ccc get-all -o ", path);
    let b = chars_then(a.as_str(), "/sensor_config_dump_");
    let c = chars_then(b.as_str(), timestamp);
    let line = chars_then(c.as_str(), ".txt -d ultra_config.toml");
    proof {
        reveal_strlit("ccc get-all -o ");
        reveal_strlit("ccc");
        assert(trim_start(line@) == line@);
        assert(line@.len() >= 3);
    }
    ccc_command_spec(line.as_str())
}

/// The configuration dump attached to the report email, stamped with `timestamp`.
pub fn generate_email_attachments(timestamp: &str) -> (r: CommandSpec)
    ensures
        spec_is(
            r,
            ccc_command(config_dump_line(EMAIL_ATTACHMENTS_FLDR@, timestamp@)).0,
            ccc_command(config_dump_line(EMAIL_ATTACHMENTS_FLDR@, timestamp@)).1,
        ),
{
    get_config_dump(EMAIL_ATTACHMENTS_FLDR, timestamp)
}

/// Relies on `std::path::Path::file_stem`: the file name without its last
/// extension, as text. What counts as a separator depends on the platform, so
/// nothing is claimed of the result.
#[verifier::external_body]
fn file_stem(path: &str) -> (r: Option<String>) {
    std::path::Path::new(path).file_stem().and_then(|s| s.to_str()).map(|s| s.to_owned())
}

/// The report written for an instruction file with this stem.
pub open spec fn report_name(stem: Option<Seq<char>>) -> Seq<char> {
    match stem {
        Some(s) => s + "_report.csv"@,
        None => "report.csv"@,
    }
}

/// Names the report of an instruction file from the file's stem.
pub fn report_csv_name(stem: Option<&str>) -> (r: String)
    ensures
        r@ == report_name(
            match stem {
                Some(s) => Some(s@),
                None => None,
            },
        ),
{
    match stem {
        Some(s) => chars_then(s, "_report.csv"),
        None => "report.csv".to_owned(),
    }
}

/// What a report generation reads and writes.
#[derive(Debug)]
pub struct ExcelPlan {
    /// The instruction file to read.
    pub input: String,
    /// The report to write, converted to a spreadsheet afterwards.
    pub csv: String,
}

/// The instruction file: the one named, else the default.
pub open spec fn instruction_file_of(input: Option<String>) -> Seq<char> {
    match input {
        Some(f) => f@,
        None => DEFAULT_INSTRUCTION_FILE@,
    }
}

/// Plans a report of an instruction file (the default one when none is
/// named): the report is named after the file's stem.
pub fn excel_gen(input_instruction_file: &Option<String>) -> (r: ExcelPlan)
    ensures
        r.input@ == instruction_file_of(*input_instruction_file),
        exists|stem: Option<Seq<char>>| r.csv@ == report_name(stem),
{
    let input = match input_instruction_file {
        Some(f) => f.clone(),
        None => DEFAULT_INSTRUCTION_FILE.to_owned(),
    };
    let stem = file_stem(input.as_str());
    let csv = match &stem {
        Some(s) => report_csv_name(Some(s.as_str())),
        None => report_csv_name(None),
    };
    proof {
        match stem {
            Some(s) => assert(csv@ == report_name(Some(s@))),
            None => assert(csv@ == report_name(None)),
        }
    }
    ExcelPlan { input, csv }
}

} // verus!
