//! Integrity checks of instruction files and helper scripts: an FNV-1a
//! 32-bit hash with this project's own offset basis and prime, the
//! `# HASH 0x........` header of instruction files, and script versions.
use vstd::prelude::*;

use crate::text::{
    chars_of, has_prefix, skip_whitespace, starts_with_at, string_from_chars, trim, trimmed_end,
};

verus! {

/// Offset basis of the hash ("VTG2").
pub const FNV_OFFSET_BASIS: u32 = 0x5654_4732;

/// Prime of the hash.
pub const FNV_PRIME: u32 = 0x0156_5447;

/// Why an integrity check failed.
#[derive(Clone, Copy, Debug, PartialEq, Eq, Structural)]
pub enum IntegrityError {
    /// The first line is not a `# HASH ` header.
    MissingHeader,
    /// The header's hash is not a hexadecimal `u32`.
    MalformedHash,
    /// The content does not hash to the header's value.
    Tampered,
    /// The script's first line is not a `# VERSION ` line.
    MissingVersion,
    /// The script's version is not the expected one.
    VersionMismatch,
}

/// One step of the hash: xor in the byte, multiply by the prime modulo 2^32.
pub open spec fn fnv_step(h: u32, b: u8) -> u32 {
    (((h ^ (b as u32)) as int * FNV_PRIME as int) % 0x1_0000_0000int) as u32
}

/// The hash of `bytes`, starting from `h`.
pub open spec fn fnv_from(h: u32, bytes: Seq<u8>) -> u32
    decreases bytes.len(),
{
    if bytes.len() == 0 {
        h
    } else {
        fnv_step(fnv_from(h, bytes.drop_last()), bytes.last())
    }
}

pub open spec fn fnv_hash(bytes: Seq<u8>) -> u32 {
    fnv_from(FNV_OFFSET_BASIS, bytes)
}

/// Hashes `data[from..]`.
pub fn fnv1a_32_from(data: &Vec<u8>, from: usize) -> (r: u32)
    requires
        from <= data.len(),
    ensures
        r == fnv_hash(data@.subrange(from as int, data.len() as int)),
{
    let mut h: u32 = FNV_OFFSET_BASIS;
    let mut i: usize = from;
    while i < data.len()
        invariant
            from <= i <= data.len(),
            h == fnv_hash(data@.subrange(from as int, i as int)),
        decreases data.len() - i,
    {
        let x: u32 = h ^ (data[i] as u32);
        let p: u64 = (x as u64) * (FNV_PRIME as u64);
        assert(data@.subrange(from as int, i + 1 as int).drop_last() =~= data@.subrange(
            from as int,
            i as int,
        ));
        h = (p % 0x1_0000_0000u64) as u32;
        i = i + 1;
    }
    h
}

/// The FNV-1a hash of the whole content.
pub fn fnv1a_32(data: &Vec<u8>) -> (r: u32)
    ensures
        r == fnv_hash(data@),
{
    assert(data@.subrange(0, data.len() as int) =~= data@);
    fnv1a_32_from(data, 0)
}

/// The index just past the first newline at or after `k`, or `None`.
pub open spec fn line_end(s: Seq<u8>, k: int) -> Option<int>
    decreases s.len() - k,
{
    if k < 0 || k >= s.len() {
        None
    } else if s[k] == 10 {
        Some(k + 1)
    } else {
        line_end(s, k + 1)
    }
}

/// The hash that an instruction file's header must hold: the hash of
/// everything after its first two lines (the header and the blank line), or
/// the offset basis when the file has fewer than two lines.
pub open spec fn body_hash(s: Seq<u8>) -> u32 {
    match line_end(s, 0) {
        None => FNV_OFFSET_BASIS,
        Some(a) => match line_end(s, a) {
            None => FNV_OFFSET_BASIS,
            Some(b) => fnv_hash(s.subrange(b, s.len() as int)),
        },
    }
}

fn find_line_end(s: &Vec<u8>, from: usize) -> (r: Option<usize>)
    requires
        from <= s.len(),
    ensures
        r is Some <==> line_end(s@, from as int) is Some,
        r is Some ==> r->0 as int == line_end(s@, from as int)->0,
        r is Some ==> from < r->0 <= s.len(),
{
    let mut k: usize = from;
    while k < s.len()
        invariant
            from <= k <= s.len(),
            line_end(s@, from as int) == line_end(s@, k as int),
        decreases s.len() - k,
    {
        if s[k] == 10 {
            return Some(k + 1);
        }
        k = k + 1;
    }
    None
}

/// Hashes an instruction file past its header lines.
pub fn toml_compute_fnv1a_32(data: &Vec<u8>) -> (r: u32)
    ensures
        r == body_hash(data@),
{
    match find_line_end(data, 0) {
        None => FNV_OFFSET_BASIS,
        Some(a) => match find_line_end(data, a) {
            None => FNV_OFFSET_BASIS,
            Some(b) => fnv1a_32_from(data, b),
        },
    }
}

pub open spec fn hex_value(c: char) -> Option<int> {
    let u = c as u32;
    if 48 <= u <= 57 {
        Some(u - 48)
    } else if 97 <= u <= 102 {
        Some(u - 87)
    } else if 65 <= u <= 70 {
        Some(u - 55)
    } else {
        None
    }
}

pub open spec fn all_hex(s: Seq<char>) -> bool {
    forall|i: int| 0 <= i < s.len() ==> #[trigger] hex_value(s[i]) is Some
}

pub open spec fn hex_digits_value(s: Seq<char>) -> int
    decreases s.len(),
{
    if s.len() == 0 {
        0
    } else {
        hex_digits_value(s.drop_last()) * 16 + hex_value(s.last())->0
    }
}

/// What `u32::from_str_radix(s, 16)` accepts: an optional `+`, then at least
/// one hexadecimal digit, in range.
pub open spec fn parse_hex_u32_spec(s: Seq<char>) -> Option<u32> {
    let body = if s.len() > 0 && s[0] == '+' {
        s.drop_first()
    } else {
        s
    };
    if body.len() > 0 && all_hex(body) && hex_digits_value(body) <= u32::MAX {
        Some(hex_digits_value(body) as u32)
    } else {
        None
    }
}

proof fn lemma_hex_nonneg(s: Seq<char>)
    requires
        all_hex(s),
    ensures
        hex_digits_value(s) >= 0,
    decreases s.len(),
{
    if s.len() > 0 {
        assert(all_hex(s.drop_last()));
        assert(hex_value(s[s.len() - 1]) is Some);
        lemma_hex_nonneg(s.drop_last());
    }
}

proof fn lemma_hex_grow(s: Seq<char>, i: int)
    requires
        all_hex(s),
        0 <= i <= s.len(),
    ensures
        hex_digits_value(s.subrange(0, i)) <= hex_digits_value(s),
    decreases s.len() - i,
{
    if i < s.len() {
        lemma_hex_grow(s, i + 1);
        assert(s.subrange(0, i + 1).drop_last() =~= s.subrange(0, i));
        assert(hex_value(s[i]) is Some);
        assert(all_hex(s.subrange(0, i)));
        lemma_hex_nonneg(s.subrange(0, i));
    } else {
        assert(s.subrange(0, i) =~= s);
    }
}

fn hex_digit(c: char) -> (r: Option<u64>)
    ensures
        match hex_value(c) {
            Some(v) => r == Some(v as u64),
            None => r is None,
        },
{
    let u = c as u32;
    if 48 <= u && u <= 57 {
        Some((u - 48) as u64)
    } else if 97 <= u && u <= 102 {
        Some((u - 87) as u64)
    } else if 65 <= u && u <= 70 {
        Some((u - 55) as u64)
    } else {
        None
    }
}

/// Reads a hexadecimal `u32` the way `u32::from_str_radix(_, 16)` does.
pub fn parse_hex_u32(s: &Vec<char>) -> (r: Option<u32>)
    ensures
        r == parse_hex_u32_spec(s@),
{
    let from: usize = if s.len() > 0 && s[0] == '+' {
        1
    } else {
        0
    };
    let ghost body = s@.subrange(from as int, s.len() as int);
    assert(body =~= (if s@.len() > 0 && s@[0] == '+' {
        s@.drop_first()
    } else {
        s@
    }));
    if from == s.len() {
        return None;
    }
    let mut acc: u64 = 0;
    let mut i: usize = from;
    while i < s.len()
        invariant
            from < s.len(),
            from <= i <= s.len(),
            body == s@.subrange(from as int, s.len() as int),
            body == (if s@.len() > 0 && s@[0] == '+' {
                s@.drop_first()
            } else {
                s@
            }),
            all_hex(body.subrange(0, i - from)),
            acc == hex_digits_value(body.subrange(0, i - from)),
            acc <= u32::MAX,
        decreases s.len() - i,
    {
        let ghost pre = body.subrange(0, i - from);
        let ghost next = body.subrange(0, i + 1 - from);
        assert(next.drop_last() =~= pre);
        let d = match hex_digit(s[i]) {
            Some(d) => d,
            None => {
                assert(hex_value(body[i - from]) is None);
                return None;
            },
        };
        acc = acc * 16 + d;
        i = i + 1;
        assert(all_hex(next));
        if acc > 0xffff_ffff {
            proof {
                if all_hex(body) {
                    lemma_hex_grow(body, i - from);
                }
            }
            return None;
        }
    }
    assert(body.subrange(0, i - from) =~= body);
    Some(acc as u32)
}

/// `s` without every leading `0x`.
pub open spec fn strip_hex_prefixes(s: Seq<char>) -> Seq<char>
    decreases s.len(),
{
    if s.len() >= 2 && s[0] == '0' && s[1] == 'x' {
        strip_hex_prefixes(s.subrange(2, s.len() as int))
    } else {
        s
    }
}

/// The hash that a header line `# HASH 0x........` states.
pub open spec fn header_hash(line: Seq<char>) -> Result<u32, IntegrityError> {
    let t = trim(line);
    if !has_prefix(t, "# HASH "@) {
        Err(IntegrityError::MissingHeader)
    } else {
        match parse_hex_u32_spec(strip_hex_prefixes(t.subrange(7, t.len() as int))) {
            Some(v) => Ok(v),
            None => Err(IntegrityError::MalformedHash),
        }
    }
}

/// Reads the hash stated by an instruction file's first line.
pub fn toml_hash_reader(first_line: &str) -> (r: Result<u32, IntegrityError>)
    ensures
        r == header_hash(first_line@),
{
    let chars = chars_of(first_line);
    let a = skip_whitespace(&chars);
    let b = trimmed_end(&chars, a);
    let ghost t = trim(first_line@);
    assert(t == chars@.subrange(a as int, b as int));
    let mut t_chars: Vec<char> = Vec::new();
    let mut k: usize = a;
    while k < b
        invariant
            a <= k <= b <= chars.len(),
            t_chars@ == chars@.subrange(a as int, k as int),
        decreases b - k,
    {
        t_chars.push(chars[k]);
        k = k + 1;
        assert(t_chars@ =~= chars@.subrange(a as int, k as int));
    }
    let prefix = chars_of("# HASH ");
    proof {
        reveal_strlit("# HASH ");
    }
    assert(t_chars@.subrange(0, t_chars.len() as int) =~= t_chars@);
    if !starts_with_at(&t_chars, 0, &prefix) {
        return Err(IntegrityError::MissingHeader);
    }
    let mut p: usize = 7;
    while p < t_chars.len() && t_chars.len() - p >= 2 && t_chars[p] == '0' && t_chars[p + 1]
        == 'x'
        invariant
            7 <= p <= t_chars.len(),
            strip_hex_prefixes(t_chars@.subrange(7, t_chars.len() as int)) == strip_hex_prefixes(
                t_chars@.subrange(p as int, t_chars.len() as int),
            ),
        decreases t_chars.len() - p,
    {
        assert(t_chars@.subrange(p as int, t_chars.len() as int).subrange(
            2,
            t_chars.len() - p,
        ) =~= t_chars@.subrange(p + 2, t_chars.len() as int));
        p = p + 2;
    }
    let mut rest: Vec<char> = Vec::new();
    let mut q: usize = p;
    while q < t_chars.len()
        invariant
            p <= q <= t_chars.len(),
            rest@ == t_chars@.subrange(p as int, q as int),
        decreases t_chars.len() - q,
    {
        rest.push(t_chars[q]);
        q = q + 1;
        assert(rest@ =~= t_chars@.subrange(p as int, q as int));
    }
    assert(strip_hex_prefixes(rest@) == rest@);
    match parse_hex_u32(&rest) {
        Some(v) => Ok(v),
        None => Err(IntegrityError::MalformedHash),
    }
}

/// An instruction file is intact when its header states the hash of its body.
pub open spec fn toml_intact(first_line: Seq<char>, content: Seq<u8>) -> Result<(), IntegrityError> {
    match header_hash(first_line) {
        Err(e) => Err(e),
        Ok(h) => if h == body_hash(content) {
            Ok(())
        } else {
            Err(IntegrityError::Tampered)
        },
    }
}

/// Checks an instruction file, given its first line and its whole content.
pub fn sanity_check_toml(first_line: &str, content: &Vec<u8>) -> (r: Result<(), IntegrityError>)
    ensures
        r == toml_intact(first_line@, content@),
{
    let actual = toml_compute_fnv1a_32(content);
    match toml_hash_reader(first_line) {
        Err(e) => Err(e),
        Ok(h) => if h == actual {
            Ok(())
        } else {
            Err(IntegrityError::Tampered)
        },
    }
}

pub open spec fn upper_hex_digit(d: int) -> char {
    if d < 10 {
        (48 + d) as char
    } else {
        (55 + d) as char
    }
}

/// `hash` as eight upper-case hexadecimal digits.
pub open spec fn hex8(hash: u32) -> Seq<char> {
    Seq::new(8, |i: int| upper_hex_digit((hash as int / pow16(7 - i)) % 16))
}

pub open spec fn pow16(n: int) -> int
    decreases n,
{
    if n <= 0 {
        1
    } else {
        16 * pow16(n - 1)
    }
}

proof fn lemma_pow16_pos(n: int)
    ensures
        pow16(n) >= 1,
    decreases n,
{
    if n > 0 {
        lemma_pow16_pos(n - 1);
    }
}

/// The header line that states `hash`: `# HASH 0x` and eight upper-case digits.
pub fn hash_header(hash: u32) -> (r: String)
    ensures
        r@ == "# HASH 0x"@ + hex8(hash),
{
    let mut out = chars_of("# HASH 0x");
    let ghost base = out@;
    let mut i: usize = 0;
    let mut div: u32 = 0x1000_0000;
    proof {
        reveal_with_fuel(pow16, 8);
    }
    while i < 8
        invariant
            i <= 8,
            div as int == pow16(7 - i as int),
            div > 0,
            out@ == base + hex8(hash).subrange(0, i as int),
        decreases 8 - i,
    {
        let d = (hash / div) % 16;
        let c = if d < 10 {
            match d {
                0 => '0',
                1 => '1',
                2 => '2',
                3 => '3',
                4 => '4',
                5 => '5',
                6 => '6',
                7 => '7',
                8 => '8',
                _ => '9',
            }
        } else {
            match d {
                10 => 'A',
                11 => 'B',
                12 => 'C',
                13 => 'D',
                14 => 'E',
                _ => 'F',
            }
        };
        assert(c == upper_hex_digit((hash as int / pow16(7 - i as int)) % 16));
        out.push(c);
        if i < 7 {
            assert(pow16(7 - i as int) == 16 * pow16(7 - (i + 1) as int));
            proof {
                lemma_pow16_pos(7 - (i + 1) as int);
            }
            div = div / 16;
        }
        i = i + 1;
        assert(out@ =~= base + hex8(hash).subrange(0, i as int));
    }
    string_from_chars(&out)
}

/// The version that a script's first line declares: the trimmed line past
/// `# VERSION `.
pub open spec fn declared_version(first_line: Seq<char>) -> Option<Seq<char>> {
    let t = trim(first_line);
    if has_prefix(first_line, "# VERSION "@) && t.len() >= 10 {
        Some(t.subrange(10, t.len() as int))
    } else {
        None
    }
}

/// Checks a helper script's first line against the version it must declare.
pub open spec fn version_check(first_line: Seq<char>, expected: Seq<char>) -> Result<(), IntegrityError> {
    match declared_version(first_line) {
        None => Err(IntegrityError::MissingVersion),
        Some(v) => if v == expected {
            Ok(())
        } else {
            Err(IntegrityError::VersionMismatch)
        },
    }
}

/// Reads the version a script declares on its first line.
pub fn read_version_from_script(first_line: &str) -> (r: Option<String>)
    ensures
        match declared_version(first_line@) {
            Some(v) => r is Some && r->0@ == v,
            None => r is None,
        },
{
    let chars = chars_of(first_line);
    proof {
        reveal_strlit("# VERSION ");
    }
    assert(chars@.subrange(0, chars.len() as int) =~= chars@);
    if !starts_with_at(&chars, 0, &chars_of("# VERSION ")) {
        return None;
    }
    let a = skip_whitespace(&chars);
    let b = trimmed_end(&chars, a);
    assert(trim(first_line@) == chars@.subrange(a as int, b as int));
    assert(chars@[0] == '#');
    assert(a == 0);
    let mut v: Vec<char> = Vec::new();
    let mut k: usize = 10;
    if b < 10 {
        return None;
    }
    while k < b
        invariant
            10 <= k <= b,
            b <= chars.len(),
            v@ == chars@.subrange(10, k as int),
        decreases b - k,
    {
        v.push(chars[k]);
        k = k + 1;
        assert(v@ =~= chars@.subrange(10, k as int));
    }
    Some(string_from_chars(&v))
}

/// The report formatting script, the version it declares, and its hash.
pub const EXCEL_FORMAT_SCRIPT: (&'static str, &'static str, u32) = (
    "resources/excel_format.py",
    "1.1.4",
    0xB069_8043,
);

/// The email template script, the version it declares, and its hash.
pub const EMAIL_TEMPLATE_SCRIPT: (&'static str, &'static str, u32) = (
    "resources/excel_to_email_template.py",
    "1.1.6",
    0xA06F_D7C9,
);

/// A helper script is intact when it declares the expected version and its
/// whole content hashes to the expected value.
pub open spec fn script_intact(
    first_line: Seq<char>,
    content: Seq<u8>,
    version: Seq<char>,
    hash: u32,
) -> Result<(), IntegrityError> {
    match version_check(first_line, version) {
        Err(e) => Err(e),
        Ok(_) => if fnv_hash(content) == hash {
            Ok(())
        } else {
            Err(IntegrityError::Tampered)
        },
    }
}

/// Checks a helper script, given its first line and its whole content.
pub fn sanity_check_python_script(
    first_line: &str,
    content: &Vec<u8>,
    version: &str,
    hash: u32,
) -> (r: Result<(), IntegrityError>)
    ensures
        r == script_intact(first_line@, content@, version@, hash),
{
    match read_version_from_script(first_line) {
        None => Err(IntegrityError::MissingVersion),
        Some(v) => {
            let a = chars_of(v.as_str());
            let b = chars_of(version);
            if !crate::classify::same_chars(&a, &b) {
                return Err(IntegrityError::VersionMismatch);
            }
            if fnv1a_32(content) == hash {
                Ok(())
            } else {
                Err(IntegrityError::Tampered)
            }
        },
    }
}

} // verus!
