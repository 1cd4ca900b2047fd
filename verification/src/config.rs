//! Coercion of configuration values that may arrive as text, and the
//! PostgreSQL backend's connection settings.
use vstd::prelude::*;
use vstd::string::StrSliceExecFns;

use crate::text::{chars_of, decimal, digit_char, is_digit, lemma_decimal_digits};

verus! {

/// True for the characters with the Unicode `White_Space` property, which
/// `char::is_whitespace` and `str::trim` use.
pub open spec fn is_whitespace(c: char) -> bool {
    ||| ('\u{9}' <= c <= '\u{d}')
    ||| c == ' '
    ||| c == '\u{85}'
    ||| c == '\u{a0}'
    ||| c == '\u{1680}'
    ||| ('\u{2000}' <= c <= '\u{200a}')
    ||| c == '\u{2028}'
    ||| c == '\u{2029}'
    ||| c == '\u{202f}'
    ||| c == '\u{205f}'
    ||| c == '\u{3000}'
}

fn is_whitespace_exec(c: char) -> (r: bool)
    ensures
        r == is_whitespace(c),
{
    ('\u{9}' <= c && c <= '\u{d}') || c == ' ' || c == '\u{85}' || c == '\u{a0}' || c == '\u{1680}'
        || ('\u{2000}' <= c && c <= '\u{200a}') || c == '\u{2028}' || c == '\u{2029}' || c
        == '\u{202f}' || c == '\u{205f}' || c == '\u{3000}'
}

/// `s` without its leading whitespace.
pub open spec fn trim_start(s: Seq<char>) -> Seq<char>
    decreases s.len(),
{
    if s.len() > 0 && is_whitespace(s[0]) {
        trim_start(s.drop_first())
    } else {
        s
    }
}

/// `s` without its trailing whitespace.
pub open spec fn trim_end(s: Seq<char>) -> Seq<char>
    decreases s.len(),
{
    if s.len() > 0 && is_whitespace(s.last()) {
        trim_end(s.drop_last())
    } else {
        s
    }
}

/// `s` without leading and trailing whitespace, as `str::trim` gives it.
pub open spec fn trim(s: Seq<char>) -> Seq<char> {
    trim_end(trim_start(s))
}

proof fn lemma_trim_start_at(s: Seq<char>, i: int)
    requires
        0 <= i <= s.len(),
        forall|j: int| 0 <= j < i ==> is_whitespace(#[trigger] s[j]),
        i < s.len() ==> !is_whitespace(s[i]),
    ensures
        trim_start(s) == s.skip(i),
    decreases i,
{
    if i == 0 {
        assert(s.skip(0) =~= s);
    } else {
        assert forall|j: int| 0 <= j < i - 1 implies is_whitespace(#[trigger] s.drop_first()[j]) by {
            assert(s.drop_first()[j] == s[j + 1]);
        }
        lemma_trim_start_at(s.drop_first(), i - 1);
        assert(s.drop_first().skip(i - 1) =~= s.skip(i));
    }
}

proof fn lemma_trim_end_at(s: Seq<char>, k: int)
    requires
        0 <= k <= s.len(),
        forall|j: int| k <= j < s.len() ==> is_whitespace(#[trigger] s[j]),
        k > 0 ==> !is_whitespace(s[k - 1]),
    ensures
        trim_end(s) == s.take(k),
    decreases s.len() - k,
{
    if k == s.len() {
        assert(s.take(k) =~= s);
    } else {
        assert forall|j: int| k <= j < s.len() - 1 implies is_whitespace(#[trigger] s.drop_last()[j]) by {
            assert(s.drop_last()[j] == s[j]);
        }
        lemma_trim_end_at(s.drop_last(), k);
        assert(s.drop_last().take(k) =~= s.take(k));
    }
}

/// Returns `s` without leading and trailing whitespace.
pub fn trim_text(s: &str) -> (t: &str)
    ensures
        t@ == trim(s@),
{
    let chars = chars_of(s);
    let n = chars.len();
    let mut start: usize = 0;
    while start < n && is_whitespace_exec(chars[start])
        invariant
            chars@ == s@,
            n == chars@.len(),
            start <= n,
            forall|j: int| 0 <= j < start ==> is_whitespace(#[trigger] chars@[j]),
        decreases n - start,
    {
        start += 1;
    }
    let mut end: usize = n;
    while end > start && is_whitespace_exec(chars[end - 1])
        invariant
            chars@ == s@,
            n == chars@.len(),
            start <= end <= n,
            forall|j: int| end <= j < n ==> is_whitespace(#[trigger] chars@[j]),
        decreases end,
    {
        end -= 1;
    }
    proof {
        lemma_trim_start_at(s@, start as int);
        let mid = s@.skip(start as int);
        assert forall|j: int| end - start <= j < mid.len() implies is_whitespace(#[trigger] mid[j]) by {
            assert(mid[j] == chars@[start + j]);
        }
        if end > start {
            assert(mid[end - start - 1] == chars@[end - 1]);
        }
        lemma_trim_end_at(mid, end - start);
        assert(mid.take(end - start) =~= s@.subrange(start as int, end as int));
    }
    s.substring_char(start, end)
}

/// The outcome of reading an unsigned integer from text as the standard
/// library's `from_str` does.
pub enum UintParse {
    Value(nat),
    Empty,
    InvalidDigit,
    Overflow,
}

/// The value of a decimal digit character.
pub open spec fn digit_value(c: char) -> nat {
    (c as u32 - '0' as u32) as nat
}

/// Reads the digits `d` after the value `acc` already read, stopping at the
/// first character that is not a digit or at the first step past `max`.
pub open spec fn scan_digits(d: Seq<char>, acc: nat, max: nat) -> UintParse
    decreases d.len(),
{
    if d.len() == 0 {
        UintParse::Value(acc)
    } else if !is_digit(d[0]) {
        UintParse::InvalidDigit
    } else if acc * 10 + digit_value(d[0]) > max {
        UintParse::Overflow
    } else {
        scan_digits(d.drop_first(), acc * 10 + digit_value(d[0]), max)
    }
}

/// Reads an unsigned integer no greater than `max` from `s`: an optional `+`
/// and one or more decimal digits.
pub open spec fn parse_uint(s: Seq<char>, max: nat) -> UintParse {
    if s.len() == 0 {
        UintParse::Empty
    } else if (s[0] == '+' || s[0] == '-') && s.len() == 1 {
        UintParse::InvalidDigit
    } else if s[0] == '+' {
        scan_digits(s.drop_first(), 0, max)
    } else {
        scan_digits(s, 0, max)
    }
}

/// The text of the standard library's error for each failed parse.
pub open spec fn uint_error_text(p: UintParse) -> Seq<char> {
    match p {
        UintParse::Empty => "cannot parse integer from empty string"@,
        UintParse::InvalidDigit => "invalid digit found in string"@,
        _ => "number too large to fit in target type"@,
    }
}

proof fn lemma_scan_step(d: Seq<char>, i: int, acc: nat, max: nat)
    requires
        0 <= i < d.len(),
    ensures
        is_digit(d[i]) && acc * 10 + digit_value(d[i]) <= max ==> scan_digits(d.skip(i), acc, max)
            == scan_digits(d.skip(i + 1), acc * 10 + digit_value(d[i]), max),
        !is_digit(d[i]) ==> scan_digits(d.skip(i), acc, max) == UintParse::InvalidDigit,
        is_digit(d[i]) && acc * 10 + digit_value(d[i]) > max ==> scan_digits(d.skip(i), acc, max)
            == UintParse::Overflow,
{
    assert(d.skip(i)[0] == d[i]);
    assert(d.skip(i).drop_first() =~= d.skip(i + 1));
}

/// Reads an unsigned integer no greater than `max` from `s`, answering as
/// `parse_uint` does.
pub fn parse_uint_text(s: &str, max: u64) -> (r: Result<u64, &'static str>)
    ensures
        match r {
            Ok(v) => v <= max && parse_uint(s@, max as nat) == UintParse::Value(v as nat),
            Err(m) => !(parse_uint(s@, max as nat) is Value) && m@ == uint_error_text(
                parse_uint(s@, max as nat),
            ),
        },
{
    proof {
        reveal_strlit("cannot parse integer from empty string");
        reveal_strlit("invalid digit found in string");
        reveal_strlit("number too large to fit in target type");
    }
    let chars = chars_of(s);
    let n = chars.len();
    if n == 0 {
        return Err("cannot parse integer from empty string");
    }
    if (chars[0] == '+' || chars[0] == '-') && n == 1 {
        return Err("invalid digit found in string");
    }
    let mut i: usize = if chars[0] == '+' {
        1
    } else {
        0
    };
    let ghost d = if chars@[0] == '+' {
        s@.drop_first()
    } else {
        s@
    };
    let ghost off = i as int;
    assert(d =~= s@.skip(off));
    assert(d.skip(0) =~= d);
    let mut acc: u64 = 0;
    while i < n
        invariant
            chars@ == s@,
            n == chars@.len(),
            0 <= off <= 1,
            off <= i <= n,
            d == s@.skip(off),
            acc <= max,
            parse_uint(s@, max as nat) == scan_digits(d.skip(i - off), acc as nat, max as nat),
        decreases n - i,
    {
        let c = chars[i];
        proof {
            assert(d[i - off] == c);
            lemma_scan_step(d, i - off, acc as nat, max as nat);
        }
        if c < '0' || c > '9' {
            return Err("invalid digit found in string");
        }
        let dv = (c as u32 - '0' as u32) as u64;
        if dv > max || acc > (max - dv) / 10 {
            assert(acc * 10 + dv > max) by (nonlinear_arith)
                requires
                    dv > max || acc > (max - dv) / 10;
            return Err("number too large to fit in target type");
        }
        assert(acc * 10 + dv <= max) by (nonlinear_arith)
            requires
                acc <= (max - dv) / 10,
                dv <= max;
        acc = acc * 10 + dv;
        assert(d.skip(i + 1 - off) =~= d.skip(i - off + 1));
        i += 1;
    }
    assert(d.skip(n - off).len() == 0);
    Ok(acc)
}


/// A configuration value as it arrived: in its native type, or as text.
pub enum MaybeString<T> {
    Native(T),
    Text(String),
}

/// The message of the error for text that does not read as a `what`.
pub open spec fn coerce_error_text(what: Seq<char>, s: Seq<char>, reason: Seq<char>) -> Seq<char> {
    "invalid "@ + what + " value \""@ + s + "\": "@ + reason
}

fn coerce_error(what: &str, s: &str, reason: &str) -> (m: String)
    ensures
        m@ == coerce_error_text(what@, s@, reason@),
{
    let mut m = "invalid ".to_owned();
    m.append(what);
    m.append(" value \"");
    m.append(s);
    m.append("\": ");
    m.append(reason);
    m
}

/// What reading `s` (surrounding whitespace ignored) as an unsigned integer
/// no greater than `max` gives: the value, or the message of the error.
pub open spec fn coerce_uint_spec(what: Seq<char>, s: Seq<char>, max: nat) -> Result<nat, Seq<char>> {
    match parse_uint(trim(s), max) {
        UintParse::Value(v) => Ok(v),
        p => Err(coerce_error_text(what, s, uint_error_text(p))),
    }
}

fn coerce_uint(what: &str, s: &str, max: u64) -> (r: Result<u64, String>)
    ensures
        match r {
            Ok(v) => v <= max && coerce_uint_spec(what@, s@, max as nat) == Ok::<nat, Seq<char>>(v as nat),
            Err(m) => coerce_uint_spec(what@, s@, max as nat) == Err::<nat, Seq<char>>(m@),
        },
{
    match parse_uint_text(trim_text(s), max) {
        Ok(v) => Ok(v),
        Err(reason) => Err(coerce_error(what, s, reason)),
    }
}

/// Read a `u32` from either a number or its string form.
pub fn coerce_u32(v: MaybeString<u32>) -> (r: Result<u32, String>)
    ensures
        match v {
            MaybeString::Native(n) => r matches Ok(x) && x == n,
            MaybeString::Text(s) => match r {
                Ok(x) => coerce_uint_spec("u32"@, s@, u32::MAX as nat) == Ok::<nat, Seq<char>>(x as nat),
                Err(m) => coerce_uint_spec("u32"@, s@, u32::MAX as nat) == Err::<nat, Seq<char>>(m@),
            },
        },
{
    match v {
        MaybeString::Native(n) => Ok(n),
        MaybeString::Text(s) => match coerce_uint("u32", s.as_str(), u32::MAX as u64) {
            Ok(x) => Ok(x as u32),
            Err(m) => Err(m),
        },
    }
}

/// Read a `u16` from either a number or its string form.
pub fn coerce_u16(v: MaybeString<u16>) -> (r: Result<u16, String>)
    ensures
        match v {
            MaybeString::Native(n) => r matches Ok(x) && x == n,
            MaybeString::Text(s) => match r {
                Ok(x) => coerce_uint_spec("u16"@, s@, u16::MAX as nat) == Ok::<nat, Seq<char>>(x as nat),
                Err(m) => coerce_uint_spec("u16"@, s@, u16::MAX as nat) == Err::<nat, Seq<char>>(m@),
            },
        },
{
    match v {
        MaybeString::Native(n) => Ok(n),
        MaybeString::Text(s) => match coerce_uint("u16", s.as_str(), u16::MAX as u64) {
            Ok(x) => Ok(x as u16),
            Err(m) => Err(m),
        },
    }
}

/// Read an optional `u32`: absent stays absent, present values as `coerce_u32`.
pub fn coerce_opt_u32(v: Option<MaybeString<u32>>) -> (r: Result<Option<u32>, String>)
    ensures
        match v {
            None => r matches Ok(x) && x is None,
            Some(MaybeString::Native(n)) => r matches Ok(x) && x == Some(n),
            Some(MaybeString::Text(s)) => match r {
                Ok(x) => x matches Some(y) && coerce_uint_spec("u32"@, s@, u32::MAX as nat) == Ok::<
                    nat,
                    Seq<char>,
                >(y as nat),
                Err(m) => coerce_uint_spec("u32"@, s@, u32::MAX as nat) == Err::<nat, Seq<char>>(m@),
            },
        },
{
    match v {
        None => Ok(None),
        Some(inner) => match coerce_u32(inner) {
            Ok(x) => Ok(Some(x)),
            Err(m) => Err(m),
        },
    }
}

/// The text of the standard library's error for a string that is not a bool.
pub open spec fn bool_error_text() -> Seq<char> {
    "provided string was not `true` or `false`"@
}

/// What reading `s` (surrounding whitespace ignored) as a bool gives.
pub open spec fn coerce_bool_spec(s: Seq<char>) -> Result<bool, Seq<char>> {
    if trim(s) == "true"@ {
        Ok(true)
    } else if trim(s) == "false"@ {
        Ok(false)
    } else {
        Err(coerce_error_text("bool"@, s, bool_error_text()))
    }
}

/// Read a `bool` from either a boolean or its string form (`"true"`/`"false"`).
pub fn coerce_bool(v: MaybeString<bool>) -> (r: Result<bool, String>)
    ensures
        match v {
            MaybeString::Native(b) => r matches Ok(x) && x == b,
            MaybeString::Text(s) => match r {
                Ok(x) => coerce_bool_spec(s@) == Ok::<bool, Seq<char>>(x),
                Err(m) => coerce_bool_spec(s@) == Err::<bool, Seq<char>>(m@),
            },
        },
{
    match v {
        MaybeString::Native(b) => Ok(b),
        MaybeString::Text(s) => {
            let t = trim_text(s.as_str());
            if crate::text::str_eq(t, "true") {
                Ok(true)
            } else if crate::text::str_eq(t, "false") {
                Ok(false)
            } else {
                Err(coerce_error("bool", s.as_str(), "provided string was not `true` or `false`"))
            }
        },
    }
}

/// Minimum number of connections allowed per pool.
pub const MIN_POOL_SIZE: u32 = 10;

/// `PostgreSQL` storage backend configuration.
pub struct PostgresConfig {
    pub connection_string: String,
    pub pool_size: u32,
    /// Maximum item size in bytes for post-update validation.
    pub max_item_size_bytes: usize,
}

/// The pool size the backend uses: the configured size, raised to the
/// minimum of ten connections when it is below it.
pub fn effective_pool_size(configured: u32) -> (size: u32)
    ensures
        size == if configured < MIN_POOL_SIZE {
            MIN_POOL_SIZE
        } else {
            configured
        },
{
    if configured < MIN_POOL_SIZE {
        MIN_POOL_SIZE
    } else {
        configured
    }
}

/// The connections a pool keeps open from the start: two, or fewer when the
/// pool is smaller.
pub fn min_pool_connections(pool_size: u32) -> (n: u32)
    ensures
        n == if pool_size < 2 {
            pool_size
        } else {
            2
        },
{
    if pool_size < 2 {
        pool_size
    } else {
        2
    }
}

/// The connection string of a separate data database, when the catalog
/// records a non-empty one; otherwise the data lives in the catalog
/// database.
pub fn separate_data_connection(setting: Option<&str>) -> (r: Option<&str>)
    ensures
        match setting {
            Some(s) => if s@.len() > 0 {
                r == Some(s)
            } else {
                r is None
            },
            None => r is None,
        },
{
    match setting {
        Some(s) => if s.unicode_len() > 0 {
            Some(s)
        } else {
            None
        },
        None => None,
    }
}

/// The data database name shown in the startup banner.
pub fn data_database_label(name: Option<String>) -> (label: String)
    ensures
        label@ == match name {
            Some(n) => n@,
            None => "(not configured)"@,
        },
{
    match name {
        Some(n) => n,
        None => "(not configured)".to_owned(),
    }
}

/// The initial index propagation delay in milliseconds: the stored setting
/// when it reads as a `u64`, else ten.
pub fn initial_propagation_delay(setting: Option<&str>) -> (ms: u64)
    ensures
        ms == match setting {
            Some(v) => match parse_uint(v@, u64::MAX as nat) {
                UintParse::Value(x) => x,
                _ => 10,
            },
            None => 10,
        },
{
    match setting {
        Some(v) => match parse_uint_text(v, u64::MAX) {
            Ok(x) => x,
            Err(_) => 10,
        },
        None => 10,
    }
}


/// Reading the digits of `m` before `rest` amounts to reading `rest` after
/// the value `m`, when `m` does not exceed the bound.
proof fn lemma_scan_decimal(m: nat, rest: Seq<char>, max: nat)
    requires
        m <= max,
    ensures
        scan_digits(decimal(m) + rest, 0, max) == scan_digits(rest, m, max),
    decreases m,
{
    let d = m % 10;
    assert(digit_value(digit_char(d)) == d);
    assert(is_digit(digit_char(d)));
    if m < 10 {
        let s = decimal(m) + rest;
        assert(s[0] == digit_char(m));
        assert(s.drop_first() =~= rest);
    } else {
        lemma_scan_decimal(m / 10, seq![digit_char(d)] + rest, max);
        assert(decimal(m) + rest =~= decimal(m / 10) + (seq![digit_char(d)] + rest));
        let t = seq![digit_char(d)] + rest;
        assert(t[0] == digit_char(d));
        assert(t.drop_first() =~= rest);
        assert((m / 10) * 10 + d == m);
    }
}

/// A number no greater than the bound, rendered in decimal and read back
/// (surrounding whitespace ignored), gives the number.
pub proof fn lemma_decimal_reads_back(n: nat, max: nat)
    requires
        n <= max,
    ensures
        parse_uint(trim(decimal(n)), max) == UintParse::Value(n),
{
    let s = decimal(n);
    lemma_decimal_digits(n);
    assert(!is_whitespace(s[0]));
    assert(!is_whitespace(s.last()));
    assert(trim_start(s) == s);
    assert(trim_end(s) == s);
    lemma_scan_decimal(n, seq![], max);
    assert(s + seq![] =~= s);
}

/// Text that starts with a minus sign never reads as an unsigned integer.
pub proof fn lemma_negative_rejected(s: Seq<char>, max: nat)
    requires
        s.len() > 0,
        s[0] == '-',
    ensures
        !(parse_uint(s, max) is Value),
{
}

} // verus!
