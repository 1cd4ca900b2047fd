//! Character-level helpers shared by the key, ARN and configuration code.
use vstd::prelude::*;
use vstd::string::StrSliceExecFns;

verus! {

broadcast use vstd::string::group_string_axioms;

/// The character that stands for the decimal digit `d`.
pub open spec fn digit_char(d: nat) -> char {
    if d == 0 {
        '0'
    } else if d == 1 {
        '1'
    } else if d == 2 {
        '2'
    } else if d == 3 {
        '3'
    } else if d == 4 {
        '4'
    } else if d == 5 {
        '5'
    } else if d == 6 {
        '6'
    } else if d == 7 {
        '7'
    } else if d == 8 {
        '8'
    } else {
        '9'
    }
}

/// True for the ten decimal digit characters.
pub open spec fn is_digit(c: char) -> bool {
    '0' <= c <= '9'
}

/// Every character of a decimal rendering is a digit, and there is at least one.
pub proof fn lemma_decimal_digits(n: nat)
    ensures
        decimal(n).len() >= 1,
        forall|i: int| 0 <= i < decimal(n).len() ==> is_digit(#[trigger] decimal(n)[i]),
        n >= 10 ==> decimal(n).len() >= 2,
    decreases n,
{
    if n >= 10 {
        lemma_decimal_digits(n / 10);
    }
}

/// Distinct numbers have distinct decimal renderings.
pub proof fn lemma_decimal_injective(n: nat, m: nat)
    requires
        decimal(n) == decimal(m),
    ensures
        n == m,
    decreases n,
{
    lemma_decimal_digits(n);
    lemma_decimal_digits(m);
    if n >= 10 && m >= 10 {
        let a = decimal(n);
        assert(a.drop_last() == decimal(n / 10));
        assert(decimal(m).drop_last() == decimal(m / 10));
        lemma_decimal_injective(n / 10, m / 10);
        assert(a.last() == digit_char(n % 10));
        assert(decimal(m).last() == digit_char(m % 10));
        assert(n % 10 == m % 10);
        assert(n == 10 * (n / 10) + n % 10);
        assert(m == 10 * (m / 10) + m % 10);
    } else if n < 10 && m < 10 {
        assert(decimal(n)[0] == digit_char(n));
        assert(decimal(m)[0] == digit_char(m));
    } else {
        assert(decimal(n).len() != decimal(m).len());
    }
}

/// Ten to the power `k`.
pub open spec fn pow10(k: nat) -> nat
    decreases k,
{
    if k == 0 {
        1
    } else {
        10 * pow10((k - 1) as nat)
    }
}

/// A number with `k + 1` digits renders as `k + 1` characters.
pub proof fn lemma_decimal_len(n: nat, k: nat)
    requires
        pow10(k) <= n < pow10(k + 1),
    ensures
        decimal(n).len() == k + 1,
    decreases k,
{
    if k > 0 {
        assert(pow10(k) == 10 * pow10((k - 1) as nat));
        assert(pow10(k + 1) == 10 * pow10(k));
        lemma_decimal_len(n / 10, (k - 1) as nat);
    } else {
        assert(pow10(1) == 10 * pow10(0));
    }
}

/// The decimal rendering of `n`, most significant digit first, without
/// leading zeros (zero renders as "0").
pub open spec fn decimal(n: nat) -> Seq<char>
    decreases n,
{
    if n < 10 {
        seq![digit_char(n)]
    } else {
        decimal(n / 10).push(digit_char(n % 10))
    }
}

/// A one-character string holding the decimal digit `d`.
pub fn digit_str(d: u64) -> (s: &'static str)
    requires
        d < 10,
    ensures
        s@ == seq![digit_char(d as nat)],
{
    proof {
        reveal_strlit("0");
        reveal_strlit("1");
        reveal_strlit("2");
        reveal_strlit("3");
        reveal_strlit("4");
        reveal_strlit("5");
        reveal_strlit("6");
        reveal_strlit("7");
        reveal_strlit("8");
        reveal_strlit("9");
    }
    match d {
        0 => "0",
        1 => "1",
        2 => "2",
        3 => "3",
        4 => "4",
        5 => "5",
        6 => "6",
        7 => "7",
        8 => "8",
        _ => "9",
    }
}

/// Appends the decimal rendering of `n` to `out`.
pub fn push_decimal(out: &mut String, n: u64)
    ensures
        final(out)@ == old(out)@ + decimal(n as nat),
    decreases n,
{
    if n >= 10 {
        push_decimal(out, n / 10);
    }
    out.append(digit_str(n % 10));
    proof {
        assert(old(out)@ + decimal(n as nat) =~= old(out)@ + (if n >= 10 { decimal((n / 10) as nat) } else { seq![] }) + seq![digit_char((n % 10) as nat)]);
    }
}

/// The decimal rendering of an integer, with a leading '-' when negative.
pub open spec fn signed_decimal(n: int) -> Seq<char> {
    if n < 0 {
        seq!['-'] + decimal((-n) as nat)
    } else {
        decimal(n as nat)
    }
}

/// `s` preceded by as many '0' characters as bring it to `width`
/// characters (none when it is already that long).
pub open spec fn zero_pad(s: Seq<char>, width: nat) -> Seq<char> {
    Seq::new(if s.len() < width { (width - s.len()) as nat } else { 0 }, |i: int| '0') + s
}

/// The rendering of `n` that `format!("{n:0w$}")` gives for width `w`: the
/// sign first, then the digits zero-padded so that the whole is `w` long.
pub open spec fn padded_signed_decimal(n: int, width: nat) -> Seq<char> {
    if n < 0 {
        seq!['-'] + zero_pad(decimal((-n) as nat), if width > 0 { (width - 1) as nat } else { 0 })
    } else {
        zero_pad(decimal(n as nat), width)
    }
}

/// The magnitude of `n` as an unsigned integer.
fn magnitude(n: i64) -> (m: u64)
    ensures
        m as int == if n < 0 { -n } else { n as int },
{
    if n < 0 {
        let k: i64 = -(n + 1);
        (k as u64) + 1
    } else {
        n as u64
    }
}

/// Appends the decimal rendering of `n`, with its sign, to `out`.
pub fn push_signed_decimal(out: &mut String, n: i64)
    ensures
        final(out)@ == old(out)@ + signed_decimal(n as int),
{
    if n < 0 {
        out.append("-");
        proof {
            reveal_strlit("-");
        }
    }
    let ghost mid = out@;
    push_decimal(out, magnitude(n));
    proof {
        if n < 0 {
            assert(out@ =~= old(out)@ + (seq!['-'] + decimal((-n) as nat)));
        }
    }
}

/// Appends `count` '0' characters to `out`.
fn push_zeros(out: &mut String, count: usize)
    ensures
        final(out)@ == old(out)@ + Seq::new(count as nat, |i: int| '0'),
{
    let mut k: usize = 0;
    while k < count
        invariant
            k <= count,
            out@ == old(out)@ + Seq::new(k as nat, |i: int| '0'),
        decreases count - k,
    {
        out.append("0");
        proof {
            reveal_strlit("0");
            assert(out@ =~= old(out)@ + Seq::new((k + 1) as nat, |i: int| '0'));
        }
        k += 1;
    }
}

/// Appends `n` to `out` as `format!("{n:0w$}")` renders it for width `w`.
pub fn push_padded_signed_decimal(out: &mut String, n: i64, width: usize)
    ensures
        final(out)@ == old(out)@ + padded_signed_decimal(n as int, width as nat),
{
    let mut digits = String::new();
    let m = magnitude(n);
    push_decimal(&mut digits, m);
    assert(digits@ =~= decimal(m as nat));
    let len = digits.unicode_len();
    let target: usize = if n < 0 {
        if width > 0 { width - 1 } else { 0 }
    } else {
        width
    };
    if n < 0 {
        out.append("-");
        proof {
            reveal_strlit("-");
        }
    }
    let ghost mid = out@;
    let fill: usize = if len < target { target - len } else { 0 };
    push_zeros(out, fill);
    out.append(digits.as_str());
    proof {
        let ghost z = zero_pad(decimal(m as nat), target as nat);
        assert(z =~= Seq::new(fill as nat, |i: int| '0') + decimal(m as nat));
        if n < 0 {
            assert(out@ =~= old(out)@ + (seq!['-'] + z));
        } else {
            assert(out@ =~= old(out)@ + z);
        }
    }
}

/// A one-character string holding the decimal digit `d`.
fn digit_str_u128(d: u128) -> (s: &'static str)
    requires
        d < 10,
    ensures
        s@ == seq![digit_char(d as nat)],
{
    digit_str(d as u64)
}

/// Appends the decimal rendering of the 128-bit `n` to `out`.
pub fn push_decimal_u128(out: &mut String, n: u128)
    ensures
        final(out)@ == old(out)@ + decimal(n as nat),
    decreases n,
{
    if n >= 10 {
        push_decimal_u128(out, n / 10);
    }
    out.append(digit_str_u128(n % 10));
    proof {
        assert(old(out)@ + decimal(n as nat) =~= old(out)@ + (if n >= 10 { decimal((n / 10) as nat) } else { seq![] }) + seq![digit_char((n % 10) as nat)]);
    }
}

/// The characters of `s`, in order.
pub fn chars_of(s: &str) -> (v: Vec<char>)
    ensures
        v@ == s@,
{
    let mut v: Vec<char> = Vec::new();
    for c in it: s.chars()
        invariant
            v@ == it.seq().take(it.index() as int),
    {
        v.push(c);
    }
    v
}


/// The views of a sequence of strings.
pub open spec fn views(v: Seq<String>) -> Seq<Seq<char>> {
    v.map_values(|x: String| x@)
}

/// The index of the first occurrence of `c` in `s`, if any.
pub open spec fn find_char(s: Seq<char>, c: char) -> Option<int>
    decreases s.len(),
{
    if s.len() == 0 {
        None
    } else if s[0] == c {
        Some(0)
    } else {
        match find_char(s.drop_first(), c) {
            Some(i) => Some(i + 1),
            None => None,
        }
    }
}

/// `find_char` gives the first occurrence, or none when there is none.
pub proof fn lemma_find_char(s: Seq<char>, c: char)
    ensures
        match find_char(s, c) {
            Some(i) => 0 <= i < s.len() && s[i] == c && forall|j: int| 0 <= j < i ==> s[j] != c,
            None => forall|j: int| 0 <= j < s.len() ==> s[j] != c,
        },
    decreases s.len(),
{
    if s.len() > 0 && s[0] != c {
        lemma_find_char(s.drop_first(), c);
        match find_char(s.drop_first(), c) {
            Some(i) => {
                assert forall|j: int| 0 <= j < i + 1 implies s[j] != c by {
                    if j > 0 {
                        assert(s[j] == s.drop_first()[j - 1]);
                    }
                }
            },
            None => {
                assert forall|j: int| 0 <= j < s.len() implies s[j] != c by {
                    if j > 0 {
                        assert(s[j] == s.drop_first()[j - 1]);
                    }
                }
            },
        }
    }
}

/// A position that is the first occurrence of `c` is what `find_char` gives.
pub proof fn lemma_find_char_at(s: Seq<char>, c: char, i: int)
    requires
        0 <= i <= s.len(),
        forall|j: int| 0 <= j < i ==> s[j] != c,
        i < s.len() ==> s[i] == c,
    ensures
        find_char(s, c) == (if i < s.len() { Some(i) } else { None::<int> }),
{
    lemma_find_char(s, c);
}

/// The pieces that Rust's `str::splitn(limit, sep)` yields for `s`: at most
/// `limit` pieces, split at the first `limit - 1` occurrences of `sep`, the
/// last piece holding the rest of the text.
pub open spec fn split_n(s: Seq<char>, sep: char, limit: nat) -> Seq<Seq<char>>
    decreases limit,
{
    if limit == 0 {
        seq![]
    } else if limit == 1 {
        seq![s]
    } else {
        match find_char(s, sep) {
            Some(i) => seq![s.take(i)] + split_n(s.skip(i + 1), sep, (limit - 1) as nat),
            None => seq![s],
        }
    }
}

/// Character-wise equality of two strings.
pub fn str_eq(a: &str, b: &str) -> (r: bool)
    ensures
        r == (a@ == b@),
{
    let x = chars_of(a);
    let y = chars_of(b);
    if x.len() != y.len() {
        return false;
    }
    let mut i: usize = 0;
    while i < x.len()
        invariant
            x@ == a@,
            y@ == b@,
            x.len() == y.len(),
            i <= x.len(),
            forall|j: int| 0 <= j < i ==> x@[j] == y@[j],
        decreases x.len() - i,
    {
        if x[i] != y[i] {
            return false;
        }
        i += 1;
    }
    assert(x@ =~= y@);
    true
}

/// Splits `s` at `sep` as `str::splitn(limit, sep)` does.
pub fn split_n_exec(s: &str, sep: char, limit: usize) -> (out: Vec<String>)
    ensures
        views(out@) == split_n(s@, sep, limit as nat),
{
    let chars = chars_of(s);
    let n = chars.len();
    let mut out: Vec<String> = Vec::new();
    if limit == 0 {
        assert(views(out@) =~= seq![]);
        return out;
    }
    let mut start: usize = 0;
    assert(s@.skip(0) =~= s@);
    assert(views(out@) =~= seq![]);
    assert(views(out@) + split_n(s@, sep, limit as nat) =~= split_n(s@, sep, limit as nat));
    loop
        invariant
            chars@ == s@,
            n == chars@.len(),
            start <= n,
            out.len() < limit,
            limit > 0,
            views(out@) + split_n(s@.skip(start as int), sep, (limit - out.len()) as nat)
                == split_n(s@, sep, limit as nat),
        decreases n - start,
    {
        let ghost rest = s@.skip(start as int);
        let ghost m = (limit - out.len()) as nat;
        let ghost before = views(out@);
        if out.len() + 1 == limit {
            let piece = s.substring_char(start, n).to_owned();
            out.push(piece);
            assert(rest =~= s@.subrange(start as int, n as int));
            assert(views(out@) =~= before + seq![rest]);
            assert(split_n(rest, sep, m) == seq![rest]);
            return out;
        }
        let mut k: usize = start;
        while k < n && chars[k] != sep
            invariant
                chars@ == s@,
                n == chars@.len(),
                start <= k <= n,
                forall|j: int| start <= j < k ==> chars@[j] != sep,
            decreases n - k,
        {
            k += 1;
        }
        proof {
            assert forall|j: int| 0 <= j < k - start implies rest[j] != sep by {
                assert(rest[j] == chars@[start + j]);
            }
            if k < n {
                assert(rest[k - start] == chars@[k as int]);
            }
            lemma_find_char_at(rest, sep, k - start);
        }
        if k == n {
            let piece = s.substring_char(start, n).to_owned();
            out.push(piece);
            assert(rest =~= s@.subrange(start as int, n as int));
            assert(views(out@) =~= before + seq![rest]);
            return out;
        }
        let piece = s.substring_char(start, k).to_owned();
        out.push(piece);
        proof {
            assert(rest.take(k - start) =~= s@.subrange(start as int, k as int));
            assert(rest.skip(k - start + 1) =~= s@.skip(k + 1));
            assert(views(out@) =~= before + seq![rest.take(k - start)]);
            assert(split_n(rest, sep, m) == seq![rest.take(k - start)] + split_n(
                rest.skip(k - start + 1),
                sep,
                (m - 1) as nat,
            ));
            assert(views(out@) + split_n(s@.skip(k + 1), sep, (limit - out.len()) as nat)
                =~= before + split_n(rest, sep, m));
        }
        start = k + 1;
    }
}


/// True when `p` occurs in `s` as a run of consecutive characters.
pub open spec fn contains_seq(s: Seq<char>, p: Seq<char>) -> bool {
    exists|i: int| 0 <= i <= s.len() - p.len() && #[trigger] s.subrange(i, i + p.len()) == p
}

/// Whether `p` occurs in `s`, as `str::contains` answers it.
pub fn str_contains(s: &str, p: &str) -> (r: bool)
    ensures
        r == contains_seq(s@, p@),
{
    let hay = chars_of(s);
    let pat = chars_of(p);
    if pat.len() > hay.len() {
        return false;
    }
    let last = hay.len() - pat.len();
    let mut i: usize = 0;
    loop
        invariant
            hay@ == s@,
            pat@ == p@,
            last + pat.len() == hay.len(),
            i <= last,
            forall|k: int| 0 <= k < i ==> #[trigger] s@.subrange(k, k + p@.len()) != p@,
        ensures
            forall|k: int| 0 <= k <= last ==> #[trigger] s@.subrange(k, k + p@.len()) != p@,
        decreases last - i,
    {
        let mut j: usize = 0;
        while j < pat.len() && hay[i + j] == pat[j]
            invariant
                hay@ == s@,
                pat@ == p@,
                i <= last,
                last + pat.len() == hay.len(),
                j <= pat@.len(),
                forall|m: int| 0 <= m < j ==> hay@[i + m] == pat@[m],
            decreases pat@.len() - j,
        {
            j += 1;
        }
        if j == pat.len() {
            assert(s@.subrange(i as int, i + p@.len()) =~= p@);
            return true;
        }
        assert(s@.subrange(i as int, i + p@.len())[j as int] != p@[j as int]);
        if i == last {
            break;
        }
        i += 1;
    }
    assert forall|k: int| 0 <= k <= s@.len() - p@.len() implies #[trigger] s@.subrange(k, k + p@.len()) != p@ by {
        assert(k <= last);
    }
    false
}

} // verus!
