//! Character-level helpers shared by the parsers and renderers: conversion
//! between `str`/`String` and character vectors, decimal rendering of
//! unsigned integers, and decimal parsing with the rules of `str::parse`.
use vstd::prelude::*;

verus! {

/// `String::push` appends one character at the end of the string.
pub assume_specification[ String::push ](s: &mut String, ch: char)
    ensures
        final(s)@ == old(s)@.push(ch),
;

/// The characters of `s`, in order.
pub fn chars_of(s: &str) -> (v: Vec<char>)
    ensures
        v@ == s@,
{
    let mut v: Vec<char> = Vec::new();
    for c in it: s.chars()
        invariant
            v@ == it.seq().take(it.index() as int),
            it.seq() == s@,
    {
        v.push(c);
    }
    v
}

/// Appends every character of `cs` to `out`.
pub fn push_chars(out: &mut String, cs: &Vec<char>)
    ensures
        final(out)@ == old(out)@ + cs@,
{
    let mut i: usize = 0;
    while i < cs.len()
        invariant
            i <= cs.len(),
            out@ == old(out)@ + cs@.take(i as int),
        decreases cs.len() - i,
    {
        out.push(cs[i]);
        assert(cs@.take(i as int + 1) == cs@.take(i as int).push(cs@[i as int]));
        i = i + 1;
    }
    assert(cs@.take(cs.len() as int) == cs@);
}

/// A string holding exactly the characters of `cs`.
pub fn string_of(cs: &Vec<char>) -> (s: String)
    ensures
        s@ == cs@,
{
    let mut s = String::new();
    push_chars(&mut s, cs);
    s
}

/// Appends the characters of `t` to `out`.
pub fn push_str(out: &mut String, t: &str)
    ensures
        final(out)@ == old(out)@ + t@,
{
    let cs = chars_of(t);
    push_chars(out, &cs);
}

/// An owned copy of `t`.
pub fn owned(t: &str) -> (s: String)
    ensures
        s@ == t@,
{
    let mut s = String::new();
    push_str(&mut s, t);
    assert(s@ == t@);
    s
}

/// Whether two strings hold the same characters.
pub fn str_eq(a: &str, b: &str) -> (r: bool)
    ensures
        r == (a@ == b@),
{
    let x = chars_of(a);
    let y = chars_of(b);
    chars_eq(&x, &y)
}

/// Whether two character vectors are equal.
pub fn chars_eq(x: &Vec<char>, y: &Vec<char>) -> (r: bool)
    ensures
        r == (x@ == y@),
{
    if x.len() != y.len() {
        return false;
    }
    let mut i: usize = 0;
    while i < x.len()
        invariant
            x.len() == y.len(),
            i <= x.len(),
            forall|j: int| 0 <= j < i ==> x@[j] == y@[j],
        decreases x.len() - i,
    {
        if x[i] != y[i] {
            return false;
        }
        i = i + 1;
    }
    assert(x@ =~= y@);
    true
}

/// What `{:?}` writes for a string: the text in double quotes, with quotes,
/// backslashes and control or non-printable characters escaped.
pub uninterp spec fn debug_quoted(s: Seq<char>) -> Seq<char>;

/// Renders `s` as `format!("{:?}", s)` does (see [`debug_quoted`]).
#[verifier::external_body]
pub(crate) fn debug_str(s: &str) -> (r: String)
    ensures
        r@ == debug_quoted(s@),
{
    format!("{:?}", s)
}

/// `c` with `'A'..='Z'` mapped to `'a'..='z'`.
pub open spec fn ascii_lower_char(c: char) -> char {
    if 'A' <= c && c <= 'Z' {
        ((c as int) + 32) as char
    } else {
        c
    }
}

/// `s` with every ASCII upper-case letter lowered, as `str::to_ascii_lowercase` does.
pub open spec fn ascii_lower(s: Seq<char>) -> Seq<char> {
    s.map_values(|c: char| ascii_lower_char(c))
}

/// The ASCII-lowered characters of `s`.
pub fn ascii_lowercase(s: &str) -> (v: Vec<char>)
    ensures
        v@ == ascii_lower(s@),
{
    let cs = chars_of(s);
    let mut v: Vec<char> = Vec::new();
    let mut i: usize = 0;
    while i < cs.len()
        invariant
            i <= cs.len(),
            cs@ == s@,
            v@ == ascii_lower(cs@.take(i as int)),
        decreases cs.len() - i,
    {
        let c = cs[i];
        let l = if 'A' <= c && c <= 'Z' { ((c as u32) + 32) as u8 as char } else { c };
        assert(l == ascii_lower_char(c));
        v.push(l);
        assert(ascii_lower(cs@.take(i as int + 1)) =~= ascii_lower(cs@.take(i as int)).push(l));
        i = i + 1;
    }
    assert(cs@.take(cs.len() as int) == cs@);
    v
}

/// Whether the characters `v` spell the literal `lit`.
pub fn chars_are(v: &Vec<char>, lit: &str) -> (r: bool)
    ensures
        r == (v@ == lit@),
{
    let l = chars_of(lit);
    chars_eq(v, &l)
}

/// The decimal digit character for `d < 10`.
pub open spec fn digit_char(d: int) -> char {
    ((48 + d) as char)
}

/// Whether `c` is one of `'0'..='9'`.
pub open spec fn is_digit(c: char) -> bool {
    '0' <= c && c <= '9'
}

/// The numeric value of the digit character `c`.
pub open spec fn digit_value(c: char) -> int {
    (c as int) - 48
}

/// The shortest decimal rendering of `n`, as `to_string` writes it.
pub open spec fn decimal(n: nat) -> Seq<char>
    decreases n,
{
    if n < 10 {
        seq![digit_char(n as int)]
    } else {
        decimal(n / 10).push(digit_char((n % 10) as int))
    }
}

/// Appends the decimal rendering of `n` to `out`.
pub fn push_decimal(out: &mut String, n: u64)
    ensures
        final(out)@ == old(out)@ + decimal(n as nat),
    decreases n,
{
    if n >= 10 {
        push_decimal(out, n / 10);
    }
    let d: u8 = (n % 10) as u8;
    let c: char = (48u8 + d) as char;
    assert(c == digit_char((n % 10) as int));
    out.push(c);
    proof {
        if n >= 10 {
            assert(old(out)@ + decimal(n as nat) =~= old(out)@ + decimal((n / 10) as nat) + seq![c]);
        } else {
            assert(old(out)@ + decimal(n as nat) =~= old(out)@.push(c));
        }
    }
}

/// Why a decimal integer could not be parsed, as `core::num::IntErrorKind`
/// reports it for an unsigned target type.
#[derive(Debug, Clone, Copy, PartialEq, Eq)]
pub enum IntErrorKind {
    Empty,
    InvalidDigit,
    PosOverflow,
}

impl IntErrorKind {
    /// The message `ParseIntError` displays for this kind.
    pub open spec fn spec_message(self) -> Seq<char> {
        match self {
            IntErrorKind::Empty => "cannot parse integer from empty string"@,
            IntErrorKind::InvalidDigit => "invalid digit found in string"@,
            IntErrorKind::PosOverflow => "number too large to fit in target type"@,
        }
    }

    /// The message `ParseIntError` displays for this kind.
    pub fn message(&self) -> (s: &'static str)
        ensures
            s@ == self.spec_message(),
    {
        proof {
            reveal_strlit("cannot parse integer from empty string");
            reveal_strlit("invalid digit found in string");
            reveal_strlit("number too large to fit in target type");
        }
        match self {
            IntErrorKind::Empty => "cannot parse integer from empty string",
            IntErrorKind::InvalidDigit => "invalid digit found in string",
            IntErrorKind::PosOverflow => "number too large to fit in target type",
        }
    }
}

/// Left-to-right digit scan from position `i` with accumulated value `acc`,
/// failing on the first non-digit or on the first step past `max`.
pub open spec fn scan_digits(d: Seq<char>, i: int, acc: int, max: int) -> Result<int, IntErrorKind>
    decreases d.len() - i,
{
    if i >= d.len() {
        Ok(acc)
    } else if !is_digit(d[i]) {
        Err(IntErrorKind::InvalidDigit)
    } else if acc * 10 + digit_value(d[i]) > max {
        Err(IntErrorKind::PosOverflow)
    } else {
        scan_digits(d, i + 1, acc * 10 + digit_value(d[i]), max)
    }
}

/// What `str::parse` gives for an unsigned integer type whose largest value is
/// `max`: an optional leading `+`, then at least one ASCII digit.
pub open spec fn parse_unsigned_spec(s: Seq<char>, max: int) -> Result<int, IntErrorKind> {
    if s.len() == 0 {
        Err(IntErrorKind::Empty)
    } else if (s[0] == '+' || s[0] == '-') && s.len() == 1 {
        Err(IntErrorKind::InvalidDigit)
    } else if s[0] == '+' {
        scan_digits(s, 1, 0, max)
    } else {
        scan_digits(s, 0, 0, max)
    }
}

proof fn lemma_scan_bounded(d: Seq<char>, i: int, acc: int, max: int)
    requires
        0 <= acc <= max,
        0 <= i,
    ensures
        scan_digits(d, i, acc, max) matches Ok(v) ==> 0 <= v <= max,
    decreases d.len() - i,
{
    if i < d.len() && is_digit(d[i]) && acc * 10 + digit_value(d[i]) <= max {
        lemma_scan_bounded(d, i + 1, acc * 10 + digit_value(d[i]), max);
    }
}

/// Parses `cs[start..]` as decimal digits, as `scan_digits` describes.
fn scan_digits_exec(cs: &Vec<char>, start: usize, max: u64) -> (r: Result<u64, IntErrorKind>)
    requires
        start <= cs.len(),
    ensures
        match (r, scan_digits(cs@, start as int, 0, max as int)) {
            (Ok(a), Ok(b)) => a == b,
            (Err(a), Err(b)) => a == b,
            _ => false,
        },
{
    let mut i: usize = start;
    let mut acc: u64 = 0;
    while i < cs.len()
        invariant
            start <= i <= cs.len(),
            acc <= max,
            scan_digits(cs@, start as int, 0, max as int) == scan_digits(cs@, i as int, acc as int, max as int),
        decreases cs.len() - i,
    {
        let c = cs[i];
        if !('0' <= c && c <= '9') {
            return Err(IntErrorKind::InvalidDigit);
        }
        let d: u64 = (c as u32 - 48) as u64;
        assert(d as int == digit_value(c));
        if d > max || acc > (max - d) / 10 {
            proof {
                if d <= max {
                    assert(acc * 10 + d > max) by (nonlinear_arith)
                        requires acc > (max - d) / 10, d <= max;
                }
            }
            return Err(IntErrorKind::PosOverflow);
        }
        assert(acc * 10 + d <= max) by (nonlinear_arith)
            requires acc <= (max - d) / 10, d <= max;
        acc = acc * 10 + d;
        i = i + 1;
    }
    Ok(acc)
}

/// Parses `s` as `str::parse` does for an unsigned type whose largest value is `max`.
pub fn parse_unsigned(s: &str, max: u64) -> (r: Result<u64, IntErrorKind>)
    ensures
        match (r, parse_unsigned_spec(s@, max as int)) {
            (Ok(a), Ok(b)) => a == b,
            (Err(a), Err(b)) => a == b,
            _ => false,
        },
{
    let cs = chars_of(s);
    parse_unsigned_chars(&cs, max)
}

/// Parses the characters `cs` as [`parse_unsigned`] does.
pub fn parse_unsigned_chars(cs: &Vec<char>, max: u64) -> (r: Result<u64, IntErrorKind>)
    ensures
        match (r, parse_unsigned_spec(cs@, max as int)) {
            (Ok(a), Ok(b)) => a == b,
            (Err(a), Err(b)) => a == b,
            _ => false,
        },
{
    if cs.len() == 0 {
        return Err(IntErrorKind::Empty);
    }
    if (cs[0] == '+' || cs[0] == '-') && cs.len() == 1 {
        return Err(IntErrorKind::InvalidDigit);
    }
    if cs[0] == '+' {
        scan_digits_exec(cs, 1, max)
    } else {
        scan_digits_exec(cs, 0, max)
    }
}

} // verus!

verus! {

/// The pieces of `s` between occurrences of `sep`, as `str::split` yields
/// them: one more piece than there are separators, empty pieces included.
pub open spec fn split_on(s: Seq<char>, sep: char) -> Seq<Seq<char>>
    decreases s.len(),
{
    if s.len() == 0 {
        seq![Seq::<char>::empty()]
    } else {
        let rest = split_on(s.drop_last(), sep);
        if s.last() == sep {
            rest.push(Seq::<char>::empty())
        } else {
            rest.update(rest.len() - 1, rest.last().push(s.last()))
        }
    }
}

proof fn lemma_split_nonempty(s: Seq<char>, sep: char)
    ensures
        split_on(s, sep).len() >= 1,
    decreases s.len(),
{
    if s.len() > 0 {
        lemma_split_nonempty(s.drop_last(), sep);
    }
}

/// The views of a vector of character vectors.
pub open spec fn views(v: Seq<Vec<char>>) -> Seq<Seq<char>> {
    v.map_values(|x: Vec<char>| x@)
}

/// Splits `s` at every `sep`, as `str::split` does.
pub fn split_chars(s: &str, sep: char) -> (parts: Vec<Vec<char>>)
    ensures
        views(parts@) == split_on(s@, sep),
{
    let cs = chars_of(s);
    let mut parts: Vec<Vec<char>> = Vec::new();
    let mut cur: Vec<char> = Vec::new();
    let mut i: usize = 0;
    while i < cs.len()
        invariant
            i <= cs.len(),
            cs@ == s@,
            views(parts@).push(cur@) == split_on(cs@.take(i as int), sep),
        decreases cs.len() - i,
    {
        let c = cs[i];
        proof {
            lemma_split_nonempty(cs@.take(i as int), sep);
            assert(cs@.take(i as int + 1).drop_last() == cs@.take(i as int));
        }
        if c == sep {
            let done = cur;
            parts.push(done);
            cur = Vec::new();
            assert(views(parts@).push(cur@) =~= split_on(cs@.take(i as int), sep).push(Seq::<char>::empty()));
        } else {
            let ghost before = views(parts@).push(cur@);
            cur.push(c);
            assert(views(parts@).push(cur@) =~= before.update(before.len() - 1, before.last().push(c)));
        }
        i = i + 1;
    }
    assert(cs@.take(cs.len() as int) == cs@);
    parts.push(cur);
    assert(views(parts@) =~= split_on(cs@, sep));
    parts
}

/// Splitting a piece with no separator leaves it whole.
pub proof fn lemma_split_no_sep(b: Seq<char>, sep: char)
    requires
        !b.contains(sep),
    ensures
        split_on(b, sep) == seq![b],
    decreases b.len(),
{
    if b.len() > 0 {
        assert(!b.drop_last().contains(sep)) by {
            if b.drop_last().contains(sep) {
                let k = choose|k: int| 0 <= k < b.drop_last().len() && b.drop_last()[k] == sep;
                assert(b[k] == sep);
            }
        }
        lemma_split_no_sep(b.drop_last(), sep);
        assert(b[b.len() - 1] != sep);
        assert(b.drop_last().push(b.last()) =~= b);
        assert(seq![b.drop_last()].update(0, b.drop_last().push(b.last())) =~= seq![b]);
    } else {
        assert(b =~= Seq::<char>::empty());
    }
}

/// Appending a separator and a separator-free piece adds that piece.
pub proof fn lemma_split_append(a: Seq<char>, b: Seq<char>, sep: char)
    requires
        !b.contains(sep),
    ensures
        split_on(a + seq![sep] + b, sep) == split_on(a, sep).push(b),
    decreases b.len(),
{
    if b.len() == 0 {
        assert(a + seq![sep] + b =~= a.push(sep));
        assert((a + seq![sep] + b).drop_last() =~= a);
        assert(b =~= Seq::<char>::empty());
    } else {
        let b0 = b.drop_last();
        assert(!b0.contains(sep)) by {
            if b0.contains(sep) {
                let k = choose|k: int| 0 <= k < b0.len() && b0[k] == sep;
                assert(b[k] == sep);
            }
        }
        lemma_split_append(a, b0, sep);
        assert((a + seq![sep] + b).drop_last() =~= a + seq![sep] + b0);
        assert(b[b.len() - 1] != sep);
        assert(b0.push(b.last()) =~= b);
        assert(split_on(a, sep).push(b0).update(split_on(a, sep).len() as int, b0.push(b.last()))
            =~= split_on(a, sep).push(b));
    }
}

/// Every character of a decimal rendering is a digit.
pub proof fn lemma_decimal_digits(n: nat)
    ensures
        decimal(n).len() >= 1,
        forall|k: int| 0 <= k < decimal(n).len() ==> is_digit(#[trigger] decimal(n)[k]),
    decreases n,
{
    if n >= 10 {
        lemma_decimal_digits(n / 10);
    }
}

/// Scanning one more character continues from where the prefix scan ended.
proof fn lemma_scan_push(x: Seq<char>, c: char, i: int, acc: int, max: int)
    requires
        0 <= i <= x.len(),
    ensures
        scan_digits(x.push(c), i, acc, max) == (match scan_digits(x, i, acc, max) {
            Ok(v) => if !is_digit(c) {
                Err(IntErrorKind::InvalidDigit)
            } else if v * 10 + digit_value(c) > max {
                Err(IntErrorKind::PosOverflow)
            } else {
                Ok(v * 10 + digit_value(c))
            },
            Err(e) => Err(e),
        }),
    decreases x.len() - i,
{
    if i < x.len() {
        assert(x.push(c)[i] == x[i]);
        if is_digit(x[i]) && acc * 10 + digit_value(x[i]) <= max {
            lemma_scan_push(x, c, i + 1, acc * 10 + digit_value(x[i]), max);
        }
    } else {
        assert(x.push(c)[i] == c);
        assert(scan_digits(x, i, acc, max) == Ok::<int, IntErrorKind>(acc));
        if is_digit(c) && acc * 10 + digit_value(c) <= max {
            assert(scan_digits(x.push(c), i + 1, acc * 10 + digit_value(c), max)
                == Ok::<int, IntErrorKind>(acc * 10 + digit_value(c)));
        }
    }
}

/// Parsing the decimal rendering of `n` gives `n` back.
pub proof fn lemma_parse_decimal(n: nat, max: int)
    requires
        n <= max,
    ensures
        parse_unsigned_spec(decimal(n), max) == Ok::<int, IntErrorKind>(n as int),
{
    lemma_decimal_digits(n);
    lemma_scan_decimal(n, max);
}

proof fn lemma_scan_decimal(n: nat, max: int)
    requires
        n <= max,
    ensures
        scan_digits(decimal(n), 0, 0, max) == Ok::<int, IntErrorKind>(n as int),
    decreases n,
{
    if n < 10 {
        assert(decimal(n)[0] == digit_char(n as int));
        assert(scan_digits(decimal(n), 1, n as int, max) == Ok::<int, IntErrorKind>(n as int));
    } else {
        lemma_scan_decimal(n / 10, max);
        lemma_scan_push(decimal(n / 10), digit_char((n % 10) as int), 0, 0, max);
        assert((n / 10) as int * 10 + (n % 10) as int == n as int);
    }
}

} // verus!

verus! {

/// Splitting always yields at least one piece.
pub proof fn lemma_split_len(s: Seq<char>, sep: char)
    ensures
        split_on(s, sep).len() >= 1,
{
    lemma_split_nonempty(s, sep);
}

} // verus!

verus! {

/// Views of a vector after a push.
pub proof fn lemma_views_push(v: Seq<Vec<char>>, x: Vec<char>)
    ensures
        views(v.push(x)) == views(v).push(x@),
{
    assert(views(v.push(x)) =~= views(v).push(x@));
}

} // verus!

verus! {

/// Whether `c` is Unicode white space (`char::is_whitespace`).
pub open spec fn is_ws(c: char) -> bool {
    ||| c == ' '
    ||| ('\u{9}' <= c && c <= '\u{d}')
    ||| c == '\u{85}'
    ||| c == '\u{a0}'
    ||| c == '\u{1680}'
    ||| ('\u{2000}' <= c && c <= '\u{200a}')
    ||| c == '\u{2028}'
    ||| c == '\u{2029}'
    ||| c == '\u{202f}'
    ||| c == '\u{205f}'
    ||| c == '\u{3000}'
}

/// Whether `c` is Unicode white space.
pub fn is_ws_exec(c: char) -> (r: bool)
    ensures
        r == is_ws(c),
{
    c == ' ' || ('\u{9}' <= c && c <= '\u{d}') || c == '\u{85}' || c == '\u{a0}' || c == '\u{1680}'
        || ('\u{2000}' <= c && c <= '\u{200a}') || c == '\u{2028}' || c == '\u{2029}' || c == '\u{202f}'
        || c == '\u{205f}' || c == '\u{3000}'
}

/// The number of leading white-space characters of `s`.
pub open spec fn ws_prefix_len(s: Seq<char>) -> nat
    decreases s.len(),
{
    if s.len() > 0 && is_ws(s[0]) {
        1 + ws_prefix_len(s.drop_first())
    } else {
        0
    }
}

/// The number of leading non-white-space characters of `s`.
pub open spec fn token_len(s: Seq<char>) -> nat
    decreases s.len(),
{
    if s.len() > 0 && !is_ws(s[0]) {
        1 + token_len(s.drop_first())
    } else {
        0
    }
}

/// The position after the white space that starts `cs[p..]`.
pub fn skip_ws_at(cs: &Vec<char>, p: usize) -> (q: usize)
    requires
        p <= cs@.len(),
    ensures
        q == p + ws_prefix_len(cs@.skip(p as int)),
        q <= cs@.len(),
{
    let mut i = p;
    while i < cs.len() && is_ws_exec(cs[i])
        invariant
            p <= i <= cs@.len(),
            ws_prefix_len(cs@.skip(p as int)) == (i - p) + ws_prefix_len(cs@.skip(i as int)),
        decreases cs.len() - i,
    {
        assert(cs@.skip(i as int).drop_first() == cs@.skip(i as int + 1));
        i = i + 1;
    }
    if i < cs.len() {
        assert(cs@.skip(i as int)[0] == cs@[i as int]);
    }
    i
}

/// The position after the token that starts `cs[p..]`.
pub fn skip_token_at(cs: &Vec<char>, p: usize) -> (q: usize)
    requires
        p <= cs@.len(),
    ensures
        q == p + token_len(cs@.skip(p as int)),
        q <= cs@.len(),
{
    let mut i = p;
    while i < cs.len() && !is_ws_exec(cs[i])
        invariant
            p <= i <= cs@.len(),
            token_len(cs@.skip(p as int)) == (i - p) + token_len(cs@.skip(i as int)),
        decreases cs.len() - i,
    {
        assert(cs@.skip(i as int).drop_first() == cs@.skip(i as int + 1));
        i = i + 1;
    }
    if i < cs.len() {
        assert(cs@.skip(i as int)[0] == cs@[i as int]);
    }
    i
}

/// The characters `cs[a..b]`.
pub fn slice_chars(cs: &Vec<char>, a: usize, b: usize) -> (v: Vec<char>)
    requires
        a <= b <= cs@.len(),
    ensures
        v@ == cs@.subrange(a as int, b as int),
{
    let mut v: Vec<char> = Vec::new();
    let mut i = a;
    while i < b
        invariant
            a <= i <= b,
            b <= cs@.len(),
            v@ == cs@.subrange(a as int, i as int),
        decreases b - i,
    {
        v.push(cs[i]);
        assert(cs@.subrange(a as int, i as int + 1) == cs@.subrange(a as int, i as int).push(cs@[i as int]));
        i = i + 1;
    }
    v
}


/// The number of trailing white-space characters of `s`.
pub open spec fn ws_suffix_len(s: Seq<char>) -> nat
    decreases s.len(),
{
    if s.len() > 0 && is_ws(s.last()) {
        1 + ws_suffix_len(s.drop_last())
    } else {
        0
    }
}

/// `s` without its leading white space (`str::trim_start`).
pub open spec fn trim_start(s: Seq<char>) -> Seq<char> {
    s.skip(ws_prefix_len(s) as int)
}

/// `s` without its trailing white space (`str::trim_end`).
pub open spec fn trim_end(s: Seq<char>) -> Seq<char> {
    s.take(s.len() - ws_suffix_len(s))
}

/// `s` without leading and trailing white space (`str::trim`).
pub open spec fn trim(s: Seq<char>) -> Seq<char> {
    trim_end(trim_start(s))
}

/// `s.splitn(2, char::is_whitespace)`: the text before the first white-space
/// character, and the text after that character if there is one.
pub open spec fn split_at_ws(s: Seq<char>) -> (Seq<char>, Option<Seq<char>>) {
    let n = token_len(s) as int;
    if n < s.len() {
        (s.take(n), Some(s.skip(n + 1)))
    } else {
        (s, None)
    }
}

/// Leading white space never runs past the end.
pub proof fn lemma_ws_prefix_len_bound(s: Seq<char>)
    ensures
        ws_prefix_len(s) <= s.len(),
    decreases s.len(),
{
    if s.len() > 0 && is_ws(s[0]) {
        lemma_ws_prefix_len_bound(s.drop_first());
    }
}

/// Trailing white space never runs past the start.
pub proof fn lemma_ws_suffix_len_bound(s: Seq<char>)
    ensures
        ws_suffix_len(s) <= s.len(),
    decreases s.len(),
{
    if s.len() > 0 && is_ws(s.last()) {
        lemma_ws_suffix_len_bound(s.drop_last());
    }
}

/// A token runs at most to the end.
pub proof fn lemma_token_len_bound(s: Seq<char>)
    ensures
        token_len(s) <= s.len(),
        forall|i: int| 0 <= i < token_len(s) ==> !is_ws(#[trigger] s[i]),
        token_len(s) < s.len() ==> is_ws(s[token_len(s) as int]),
    decreases s.len(),
{
    if s.len() > 0 && !is_ws(s[0]) {
        lemma_token_len_bound(s.drop_first());
        assert forall|i: int| 0 <= i < token_len(s) implies !is_ws(#[trigger] s[i]) by {
            if i > 0 {
                assert(s[i] == s.drop_first()[i - 1]);
            }
        }
    }
}

/// The end of `cs[a..b]` once its trailing white space is dropped.
pub fn trim_end_at(cs: &Vec<char>, a: usize, b: usize) -> (e: usize)
    requires
        a <= b <= cs@.len(),
    ensures
        a <= e <= b,
        e == b - ws_suffix_len(cs@.subrange(a as int, b as int)),
{
    let mut j = b;
    while j > a && is_ws_exec(cs[j - 1])
        invariant
            a <= j <= b,
            b <= cs@.len(),
            ws_suffix_len(cs@.subrange(a as int, b as int)) == (b - j) + ws_suffix_len(cs@.subrange(a as int, j as int)),
        decreases j,
    {
        assert(cs@.subrange(a as int, j as int).drop_last() == cs@.subrange(a as int, j - 1));
        assert(cs@.subrange(a as int, j as int).last() == cs@[j - 1]);
        j = j - 1;
    }
    if j > a {
        assert(cs@.subrange(a as int, j as int).last() == cs@[j - 1]);
    }
    j
}

/// The characters of `cs[a..b]` with leading and trailing white space removed.
pub fn trim_range(cs: &Vec<char>, a: usize, b: usize) -> (v: Vec<char>)
    requires
        a <= b <= cs@.len(),
    ensures
        v@ == trim(cs@.subrange(a as int, b as int)),
{
    let ghost s = cs@.subrange(a as int, b as int);
    let p = skip_ws_at(cs, a);
    proof {
        // Leading white space of `cs[a..]` and of `cs[a..b]` agree up to `b`.
        lemma_ws_prefix_sub(cs@, a as int, b as int);
    }
    let q = if p < b { p } else { b };
    let e = trim_end_at(cs, q, b);
    proof {
        assert(trim_start(s) == cs@.subrange(q as int, b as int));
        lemma_ws_suffix_len_bound(trim_start(s));
    }
    let v = slice_chars(cs, q, e);
    assert(v@ =~= trim(s));
    v
}

/// Leading white space of a prefix-limited slice.
proof fn lemma_ws_prefix_sub(cs: Seq<char>, a: int, b: int)
    requires
        0 <= a <= b <= cs.len(),
    ensures
        ({
            let n = ws_prefix_len(cs.skip(a));
            let m = ws_prefix_len(cs.subrange(a, b));
            m == if a + n < b { n as int } else { b - a }
        }),
    decreases b - a,
{
    if a < b {
        assert(cs.skip(a).drop_first() == cs.skip(a + 1));
        assert(cs.subrange(a, b).drop_first() == cs.subrange(a + 1, b));
        assert(cs.skip(a)[0] == cs[a]);
        assert(cs.subrange(a, b)[0] == cs[a]);
        lemma_ws_prefix_sub(cs, a + 1, b);
    } else {
        assert(cs.subrange(a, b).len() == 0);
    }
}

/// Whether `s` begins with `p`.
pub open spec fn starts_with(s: Seq<char>, p: Seq<char>) -> bool {
    p.len() <= s.len() && s.take(p.len() as int) == p
}

/// Whether `s` ends with `x`.
pub open spec fn ends_with(s: Seq<char>, x: Seq<char>) -> bool {
    x.len() <= s.len() && s.skip(s.len() - x.len()) == x
}

/// Whether `s[a..a + p.len()]` is `p`.
fn matches_at(s: &Vec<char>, a: usize, p: &Vec<char>) -> (r: bool)
    requires
        a + p@.len() <= s@.len(),
    ensures
        r == (s@.subrange(a as int, a + p@.len()) == p@),
{
    let mut i: usize = 0;
    while i < p.len()
        invariant
            a + p@.len() <= s.len(),
            i <= p@.len(),
            forall|j: int| 0 <= j < i ==> s@[a + j] == p@[j],
        decreases p.len() - i,
    {
        if s[a + i] != p[i] {
            assert(s@.subrange(a as int, a + p@.len())[i as int] != p@[i as int]);
            return false;
        }
        i = i + 1;
    }
    assert(s@.subrange(a as int, a + p@.len()) =~= p@);
    true
}

/// Whether `s` begins with `p`.
pub fn starts_with_str(s: &str, p: &str) -> (r: bool)
    ensures
        r == starts_with(s@, p@),
{
    let sc = chars_of(s);
    let pc = chars_of(p);
    if pc.len() > sc.len() {
        return false;
    }
    let r = matches_at(&sc, 0, &pc);
    assert(sc@.subrange(0, pc@.len() as int) == sc@.take(pc@.len() as int));
    r
}

/// Whether `s` ends with `x`.
pub fn ends_with_str(s: &str, x: &str) -> (r: bool)
    ensures
        r == ends_with(s@, x@),
{
    let sc = chars_of(s);
    let xc = chars_of(x);
    if xc.len() > sc.len() {
        return false;
    }
    let k = sc.len() - xc.len();
    let r = matches_at(&sc, k, &xc);
    assert(sc@.subrange(k as int, sc@.len() as int) == sc@.skip(k as int));
    r
}
} // verus!
