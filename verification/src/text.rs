//! Small helpers on strings: comparing them and writing numbers into them.

use vstd::prelude::*;
use vstd::string::StrSliceExecFns;

verus! {

/// Appends one character to a string, as `String::push` of the standard
/// library does: the string afterwards is the old one followed by `c`.
pub assume_specification[ String::push ](s: &mut String, c: char)
    ensures
        final(s)@ == old(s)@.push(c),
;

/// Whether two strings hold the same characters.
pub fn str_eq(a: &str, b: &str) -> (same: bool)
    ensures
        same == (a@ == b@),
{
    let n = a.unicode_len();
    if n != b.unicode_len() {
        return false;
    }
    let mut i: usize = 0;
    while i < n
        invariant
            n == a@.len(),
            n == b@.len(),
            i <= n,
            a@.take(i as int) == b@.take(i as int),
        decreases n - i,
    {
        if a.get_char(i) != b.get_char(i) {
            return false;
        }
        assert(a@.take(i + 1) == a@.take(i as int).push(a@[i as int]));
        assert(b@.take(i + 1) == b@.take(i as int).push(b@[i as int]));
        i = i + 1;
    }
    assert(a@.take(n as int) == a@);
    assert(b@.take(n as int) == b@);
    true
}

/// The character of a decimal digit.
pub open spec fn digit_char(d: int) -> char
    recommends
        0 <= d <= 9,
{
    ('0' as u8 + d) as u8 as char
}

/// The decimal digits of `n`, most significant first; `0` is written "0".
pub open spec fn decimal(n: nat) -> Seq<char>
    decreases n,
{
    if n < 10 {
        seq![digit_char(n as int)]
    } else {
        decimal(n / 10).push(digit_char(n as int % 10))
    }
}

/// A whole number as text: a minus sign if it is negative, then its digits.
pub open spec fn signed_decimal(v: int) -> Seq<char> {
    if v < 0 {
        seq!['-'] + decimal((-v) as nat)
    } else {
        decimal(v as nat)
    }
}

/// A number of hundredths as text with two decimals: `-150` reads "-1.50",
/// `7` reads "0.07".
pub open spec fn hundredths_decimal(v: int) -> Seq<char> {
    let magnitude = if v < 0 {
        -v
    } else {
        v
    };
    let digits = decimal((magnitude / 100) as nat) + seq![
        '.',
        digit_char(magnitude / 10 % 10),
        digit_char(magnitude % 10),
    ];
    if v < 0 {
        seq!['-'] + digits
    } else {
        digits
    }
}

/// `text` moved to the right edge of a field `width` characters wide. A
/// text that is wider than the field stays as it is.
pub open spec fn right_aligned(text: Seq<char>, width: nat) -> Seq<char> {
    if text.len() >= width {
        text
    } else {
        Seq::new((width - text.len()) as nat, |i: int| ' ') + text
    }
}

/// The character of a decimal digit.
pub fn digit(d: u8) -> (c: char)
    requires
        d <= 9,
    ensures
        c == digit_char(d as int),
{
    (48u8 + d) as char
}

/// Appends the decimal digits of `n` to `out`.
pub fn push_decimal(out: &mut Vec<char>, n: u64)
    ensures
        final(out)@ == old(out)@ + decimal(n as nat),
{
    let mut reversed: Vec<char> = Vec::new();
    let mut rest: u64 = n;
    while rest >= 10
        invariant
            decimal(n as nat) == decimal(rest as nat) + reversed@.reverse(),
        decreases rest,
    {
        let d: u8 = (rest % 10) as u8;
        let ghost before = reversed@;
        reversed.push(digit(d));
        proof {
            assert(decimal(rest as nat) == decimal((rest / 10) as nat).push(digit_char(rest as int % 10)));
            assert(reversed@.reverse() =~= seq![digit_char(rest as int % 10)] + before.reverse());
            assert(decimal((rest / 10) as nat).push(digit_char(rest as int % 10)) + before.reverse()
                =~= decimal((rest / 10) as nat) + reversed@.reverse());
        }
        rest = rest / 10;
    }
    let ghost before = reversed@;
    reversed.push(digit(rest as u8));
    proof {
        assert(decimal(rest as nat) == seq![digit_char(rest as int)]);
        assert(reversed@.reverse() =~= seq![digit_char(rest as int)] + before.reverse());
        assert(decimal(n as nat) =~= reversed@.reverse());
    }
    let mut i: usize = reversed.len();
    while i > 0
        invariant
            i <= reversed@.len(),
            out@ == old(out)@ + reversed@.reverse().take(reversed@.len() - i),
        decreases i,
    {
        i = i - 1;
        out.push(reversed[i]);
        proof {
            let k = reversed@.len() - i - 1;
            assert(reversed@.reverse()[k] == reversed@[i as int]);
            assert(reversed@.reverse().take(k + 1) =~= reversed@.reverse().take(k).push(
                reversed@[i as int],
            ));
            assert(out@ =~= old(out)@ + reversed@.reverse().take(k + 1));
        }
    }
    assert(reversed@.reverse().take(reversed@.len() as int) =~= reversed@.reverse());
}

/// The magnitude of `v`.
pub fn magnitude(v: i64) -> (m: u64)
    ensures
        m == if v < 0 { -(v as int) } else { v as int },
{
    if v < 0 {
        (-(v as i128)) as u64
    } else {
        v as u64
    }
}

/// A whole number as text.
pub fn format_int(v: i64) -> (text: Vec<char>)
    ensures
        text@ == signed_decimal(v as int),
{
    let mut text: Vec<char> = Vec::new();
    if v < 0 {
        text.push('-');
    }
    assert(text@ =~= if v < 0 { seq!['-'] } else { Seq::<char>::empty() });
    push_decimal(&mut text, magnitude(v));
    assert(text@ =~= signed_decimal(v as int));
    text
}

/// A number of hundredths as text with two decimals.
pub fn format_hundredths(v: i64) -> (text: Vec<char>)
    ensures
        text@ == hundredths_decimal(v as int),
{
    let m: u64 = magnitude(v);
    let mut text: Vec<char> = Vec::new();
    if v < 0 {
        text.push('-');
    }
    let ghost sign = text@;
    push_decimal(&mut text, m / 100);
    text.push('.');
    text.push(digit((m / 10 % 10) as u8));
    text.push(digit((m % 10) as u8));
    assert(text@ =~= sign + (decimal((m / 100) as nat) + seq![
        '.',
        digit_char(m as int / 10 % 10),
        digit_char(m as int % 10),
    ]));
    assert(text@ =~= hundredths_decimal(v as int));
    text
}

/// Collects `field` into a string: `text` right-aligned in `width`
/// characters, followed by `suffix`.
pub fn aligned_with_suffix(text: &Vec<char>, width: usize, suffix: &str) -> (field: String)
    ensures
        field@ == right_aligned(text@, width as nat) + suffix@,
{
    let mut field = String::new();
    let ghost pad_len: nat = if text@.len() >= width { 0 } else { (width - text@.len()) as nat };
    let mut i: usize = text.len();
    while i < width
        invariant
            text@.len() <= i,
            i <= width || i == text@.len(),
            field@ =~= Seq::new((i - text@.len()) as nat, |k: int| ' '),
        decreases width - i,
    {
        field.push(' ');
        i = i + 1;
    }
    assert(field@ =~= Seq::new(pad_len, |k: int| ' '));
    let mut k: usize = 0;
    while k < text.len()
        invariant
            k <= text@.len(),
            field@ =~= Seq::new(pad_len, |k: int| ' ') + text@.take(k as int),
        decreases text@.len() - k,
    {
        field.push(text[k]);
        k = k + 1;
    }
    assert(text@.take(text@.len() as int) =~= text@);
    assert(field@ =~= right_aligned(text@, width as nat));
    let n = suffix.unicode_len();
    let mut j: usize = 0;
    while j < n
        invariant
            n == suffix@.len(),
            j <= n,
            field@ =~= right_aligned(text@, width as nat) + suffix@.take(j as int),
        decreases n - j,
    {
        field.push(suffix.get_char(j));
        j = j + 1;
    }
    assert(suffix@.take(n as int) =~= suffix@);
    field
}

/// Appends `chars` to a string.
pub fn push_chars(out: &mut String, chars: &Vec<char>)
    ensures
        final(out)@ == old(out)@ + chars@,
{
    let mut k: usize = 0;
    while k < chars.len()
        invariant
            k <= chars@.len(),
            out@ =~= old(out)@ + chars@.take(k as int),
        decreases chars@.len() - k,
    {
        out.push(chars[k]);
        k = k + 1;
    }
    assert(chars@.take(chars@.len() as int) =~= chars@);
}

/// Appends the decimal digits of `n` to a string.
pub fn append_decimal(out: &mut String, n: u64)
    ensures
        final(out)@ == old(out)@ + decimal(n as nat),
{
    let mut digits: Vec<char> = Vec::new();
    push_decimal(&mut digits, n);
    assert(digits@ =~= decimal(n as nat));
    push_chars(out, &digits);
}

/// Whether `text` begins with `prefix`.
pub open spec fn starts_with(text: Seq<char>, prefix: Seq<char>) -> bool {
    prefix.len() <= text.len() && text.take(prefix.len() as int) == prefix
}

/// Whether `text` ends with `suffix`.
pub open spec fn ends_with(text: Seq<char>, suffix: Seq<char>) -> bool {
    suffix.len() <= text.len() && text.skip(text.len() - suffix.len()) == suffix
}

/// Whether `part` stands in `text` at `at`.
pub open spec fn occurs_at(text: Seq<char>, part: Seq<char>, at: int) -> bool {
    0 <= at && at + part.len() <= text.len() && text.subrange(at, at + part.len()) == part
}

/// Whether `part` stands somewhere in `text`.
pub open spec fn contains(text: Seq<char>, part: Seq<char>) -> bool {
    exists|at: int| occurs_at(text, part, at)
}

/// Whether `part` stands in `text` at `at`, compared character by character.
pub fn str_occurs_at(text: &str, part: &str, at: usize) -> (found: bool)
    ensures
        found == occurs_at(text@, part@, at as int),
{
    let n: usize = text.unicode_len();
    let m: usize = part.unicode_len();
    if at > n || m > n - at {
        return false;
    }
    let mut i: usize = 0;
    while i < m
        invariant
            n == text@.len(),
            m == part@.len(),
            at + m <= n,
            i <= m,
            text@.subrange(at as int, at + i) == part@.take(i as int),
        decreases m - i,
    {
        if text.get_char(at + i) != part.get_char(i) {
            assert(text@.subrange(at as int, at + m)[i as int] != part@[i as int]);
            return false;
        }
        assert(text@.subrange(at as int, at + i + 1) == text@.subrange(at as int, at + i).push(text@[at + i]));
        assert(part@.take(i + 1) == part@.take(i as int).push(part@[i as int]));
        i = i + 1;
    }
    assert(part@.take(m as int) == part@);
    true
}

/// Whether `text` begins with `prefix`.
pub fn str_starts_with(text: &str, prefix: &str) -> (found: bool)
    ensures
        found == starts_with(text@, prefix@),
{
    let found = str_occurs_at(text, prefix, 0);
    assert(prefix@.len() <= text@.len() ==> text@.take(prefix@.len() as int) == text@.subrange(
        0,
        prefix@.len() as int,
    ));
    found
}

/// Whether `text` ends with `suffix`.
pub fn str_ends_with(text: &str, suffix: &str) -> (found: bool)
    ensures
        found == ends_with(text@, suffix@),
{
    let n: usize = text.unicode_len();
    let m: usize = suffix.unicode_len();
    if m > n {
        return false;
    }
    let found = str_occurs_at(text, suffix, n - m);
    assert(text@.skip(n - m) == text@.subrange(n - m, n as int));
    found
}

/// Whether `part` stands somewhere in `text`.
pub fn str_contains(text: &str, part: &str) -> (found: bool)
    ensures
        found == contains(text@, part@),
{
    let n: usize = text.unicode_len();
    let m: usize = part.unicode_len();
    if m > n {
        return false;
    }
    let last: usize = n - m;
    let mut at: usize = 0;
    while at < last
        invariant
            n == text@.len(),
            m == part@.len(),
            last == n - m,
            at <= last,
            forall|k: int| 0 <= k < at ==> !occurs_at(text@, part@, k),
        decreases last - at,
    {
        if str_occurs_at(text, part, at) {
            return true;
        }
        at = at + 1;
    }
    str_occurs_at(text, part, last)
}

} // verus!
