//! Characters and text: ASCII letters, decimal numbers, joining.

use vstd::prelude::*;
use vstd::string::*;

verus! {

/// `String::push` appends one character at the end of the string.
pub assume_specification[ String::push ](s: &mut String, c: char)
    ensures
        final(s)@ == old(s)@.push(c),
;

/// An ASCII letter or digit.
pub open spec fn ascii_alphanumeric(c: char) -> bool {
    ('0' <= c && c <= '9') || ('A' <= c && c <= 'Z') || ('a' <= c && c <= 'z')
}

/// An ASCII capital becomes the small letter; every other character stays.
pub open spec fn ascii_lowercase(c: char) -> char {
    if 'A' <= c && c <= 'Z' {
        (c as u32 + 32) as char
    } else {
        c
    }
}

/// Whether two texts differ in nothing but the case of ASCII letters.
pub open spec fn equal_ignoring_ascii_case(a: Seq<char>, b: Seq<char>) -> bool {
    a.map_values(|c: char| ascii_lowercase(c)) == b.map_values(|c: char| ascii_lowercase(c))
}

/// The digit that stands for `d`.
pub open spec fn digit(d: int) -> char {
    (48 + d) as char
}

/// The decimal digits of `n`, without leading zeros.
pub open spec fn decimal(n: nat) -> Seq<char>
    decreases n,
{
    if n < 10 {
        seq![digit(n as int)]
    } else {
        decimal(n / 10).push(digit((n % 10) as int))
    }
}

/// A number of thousandths, written with three decimals.
pub open spec fn three_decimals(negative: bool, thousandths: nat) -> Seq<char> {
    let sign = if negative {
        seq!['-']
    } else {
        Seq::empty()
    };
    sign + decimal(thousandths / 1000) + seq![
        '.',
        digit((thousandths / 100 % 10) as int),
        digit((thousandths / 10 % 10) as int),
        digit((thousandths % 10) as int),
    ]
}

/// The texts one after another, with `separator` between neighbours.
pub open spec fn joined(parts: Seq<Seq<char>>, separator: Seq<char>) -> Seq<char>
    decreases parts.len(),
{
    if parts.len() == 0 {
        Seq::empty()
    } else {
        let before = parts.drop_last();
        let lead = if before.len() == 0 {
            Seq::empty()
        } else {
            joined(before, separator) + separator
        };
        lead + parts.last()
    }
}

/// What the strings of a list read.
pub open spec fn texts(list: Seq<String>) -> Seq<Seq<char>> {
    list.map_values(|s: String| s@)
}

/// Tells whether `c` is an ASCII letter or digit.
pub fn is_alphanumeric(c: char) -> (r: bool)
    ensures
        r == ascii_alphanumeric(c),
{
    ('0' <= c && c <= '9') || ('A' <= c && c <= 'Z') || ('a' <= c && c <= 'z')
}

/// Maps an ASCII capital to its small letter.
pub fn to_lowercase(c: char) -> (r: char)
    ensures
        r == ascii_lowercase(c),
{
    if 'A' <= c && c <= 'Z' {
        (c as u8 + 32) as char
    } else {
        c
    }
}

/// Appends the decimal digits of `n`.
pub fn push_decimal(out: &mut String, n: u128)
    ensures
        final(out)@ == old(out)@ + decimal(n as nat),
    decreases n,
{
    if n >= 10 {
        push_decimal(out, n / 10);
    }
    let d: u8 = (n % 10) as u8;
    out.push((48 + d) as char);
}

/// The units and the last three digits of a number of thousandths.
proof fn lemma_digits_of_thousandths(units: nat, rest: nat)
    requires
        rest < 1000,
    ensures
        (units * 1000 + rest) / 1000 == units,
        (units * 1000 + rest) / 100 % 10 == rest / 100,
        (units * 1000 + rest) / 10 % 10 == rest / 10 % 10,
        (units * 1000 + rest) % 10 == rest % 10,
{
    let k = units * 1000 + rest;
    assert(k / 100 == units * 10 + rest / 100);
    assert(k / 10 == units * 100 + rest / 10);
}

/// Writes `units` and `rest` thousandths with three decimals.
pub fn write_three_decimals(negative: bool, units: u128, rest: u64) -> (r: String)
    requires
        rest < 1000,
    ensures
        r@ == three_decimals(negative, (units * 1000 + rest) as nat),
{
    let mut out = String::new();
    if negative {
        out.push('-');
    }
    push_decimal(&mut out, units);
    out.push('.');
    out.push((48 + (rest / 100) as u8) as char);
    out.push((48 + (rest / 10 % 10) as u8) as char);
    out.push((48 + (rest % 10) as u8) as char);
    proof {
        lemma_digits_of_thousandths(units as nat, rest as nat);
    }
    assert(out@ =~= three_decimals(negative, (units * 1000 + rest) as nat));
    out
}

/// Joins a list of strings.
pub fn join(list: &Vec<String>, separator: &str) -> (r: String)
    ensures
        r@ == joined(texts(list@), separator@),
{
    let mut out = String::new();
    let mut i: usize = 0;
    while i < list.len()
        invariant
            i <= list.len(),
            out@ == joined(texts(list@).take(i as int), separator@),
        decreases list.len() - i,
    {
        assert(texts(list@).take(i + 1).drop_last() =~= texts(list@).take(i as int));
        if i > 0 {
            out.append(separator);
        }
        out.append(list[i].as_str());
        i += 1;
    }
    assert(texts(list@).take(i as int) =~= texts(list@));
    out
}

/// Lists the characters of a text.
pub fn chars_of(s: &str) -> (r: Vec<char>)
    ensures
        r@ == s@,
{
    let mut out: Vec<char> = Vec::new();
    for c in chars: s.chars()
        invariant
            chars.seq() == s@,
            out@ == s@.take(chars.index() as int),
    {
        out.push(c);
        assert(s@.take(chars.index() + 1) =~= s@.take(chars.index() as int).push(c));
    }
    assert(s@.take(s@.len() as int) =~= s@);
    out
}

/// Tells whether two texts differ in nothing but the case of ASCII letters.
pub fn eq_ignore_ascii_case(a: &str, b: &str) -> (r: bool)
    ensures
        r == equal_ignoring_ascii_case(a@, b@),
{
    let x = chars_of(a);
    let y = chars_of(b);
    let ghost lower = |c: char| ascii_lowercase(c);
    if x.len() != y.len() {
        assert(a@.map_values(lower).len() != b@.map_values(lower).len());
        return false;
    }
    let mut i: usize = 0;
    while i < x.len()
        invariant
            i <= x.len(),
            x.len() == y.len(),
            x@ == a@,
            y@ == b@,
            forall|j: int| 0 <= j < i ==> ascii_lowercase(#[trigger] x@[j]) == ascii_lowercase(y@[j]),
        decreases x.len() - i,
    {
        if to_lowercase(x[i]) != to_lowercase(y[i]) {
            proof {
                let lower = |c: char| ascii_lowercase(c);
                assert(a@.map_values(lower)[i as int] != b@.map_values(lower)[i as int]);
            }
            return false;
        }
        i += 1;
    }
    assert(a@.map_values(lower) =~= b@.map_values(lower));
    true
}

/// Tells whether two texts are the same.
pub fn same_text(a: &str, b: &str) -> (r: bool)
    ensures
        r == (a@ == b@),
{
    a.to_owned() == b.to_owned()
}

/// What `String::from_utf8_lossy` reads from bytes.
pub uninterp spec fn lossy_text(bytes: Seq<u8>) -> Seq<char>;

/// `String::from_utf8_lossy` decodes UTF-8. Where the bytes are valid, the text is what
/// they encode; which replacement characters stand for invalid bytes is not stated.
#[verifier::external_body]
pub(crate) fn decode_lossy(bytes: &[u8]) -> (r: String)
    ensures
        r@ == lossy_text(bytes@),
        vstd::utf8::valid_utf8(bytes@) ==> r@ == vstd::utf8::decode_utf8(bytes@),
{
    String::from_utf8_lossy(bytes).into_owned()
}

} // verus!
