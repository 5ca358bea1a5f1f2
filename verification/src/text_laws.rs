//! What holds of decimal numbers, joined lists and the comparison of texts.

use crate::text::{ascii_lowercase, decimal, digit, equal_ignoring_ascii_case, joined, three_decimals};
use vstd::prelude::*;

verus! {

/// One of `0` to `9`.
pub open spec fn is_digit(c: char) -> bool {
    '0' <= c && c <= '9'
}

/// Nothing but digits.
pub open spec fn all_digits(t: Seq<char>) -> bool {
    forall|i: int| 0 <= i < t.len() ==> is_digit(#[trigger] t[i])
}

/// The number that a row of digits reads.
pub open spec fn number(t: Seq<char>) -> int
    decreases t.len(),
{
    if t.len() == 0 {
        0
    } else {
        10 * number(t.drop_last()) + (t.last() as int - '0' as int)
    }
}

/// The digits of a number read back as that number, and none of them is a leading zero.
pub proof fn law_decimals_read_back(n: nat)
    ensures
        decimal(n).len() > 0,
        all_digits(decimal(n)),
        number(decimal(n)) == n,
        decimal(n).len() > 1 ==> decimal(n)[0] != '0',
    decreases n,
{
    let t = decimal(n);
    if n < 10 {
        assert(t.drop_last() =~= Seq::empty());
        assert(number(t.drop_last()) == 0);
    } else {
        law_decimals_read_back(n / 10);
        assert(t.drop_last() =~= decimal(n / 10));
        if decimal(n / 10).len() == 1 {
            assert(n / 10 > 0);
            reveal_with_fuel(number, 2);
            assert(decimal(n / 10).drop_last() =~= Seq::empty());
        }
    }
}

/// A number with a sign, a point and three digits behind it.
pub open spec fn signed_thousandths(t: Seq<char>, negative: bool, thousandths: nat) -> bool {
    let unsigned = if negative {
        t.skip(1)
    } else {
        t
    };
    let n = unsigned.len() - 4;
    let units = unsigned.take(n);
    &&& negative ==> t.len() > 0 && t[0] == '-'
    &&& n > 0
    &&& unsigned[n] == '.'
    &&& all_digits(units)
    &&& n > 1 ==> units[0] != '0'
    &&& all_digits(unsigned.skip(n + 1))
    &&& number(units + unsigned.skip(n + 1)) == thousandths
}

/// Thousandths that are written with three decimals read back as that many thousandths, with
/// the sign.
pub proof fn law_three_decimals_read_back(negative: bool, thousandths: nat)
    ensures
        signed_thousandths(three_decimals(negative, thousandths), negative, thousandths),
{
    let t = three_decimals(negative, thousandths);
    let units = decimal(thousandths / 1000);
    let a = digit((thousandths / 100 % 10) as int);
    let b = digit((thousandths / 10 % 10) as int);
    let c = digit((thousandths % 10) as int);
    law_decimals_read_back(thousandths / 1000);
    let unsigned = if negative {
        t.skip(1)
    } else {
        t
    };
    assert(unsigned =~= units + seq!['.', a, b, c]);
    let n = units.len() as int;
    assert(unsigned.take(n) =~= units);
    let rest = unsigned.skip(n + 1);
    assert(rest =~= seq![a, b, c]);
    assert(units + rest =~= units.push(a).push(b).push(c));
    lemma_number_grows(units, a);
    lemma_number_grows(units.push(a), b);
    lemma_number_grows(units.push(a).push(b), c);
    lemma_last_digits(thousandths);
}

/// One more digit.
proof fn lemma_number_grows(t: Seq<char>, c: char)
    ensures
        number(t.push(c)) == 10 * number(t) + (c as int - '0' as int),
{
    assert(t.push(c).drop_last() =~= t);
}

/// A number and its last three digits.
proof fn lemma_last_digits(n: nat)
    ensures
        10 * (10 * (10 * (n / 1000) + n / 100 % 10) + n / 10 % 10) + n % 10 == n,
{
    assert(n / 1000 == n / 100 / 10);
    assert(n / 100 == n / 10 / 10);
}

/// The same character, or the same ASCII letter as a capital and as a small letter.
pub open spec fn same_but_for_case(c: char, d: char) -> bool {
    ||| c == d
    ||| 'A' <= c && c <= 'Z' && d as int == c as int + 32
    ||| 'A' <= d && d <= 'Z' && c as int == d as int + 32
}

/// Texts are equal but for case if and only if they are so character by character.
pub proof fn law_case_of_letters_does_not_count(a: Seq<char>, b: Seq<char>)
    ensures
        equal_ignoring_ascii_case(a, b) <==> a.len() == b.len() && forall|i: int|
            0 <= i < a.len() ==> same_but_for_case(#[trigger] a[i], b[i]),
{
    let lower = |c: char| ascii_lowercase(c);
    let x = a.map_values(lower);
    let y = b.map_values(lower);
    if equal_ignoring_ascii_case(a, b) {
        assert(x.len() == y.len());
        assert forall|i: int| 0 <= i < a.len() implies same_but_for_case(#[trigger] a[i], b[i]) by {
            assert(x[i] == y[i]);
        }
    }
    if a.len() == b.len() && forall|i: int| 0 <= i < a.len() ==> same_but_for_case(#[trigger] a[i], b[i]) {
        assert forall|i: int| 0 <= i < a.len() implies x[i] == y[i] by {
            assert(same_but_for_case(a[i], b[i]));
        }
        assert(x =~= y);
    }
}

/// Two lists that are joined one behind the other read as both joined, with the separator
/// between them; one item alone reads as it is, and none as nothing.
pub proof fn law_lists_are_joined_in_order(a: Seq<Seq<char>>, b: Seq<Seq<char>>, item: Seq<char>, separator: Seq<char>)
    ensures
        joined(Seq::empty(), separator) == Seq::<char>::empty(),
        joined(seq![item], separator) == item,
        a.len() > 0 && b.len() > 0 ==> joined(a + b, separator) == joined(a, separator) + separator + joined(
            b,
            separator,
        ),
    decreases b.len(),
{
    assert(seq![item].drop_last() =~= Seq::empty());
    assert(Seq::<char>::empty() + item =~= item);
    if a.len() > 0 && b.len() > 0 {
        let all = a + b;
        let before = b.drop_last();
        assert(all.drop_last() =~= a + before);
        if before.len() == 0 {
            assert(a + before =~= a);
            assert(Seq::<char>::empty() + b.last() =~= b.last());
            assert(joined(b, separator) =~= b.last());
        } else {
            law_lists_are_joined_in_order(a, before, item, separator);
            assert(joined(all, separator) =~= joined(a, separator) + separator + joined(b, separator));
        }
    }
}

} // verus!
