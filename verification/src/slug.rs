//! Slugs: identifiers that are safe in MQTT topics and Home Assistant object ids.

use crate::text::{ascii_alphanumeric, ascii_lowercase, is_alphanumeric, to_lowercase};
use vstd::prelude::*;
use vstd::string::*;

verus! {

/// The runs of ASCII letters and digits of `s` in lower case, joined by single underscores.
pub open spec fn slug(s: Seq<char>) -> Seq<char>
    decreases s.len(),
{
    if s.len() == 0 {
        Seq::empty()
    } else {
        let before = slug(s.drop_last());
        let c = s.last();
        if !ascii_alphanumeric(c) {
            before
        } else if before.len() > 0 && !ascii_alphanumeric(s[s.len() - 2]) {
            before.push('_').push(ascii_lowercase(c))
        } else {
            before.push(ascii_lowercase(c))
        }
    }
}

/// A small ASCII letter or a digit.
pub open spec fn slug_letter(c: char) -> bool {
    ('0' <= c && c <= '9') || ('a' <= c && c <= 'z')
}

/// Small ASCII letters, digits and single underscores between them.
pub open spec fn slug_shaped(t: Seq<char>) -> bool {
    &&& forall|i: int| 0 <= i < t.len() ==> slug_letter(#[trigger] t[i]) || t[i] == '_'
    &&& t.len() > 0 ==> t[0] != '_' && t.last() != '_'
    &&& forall|i: int| 0 <= i < t.len() - 1 && #[trigger] t[i] == '_' ==> t[i + 1] != '_'
}

/// Sanitizes a hardware id (`ble:AA:BB`, `serial:/dev/ttyUSB0`) into a slug.
pub fn slugify(id: &str) -> (r: String)
    ensures
        r@ == slug(id@),
{
    let mut out = String::new();
    let mut pending = false;
    for c in chars: id.chars()
        invariant
            out@ == slug(id@.take(chars.index() as int)),
            chars.seq() == id@,
            pending == (chars.index() > 0 && !ascii_alphanumeric(id@[chars.index() - 1])),
    {
        let ghost before = id@.take(chars.index() as int);
        let ghost now = id@.take(chars.index() + 1);
        assert(now.drop_last() =~= before);
        if is_alphanumeric(c) {
            if pending && !out.as_str().is_empty() {
                out.push('_');
            }
            out.push(to_lowercase(c));
            pending = false;
        } else {
            pending = true;
        }
    }
    assert(id@.take(id@.len() as int) =~= id@);
    out
}

/// Every slug is made of small ASCII letters, digits and single underscores between them.
/// So none holds a topic separator or a wildcard.
pub proof fn law_slugs_are_slug_shaped(id: Seq<char>)
    ensures
        slug_shaped(slug(id)),
        !slug(id).contains('/'),
        !slug(id).contains('+'),
        !slug(id).contains('#'),
    decreases id.len(),
{
    if id.len() > 0 {
        law_slugs_are_slug_shaped(id.drop_last());
        let before = slug(id.drop_last());
        let c = id.last();
        assert(ascii_alphanumeric(c) ==> slug_letter(ascii_lowercase(c)));
    }
}

/// What is slug-shaped already is its own slug.
pub proof fn law_slug_shaped_ids_stay(t: Seq<char>)
    requires
        slug_shaped(t),
    ensures
        slug(t) == t,
{
    lemma_slug_of_prefix(t, t.len());
    assert(t.take(t.len() as int) =~= t);
}

/// The slug of a prefix of a slug-shaped text is that prefix without a final underscore.
proof fn lemma_slug_of_prefix(t: Seq<char>, n: nat)
    requires
        slug_shaped(t),
        n <= t.len(),
    ensures
        n > 0 && t[n - 1] == '_' ==> slug(t.take(n as int)) == t.take(n - 1),
        !(n > 0 && t[n - 1] == '_') ==> slug(t.take(n as int)) == t.take(n as int),
    decreases n,
{
    if n > 0 {
        lemma_slug_of_prefix(t, (n - 1) as nat);
        assert(t.take(n as int).drop_last() =~= t.take(n - 1));
        assert(slug_letter(t[n - 1]) || t[n - 1] == '_');
        if t[n - 1] != '_' {
            assert(ascii_lowercase(t[n - 1]) == t[n - 1]);
            if n > 1 && t[n - 2] == '_' {
                assert(t.take(n - 2).push('_').push(t[n - 1]) =~= t.take(n as int));
            } else {
                assert(t.take(n - 1).push(t[n - 1]) =~= t.take(n as int));
            }
        }
    } else {
        assert(t.take(0) =~= Seq::empty());
    }
}

/// Making a slug twice changes nothing more.
pub proof fn law_slug_is_idempotent(id: Seq<char>)
    ensures
        slug(slug(id)) == slug(id),
{
    law_slugs_are_slug_shaped(id);
    law_slug_shaped_ids_stay(slug(id));
}

/// How many of the first `n` characters are ASCII letters or digits.
pub open spec fn letters_before(t: Seq<char>, n: int) -> int
    decreases n,
{
    if n <= 0 {
        0
    } else if letter_or_digit(t[n - 1]) {
        letters_before(t, n - 1) + 1
    } else {
        letters_before(t, n - 1)
    }
}

/// One of `0` to `9`, `A` to `Z` and `a` to `z`.
pub open spec fn letter_or_digit(c: char) -> bool {
    ||| '0' <= c && c <= '9'
    ||| 'A' <= c && c <= 'Z'
    ||| 'a' <= c && c <= 'z'
}

/// `d` is the small letter of the capital `c`, or `c` is no capital and `d` is the same.
pub open spec fn small_of(c: char, d: char) -> bool {
    if 'A' <= c && c <= 'Z' {
        d as int - c as int == 'a' as int - 'A' as int
    } else {
        d == c
    }
}

/// The same letter or digit of an id and of its slug: as many stand before it in both.
pub open spec fn same_letter(id: Seq<char>, i: int, t: Seq<char>, a: int) -> bool {
    &&& 0 <= i < id.len() && letter_or_digit(id[i])
    &&& 0 <= a < t.len() && letter_or_digit(t[a])
    &&& letters_before(id, i) == letters_before(t, a)
}

/// A slug holds all ASCII letters and digits of the id and no others, in their order and in
/// lower case.
pub proof fn law_slugs_keep_all_letters(id: Seq<char>)
    ensures
        letters_before(slug(id), slug(id).len() as int) == letters_before(id, id.len() as int),
        forall|i: int, a: int| #[trigger] same_letter(id, i, slug(id), a) ==> small_of(id[i], slug(id)[a]),
    decreases id.len(),
{
    if id.len() > 0 {
        let before = id.drop_last();
        let c = id.last();
        let old = slug(before);
        let new = slug(id);
        law_slugs_keep_all_letters(before);
        lemma_slug_grows(id);
        lemma_same_letters_before(id, before, before.len() as int);
        lemma_same_letters_before(new, old, old.len() as int);
        reveal_with_fuel(letters_before, 3);
        assert(letters_before(new, new.len() as int) == letters_before(id, id.len() as int));
        assert forall|i: int, a: int| #[trigger] same_letter(id, i, new, a) implies small_of(id[i], new[a]) by {
            lemma_same_letters_before(id, before, if i < before.len() { i } else { before.len() as int });
            lemma_same_letters_before(new, old, if a < old.len() { a } else { old.len() as int });
            if i < before.len() && a < old.len() {
                assert(same_letter(before, i, old, a));
            } else if i < before.len() {
                lemma_fewer_letters_before(before, i);
            } else if a < old.len() {
                lemma_fewer_letters_before(old, a);
            }
        }
    }
}

/// Between two neighbouring letters of an id, the slug has an underscore if and only if
/// another character stands between them in the id.
pub proof fn law_slugs_part_what_is_parted(id: Seq<char>, i: int, j: int, a: int, b: int)
    requires
        same_letter(id, i, slug(id), a),
        same_letter(id, j, slug(id), b),
        letters_before(id, j) == letters_before(id, i) + 1,
    ensures
        j == i + 1 ==> b == a + 1,
        j != i + 1 ==> b == a + 2 && slug(id)[a + 1] == '_',
    decreases id.len(),
{
    let before = id.drop_last();
    let old = slug(before);
    let new = slug(id);
    lemma_slug_grows(id);
    law_slugs_keep_all_letters(before);
    let n = before.len() as int;
    let m = old.len() as int;
    lemma_same_letters_before(id, before, n);
    lemma_same_letters_before(new, old, m);
    lemma_letters_rise(id, i, j);
    if j < n {
        lemma_same_letters_before(id, before, i);
        lemma_same_letters_before(id, before, j);
        lemma_fewer_letters_before(before, j);
        if b >= m {
            assert(letters_before(new, b) >= letters_before(old, m));
        }
        lemma_letters_rise(new, a, b);
        lemma_same_letters_before(new, old, a);
        lemma_same_letters_before(new, old, b);
        law_slugs_part_what_is_parted(before, i, j, a, b);
    } else {
        lemma_same_letters_before(id, before, i);
        law_slugs_are_slug_shaped(before);
        if b < m {
            lemma_same_letters_before(new, old, b);
            lemma_fewer_letters_before(old, b);
        }
        lemma_letters_rise(new, a, b);
        lemma_same_letters_before(new, old, a);
        assert(letters_before(before, n) == letters_before(before, i) + 1);
        assert(letters_before(old, m) == letters_before(old, a) + 1);
        assert(letter_or_digit(old[m - 1]));
        if a < m - 1 {
            assert(letters_before(old, m) == letters_before(old, m - 1) + 1);
            lemma_fewer_letters_before(old.take(m - 1), a);
            lemma_same_letters_before(old, old.take(m - 1), a);
            lemma_same_letters_before(old, old.take(m - 1), m - 1);
        }
        assert(a == m - 1);
        if i < n - 1 {
            if letter_or_digit(id[n - 1]) {
                lemma_fewer_letters_before(before.take(n - 1), i);
                lemma_same_letters_before(before, before.take(n - 1), i);
                lemma_same_letters_before(before, before.take(n - 1), n - 1);
            }
        }
    }
}

/// How the slug grows with the last character of the id.
proof fn lemma_slug_grows(id: Seq<char>)
    requires
        id.len() > 0,
    ensures
        ({
            let old = slug(id.drop_last());
            let new = slug(id);
            let c = id.last();
            &&& !letter_or_digit(c) ==> new == old
            &&& letter_or_digit(c) ==> small_of(c, new.last()) && letter_or_digit(new.last()) && new.len() > 0
            &&& letter_or_digit(c) && old.len() > 0 && !letter_or_digit(id[id.len() - 2]) ==> new == old.push('_').push(
                new.last(),
            )
            &&& letter_or_digit(c) && !(old.len() > 0 && !letter_or_digit(id[id.len() - 2])) ==> new == old.push(
                new.last(),
            )
        }),
{
}

/// The letters among the first characters depend on these alone.
proof fn lemma_same_letters_before(t: Seq<char>, u: Seq<char>, n: int)
    requires
        0 <= n <= t.len(),
        n <= u.len(),
        forall|i: int| 0 <= i < n ==> t[i] == u[i],
    ensures
        letters_before(t, n) == letters_before(u, n),
    decreases n,
{
    if n > 0 {
        lemma_same_letters_before(t, u, n - 1);
    }
}

/// Before a letter stand fewer letters than there are.
proof fn lemma_fewer_letters_before(t: Seq<char>, i: int)
    requires
        0 <= i < t.len(),
        letter_or_digit(t[i]),
    ensures
        letters_before(t, i) < letters_before(t, t.len() as int),
{
    lemma_letters_between(t, i + 1, t.len() as int);
}

/// Letters only add up.
proof fn lemma_letters_between(t: Seq<char>, m: int, n: int)
    requires
        0 <= m <= n,
    ensures
        letters_before(t, m) <= letters_before(t, n),
    decreases n - m,
{
    if m < n {
        lemma_letters_between(t, m, n - 1);
    }
}

/// Where more letters stand before it, the later one stands.
proof fn lemma_letters_rise(t: Seq<char>, i: int, j: int)
    requires
        0 <= i < t.len(),
        0 <= j < t.len(),
        letters_before(t, i) < letters_before(t, j),
    ensures
        i < j,
{
    if j <= i {
        lemma_letters_between(t, j, i);
    }
}

} // verus!
