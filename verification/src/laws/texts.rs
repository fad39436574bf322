//! Texts, numbers in texts, and lists in order.

use vstd::prelude::*;
use vstd::string::*;

use crate::sync::order::{in_order, precedes};
use crate::text::{
    begins, boundary_at, clipped, decimal_text, digit, digit_value, digits_value, filled_left, filled_right,
    i64_value, integer_text, integer_value, join_text, occurs, occurs_at, padded_text, pieces, small, small_text,
    split_first, split_last, trim_text, trimmed_back, trimmed_end, trimmed_front, until, white,
};

verus! {

/// A number reads back from what it is written as, and is written without leading
/// zeros.
pub proof fn decimals_read_back(n: nat)
    ensures
        digits_value(decimal_text(n)) == Some(n),
        decimal_text(n).len() >= 1,
        n > 0 ==> decimal_text(n)[0] != '0',
        decimal_text(n)[0] != '-' && decimal_text(n)[0] != '+',
    decreases n,
{
    if n < 10 {
        assert(decimal_text(n) =~= seq![digit(n)]);
        assert(decimal_text(n).last() == digit(n));
    } else {
        decimals_read_back(n / 10);
        let t = decimal_text(n / 10);
        assert(decimal_text(n) =~= t.push(digit(n % 10)));
        assert(t.push(digit(n % 10)).drop_last() =~= t);
        assert(t.push(digit(n % 10)).last() == digit(n % 10));
        assert(t.push(digit(n % 10))[0] == t[0]);
    }
}

/// An integer reads back from what it is written as.
pub proof fn integers_read_back(n: i64)
    ensures
        integer_value(integer_text(n as int)) == Some(n as int),
        i64_value(integer_text(n as int)) == Some(n as int),
        n < 0 <==> integer_text(n as int)[0] == '-',
        integer_value(Seq::empty()) is None,
        integer_value(seq!['+'] + decimal_text(n as nat)) == Some(n as nat as int),
{
    reveal_strlit("-");
    decimals_read_back(n as nat);
    let plus = seq!['+'] + decimal_text(n as nat);
    assert(plus[0] == '+');
    assert(plus.skip(1) =~= decimal_text(n as nat));
    let t = integer_text(n as int);
    if n < 0 {
        decimals_read_back((-(n as int)) as nat);
        assert(t[0] == '-');
        assert(t.skip(1) =~= decimal_text((-(n as int)) as nat));
    } else {
        decimals_read_back(n as nat);
    }
}

/// Filling a number up with zeros keeps its value and reaches the width; a number that
/// is wide enough stays as it is.
pub proof fn padding_fills_up_with_zeros(n: nat, width: nat, i: int)
    ensures
        padded_text(n, width).len() >= width,
        decimal_text(n).len() >= width ==> padded_text(n, width) == decimal_text(n),
        decimal_text(n).len() < width ==> padded_text(n, width).len() == width,
        decimal_text(n).len() < width && 0 <= i < width - decimal_text(n).len() ==> padded_text(n, width)[i] == '0',
        decimal_text(n).len() < width ==> padded_text(n, width).skip(width - decimal_text(n).len()) == decimal_text(
            n,
        ),
{
    if decimal_text(n).len() < width {
        assert(padded_text(n, width).skip(width - decimal_text(n).len()) =~= decimal_text(n));
    }
}

/// Only decimal digits write a number.
pub proof fn only_digits_have_a_value(c: char)
    ensures
        digit_value(c) is Some <==> '0' <= c <= '9',
        digit_value('0') == Some(0nat),
        digit_value('9') == Some(9nat),
        digits_value(Seq::empty()) is None,
        forall|s: Seq<char>| !('0' <= c <= '9') ==> #[trigger] digits_value(s.push(c)) is None,
{
    assert forall|s: Seq<char>| !('0' <= c <= '9') implies #[trigger] digits_value(s.push(c)) is None by {
        assert(s.push(c).last() == c);
    }
}

/// A text splits at the first occurrence of a character, and what precedes it is what
/// comes before that.
pub proof fn texts_split_at_the_first_occurrence(a: Seq<char>, c: char, b: Seq<char>)
    requires
        !a.contains(c),
    ensures
        split_first(a + seq![c] + b, c) == Some((a, b)),
        until(a + seq![c] + b, c) == a,
        split_first(a, c) is None,
        until(a, c) == a,
{
    let s = a + seq![c] + b;
    assert(s[a.len() as int] == c);
    s.index_of_first_ensures(c);
    a.index_of_first_ensures(c);
    let i = s.index_of_first(c)->0;
    if i < a.len() {
        assert(a[i] == c);
    }
    assert(s.take(i) =~= a);
    assert(s.skip(i + 1) =~= b);
}

/// A text splits at the last occurrence of a character.
pub proof fn texts_split_at_the_last_occurrence(a: Seq<char>, c: char, b: Seq<char>)
    requires
        !b.contains(c),
    ensures
        split_last(a + seq![c] + b, c) == Some((a, b)),
        split_last(b, c) is None,
{
    let s = a + seq![c] + b;
    assert(s[a.len() as int] == c);
    s.index_of_last_ensures(c);
    b.index_of_last_ensures(c);
    let i = s.index_of_last(c)->0;
    if i > a.len() {
        assert(b[i - a.len() - 1] == c);
    }
    assert(s.take(i) =~= a);
    assert(s.skip(i + 1) =~= b);
}

/// A text is cut at every occurrence of a character and nowhere else.
pub proof fn texts_are_cut_at_every_occurrence(a: Seq<char>, c: char, b: Seq<char>)
    requires
        !a.contains(c),
    ensures
        pieces(a, c) == seq![a],
        pieces(a + seq![c] + b, c) == seq![a] + pieces(b, c),
{
    texts_split_at_the_first_occurrence(a, c, b);
}

/// What a text ends in is taken off as often as it occurs there, and nothing else is.
pub proof fn ends_are_taken_off(s: Seq<char>, c: char)
    ensures
        trimmed_end(s.push(c), c) == trimmed_end(s, c),
        s.len() > 0 && s.last() != c ==> trimmed_end(s, c) == s,
        s.len() == 0 ==> trimmed_end(s, c) == s,
{
    assert(s.push(c).drop_last() =~= s);
}

/// A text begins with another exactly where something follows that.
pub proof fn prefixes_are_found(p: Seq<char>, rest: Seq<char>, s: Seq<char>)
    ensures
        begins(p + rest, p),
        (p + rest).skip(p.len() as int) == rest,
        begins(s, p) ==> s == p + s.skip(p.len() as int),
{
    assert((p + rest).take(p.len() as int) =~= p);
    assert((p + rest).skip(p.len() as int) =~= rest);
    if begins(s, p) {
        assert(s =~= s.take(p.len() as int) + s.skip(p.len() as int));
    }
}

/// Capitals are made small by their place in the alphabet; everything else stays.
pub proof fn capitals_are_made_small(c: char, s: Seq<char>)
    ensures
        'A' <= c <= 'Z' ==> small(c) as u32 - 'a' as u32 == c as u32 - 'A' as u32 && 'a' <= small(c) <= 'z',
        !('A' <= c <= 'Z') ==> small(c) == c,
        small_text(s).len() == s.len(),
        small_text(small_text(s)) == small_text(s),
{
    assert(small_text(small_text(s)) =~= small_text(s));
}

proof fn lemma_front(w: Seq<char>, s: Seq<char>)
    requires
        forall|i: int| 0 <= i < w.len() ==> white(#[trigger] w[i]),
        s.len() > 0 ==> !white(s[0]),
    ensures
        trimmed_front(w + s) == s,
    decreases w.len(),
{
    if w.len() > 0 {
        assert((w + s)[0] == w[0]);
        assert((w + s).drop_first() =~= w.drop_first() + s);
        lemma_front(w.drop_first(), s);
    } else {
        assert(w + s =~= s);
    }
}

proof fn lemma_back(s: Seq<char>, w: Seq<char>)
    requires
        forall|i: int| 0 <= i < w.len() ==> white(#[trigger] w[i]),
        s.len() > 0 ==> !white(s.last()),
    ensures
        trimmed_back(s + w) == s,
    decreases w.len(),
{
    if w.len() > 0 {
        assert((s + w).last() == w.last());
        assert((s + w).drop_last() =~= s + w.drop_last());
        lemma_back(s, w.drop_last());
    } else {
        assert(s + w =~= s);
    }
}

/// Trimming takes off the whitespace around a text, on both sides, and nothing else.
pub proof fn whitespace_around_is_taken_off(before: Seq<char>, s: Seq<char>, after: Seq<char>)
    requires
        forall|i: int| 0 <= i < before.len() ==> white(#[trigger] before[i]),
        forall|i: int| 0 <= i < after.len() ==> white(#[trigger] after[i]),
        s.len() > 0 ==> !white(s[0]) && !white(s.last()),
    ensures
        trim_text(before + s + after) == s,
{
    if s.len() > 0 {
        assert(before + s + after =~= before + (s + after));
        assert((s + after)[0] == s[0]);
        lemma_front(before, s + after);
        lemma_back(s, after);
    } else {
        let w = before + after;
        assert(before + s + after =~= w + Seq::<char>::empty());
        lemma_front(w, Seq::empty());
        assert(s =~= Seq::empty());
    }
}

/// Blanks, tabs and line ends are whitespace; what is printed in ASCII is not.
pub proof fn whitespace_is_what_separates(c: char)
    ensures
        c == ' ' || c == '\t' || c == '\n' || c == '\r' ==> white(c),
        '!' <= c <= '~' ==> !white(c),
        white(c) <==> c == '\u{9}' || c == '\u{a}' || c == '\u{b}' || c == '\u{c}' || c == '\u{d}' || c == '\u{20}' || c
            == '\u{85}' || c == '\u{a0}' || c == '\u{1680}' || c == '\u{2000}' || c == '\u{2001}' || c == '\u{2002}' || c
            == '\u{2003}' || c == '\u{2004}' || c == '\u{2005}' || c == '\u{2006}' || c == '\u{2007}' || c == '\u{2008}'
            || c == '\u{2009}' || c == '\u{200a}' || c == '\u{2028}' || c == '\u{2029}' || c == '\u{202f}' || c
            == '\u{205f}' || c == '\u{3000}',
{
}

/// Parts are put together in their order, with the separator between each two of them
/// and nowhere else.
pub proof fn parts_are_joined_in_order(parts: Seq<Seq<char>>, last: Seq<char>, sep: Seq<char>)
    ensures
        join_text(Seq::empty(), sep).len() == 0,
        join_text(seq![last], sep) == last,
        parts.len() > 0 ==> join_text(parts.push(last), sep) == join_text(parts, sep) + sep + last,
{
    if parts.len() > 0 {
        assert(parts.push(last).drop_last() =~= parts);
    }
}

/// A text occurs in another exactly where something may precede and follow it there.
pub proof fn occurrences_are_found(a: Seq<char>, p: Seq<char>, b: Seq<char>, s: Seq<char>)
    ensures
        occurs(a + p + b, p),
        occurs(s, p) ==> exists|i: int|
            0 <= i <= s.len() - p.len() && #[trigger] s.take(i) + p + s.skip(i + p.len()) == s,
{
    let t = a + p + b;
    assert(t.subrange(a.len() as int, (a.len() + p.len()) as int) =~= p);
    assert(occurs_at(t, p, a.len() as int));
    if occurs(s, p) {
        let i = choose|i: int| #[trigger] occurs_at(s, p, i);
        assert(s.take(i) + p + s.skip(i + p.len()) =~= s) by {
            assert(s.subrange(i, i + p.len()) == p);
            assert forall|k: int| 0 <= k < s.len() implies (s.take(i) + p + s.skip(i + p.len()))[k] == s[k] by {
                if i <= k < i + p.len() {
                    assert(s.subrange(i, i + p.len())[k - i] == s[k]);
                }
            }
        }
    }
}

/// A column is filled up with blanks, behind a text or before it, to its width; a text
/// that is wide enough stays as it is.
pub proof fn columns_are_filled_up(s: Seq<char>, width: nat, i: int)
    ensures
        s.len() >= width ==> filled_right(s, width) == s && filled_left(s, width) == s,
        s.len() < width ==> {
            &&& filled_right(s, width).len() == width
            &&& filled_left(s, width).len() == width
            &&& filled_right(s, width).take(s.len() as int) == s
            &&& filled_left(s, width).skip(width - s.len()) == s
            &&& s.len() <= i < width ==> filled_right(s, width)[i] == ' '
            &&& 0 <= i < width - s.len() ==> filled_left(s, width)[i] == ' '
        },
{
    if s.len() < width {
        assert(filled_right(s, width).take(s.len() as int) =~= s);
        assert(filled_left(s, width).skip(width - s.len()) =~= s);
    }
}

/// A text within the limit is shown whole; a longer one is cut as late as the limit and
/// its characters allow, and marked.
pub proof fn long_texts_are_cut_late(t: Seq<char>, limit: nat, k: int)
    ensures
        vstd::utf8::encode_utf8(t).len() <= limit ==> clipped(t, limit) == t,
        vstd::utf8::encode_utf8(t).len() > limit ==> clipped(t, limit).len() >= 3 && clipped(t, limit).skip(
            clipped(t, limit).len() - 3,
        ) == seq!['.', '.', '.'],
        boundary_at(vstd::utf8::encode_utf8(t), limit) < k <= limit ==> !vstd::utf8::is_char_boundary(
            vstd::utf8::encode_utf8(t),
            k,
        ),
{
    reveal_strlit("...");
    let bytes = vstd::utf8::encode_utf8(t);
    if bytes.len() > limit {
        let c = clipped(t, limit);
        assert(c.skip(c.len() - 3) =~= seq!['.', '.', '.']);
    }
    lemma_late(bytes, limit, k);
}

proof fn lemma_late(bytes: Seq<u8>, limit: nat, k: int)
    ensures
        boundary_at(bytes, limit) < k <= limit ==> !vstd::utf8::is_char_boundary(bytes, k),
    decreases limit,
{
    if limit != 0 && !vstd::utf8::is_char_boundary(bytes, limit as int) {
        lemma_late(bytes, (limit - 1) as nat, k);
    }
}

/// An ordered list names no place twice, has smaller keys first, and keeps places with
/// equal keys as they stood.
pub proof fn lists_are_ordered_by_key(keys: Seq<int>, order: Seq<int>, i: int, j: int)
    requires
        in_order(keys, order),
        0 <= i < order.len(),
        0 <= j < order.len(),
    ensures
        order.len() == keys.len(),
        0 <= order[i] < keys.len(),
        order[i] == order[j] ==> i == j,
        keys[order[i]] < keys[order[j]] ==> i < j,
        keys[order[i]] == keys[order[j]] && order[i] < order[j] ==> i < j,
{
    if i < j {
        assert(precedes(keys, order[i], order[j]));
    } else if j < i {
        assert(precedes(keys, order[j], order[i]));
    }
}

} // verus!
