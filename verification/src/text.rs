//! Strings as sequences of characters: the few operations the rest of the
//! library is written with.

use vstd::prelude::*;
use vstd::string::*;

verus! {

/// `String::push` appends one character at the end.
pub assume_specification[ String::push ](s: &mut String, ch: char)
    ensures
        final(s)@ == old(s)@.push(ch),
;

/// Whether two strings hold the same characters.
pub fn same(a: &str, b: &str) -> (r: bool)
    ensures
        r == (a@ == b@),
{
    a.to_owned() == b.to_owned()
}

/// The characters of a string, one per element.
pub fn chars_of(s: &str) -> (r: Vec<char>)
    ensures
        r@ == s@,
{
    let mut out: Vec<char> = Vec::new();
    for c in it: s.chars()
        invariant
            it.seq() == s@,
            out@ == s@.take(it.index() as int),
    {
        out.push(c);
        assert(s@.take(it.index() + 1) =~= s@.take(it.index() as int).push(c));
    }
    assert(s@.take(s@.len() as int) =~= s@);
    out
}

/// The character for a decimal digit.
pub open spec fn digit(d: nat) -> char {
    ('0' as u32 + d) as char
}

/// A number written in decimal, without leading zeros.
pub open spec fn decimal_text(n: nat) -> Seq<char>
    decreases n,
{
    if n < 10 {
        seq![digit(n)]
    } else {
        decimal_text(n / 10).push(digit(n % 10))
    }
}

/// A number written in decimal, filled up with zeros on the left to a width.
pub open spec fn padded_text(n: nat, width: nat) -> Seq<char> {
    let d = decimal_text(n);
    if d.len() >= width {
        d
    } else {
        Seq::new((width - d.len()) as nat, |i: int| '0') + d
    }
}

fn digit_char(d: u8) -> (r: char)
    requires
        d < 10,
    ensures
        r == digit(d as nat),
{
    (48u8 + d) as char
}

/// A number written in decimal.
pub fn decimal(n: u128) -> (r: String)
    ensures
        r@ == decimal_text(n as nat),
    decreases n,
{
    let d: u8 = (n % 10) as u8;
    let mut out = if n < 10 {
        String::new()
    } else {
        decimal(n / 10)
    };
    out.push(digit_char(d));
    assert(n < 10 ==> out@ =~= seq![digit(n as nat)]);
    out
}

/// A number written in decimal with at least `width` digits.
pub fn padded(n: u128, width: usize) -> (r: String)
    ensures
        r@ == padded_text(n as nat, width as nat),
{
    let d = decimal(n);
    let len: usize = d.as_str().unicode_len();
    let mut out = String::new();
    let mut i: usize = len;
    while i < width
        invariant
            len <= i,
            i <= width || i == len,
            out@ == Seq::new((i - len) as nat, |i: int| '0'),
        decreases width - i,
    {
        out.push('0');
        i += 1;
        assert(out@ =~= Seq::new((i - len) as nat, |i: int| '0'));
    }
    out.append(d.as_str());
    assert(out@ =~= padded_text(n as nat, width as nat));
    out
}

/// Two strings one after the other.
pub fn joined(a: &str, b: &str) -> (r: String)
    ensures
        r@ == a@ + b@,
{
    let mut out = a.to_owned();
    out.append(b);
    out
}

/// Three strings one after the other.
pub fn joined3(a: &str, b: &str, c: &str) -> (r: String)
    ensures
        r@ == a@ + b@ + c@,
{
    let mut out = a.to_owned();
    out.append(b);
    out.append(c);
    out
}

/// The part of a string from one place up to another.
pub fn part(chars: &Vec<char>, from: usize, to: usize) -> (r: String)
    requires
        from <= to <= chars.len(),
    ensures
        r@ == chars@.subrange(from as int, to as int),
{
    let mut out = String::new();
    let mut i: usize = from;
    while i < to
        invariant
            from <= i <= to,
            to <= chars.len(),
            out@ == chars@.subrange(from as int, i as int),
        decreases to - i,
    {
        out.push(chars[i]);
        assert(chars@.subrange(from as int, i + 1) =~= chars@.subrange(from as int, i as int).push(
            chars@[i as int],
        ));
        i += 1;
    }
    out
}

/// The first place of a character.
pub fn first_place(chars: &Vec<char>, c: char) -> (r: Option<usize>)
    ensures
        match r {
            Some(i) => chars@.index_of_first(c) == Some(i as int) && i < chars.len() && chars@[i as int] == c,
            None => chars@.index_of_first(c) is None,
        },
{
    let mut i: usize = 0;
    while i < chars.len()
        invariant
            i <= chars.len(),
            forall|j: int| 0 <= j < i ==> chars@[j] != c,
        decreases chars.len() - i,
    {
        if chars[i] == c {
            proof {
                chars@.index_of_first_ensures(c);
                assert(chars@.contains(c));
            }
            return Some(i);
        }
        i += 1;
    }
    proof {
        chars@.index_of_first_ensures(c);
    }
    None
}

/// The last place of a character.
pub fn last_place(chars: &Vec<char>, c: char) -> (r: Option<usize>)
    ensures
        match r {
            Some(i) => chars@.index_of_last(c) == Some(i as int) && i < chars.len() && chars@[i as int] == c,
            None => chars@.index_of_last(c) is None,
        },
{
    let mut i: usize = chars.len();
    while i > 0
        invariant
            i <= chars.len(),
            forall|j: int| i <= j < chars.len() ==> chars@[j] != c,
        decreases i,
    {
        i -= 1;
        if chars[i] == c {
            proof {
                chars@.index_of_last_ensures(c);
                assert(chars@.contains(c));
            }
            return Some(i);
        }
    }
    proof {
        chars@.index_of_last_ensures(c);
    }
    None
}

/// What precedes the first occurrence of a character; the whole where it does
/// not occur.
pub open spec fn until(s: Seq<char>, c: char) -> Seq<char> {
    match s.index_of_first(c) {
        Some(i) => s.take(i),
        None => s,
    }
}

/// The two parts around the first occurrence of a character.
pub open spec fn split_first(s: Seq<char>, c: char) -> Option<(Seq<char>, Seq<char>)> {
    match s.index_of_first(c) {
        Some(i) => Some((s.take(i), s.skip(i + 1))),
        None => None,
    }
}

/// The two parts around the last occurrence of a character.
pub open spec fn split_last(s: Seq<char>, c: char) -> Option<(Seq<char>, Seq<char>)> {
    match s.index_of_last(c) {
        Some(i) => Some((s.take(i), s.skip(i + 1))),
        None => None,
    }
}

/// A string without the occurrences of a character that it ends in.
pub open spec fn trimmed_end(s: Seq<char>, c: char) -> Seq<char>
    decreases s.len(),
{
    if s.len() > 0 && s.last() == c {
        trimmed_end(s.drop_last(), c)
    } else {
        s
    }
}

/// The parts of a string between the occurrences of a character.
pub open spec fn pieces(s: Seq<char>, c: char) -> Seq<Seq<char>>
    decreases s.len(),
{
    match split_first(s, c) {
        Some((a, b)) => if b.len() < s.len() {
            seq![a] + pieces(b, c)
        } else {
            seq![s]
        },
        None => seq![s],
    }
}

/// See [`until`].
pub fn text_until(s: &str, c: char) -> (r: String)
    ensures
        r@ == until(s@, c),
{
    let chars = chars_of(s);
    match first_place(&chars, c) {
        Some(i) => {
            let r = part(&chars, 0, i);
            assert(r@ =~= s@.take(i as int));
            r
        },
        None => s.to_owned(),
    }
}

/// See [`split_first`].
pub fn split_once(s: &str, c: char) -> (r: Option<(String, String)>)
    ensures
        match r {
            Some((a, b)) => split_first(s@, c) == Some((a@, b@)),
            None => split_first(s@, c) is None,
        },
{
    let chars = chars_of(s);
    match first_place(&chars, c) {
        Some(i) => {
            let a = part(&chars, 0, i);
            let b = part(&chars, i + 1, chars.len());
            assert(a@ =~= s@.take(i as int));
            assert(b@ =~= s@.skip(i + 1));
            Some((a, b))
        },
        None => None,
    }
}

/// See [`split_last`].
pub fn rsplit_once(s: &str, c: char) -> (r: Option<(String, String)>)
    ensures
        match r {
            Some((a, b)) => split_last(s@, c) == Some((a@, b@)),
            None => split_last(s@, c) is None,
        },
{
    let chars = chars_of(s);
    match last_place(&chars, c) {
        Some(i) => {
            let a = part(&chars, 0, i);
            let b = part(&chars, i + 1, chars.len());
            assert(a@ =~= s@.take(i as int));
            assert(b@ =~= s@.skip(i + 1));
            Some((a, b))
        },
        None => None,
    }
}

/// See [`trimmed_end`].
pub fn trim_end(s: &str, c: char) -> (r: String)
    ensures
        r@ == trimmed_end(s@, c),
{
    let chars = chars_of(s);
    let mut n: usize = chars.len();
    assert(s@.take(n as int) =~= s@);
    while n > 0 && chars[n - 1] == c
        invariant
            chars@ == s@,
            n <= chars.len(),
            trimmed_end(s@, c) == trimmed_end(s@.take(n as int), c),
        decreases n,
    {
        assert(s@.take(n as int).drop_last() =~= s@.take(n - 1));
        n -= 1;
    }
    let r = part(&chars, 0, n);
    assert(r@ =~= s@.take(n as int));
    r
}

/// The views of a sequence of strings.
pub open spec fn texts(v: Seq<String>) -> Seq<Seq<char>> {
    Seq::new(v.len(), |i: int| v[i]@)
}

/// The views of a sequence of borrowed texts.
pub open spec fn strs(v: Seq<&'static str>) -> Seq<Seq<char>> {
    Seq::new(v.len(), |i: int| v[i]@)
}

/// See [`pieces`].
pub fn split(s: &str, c: char) -> (r: Vec<String>)
    ensures
        texts(r@) == pieces(s@, c),
        r.len() >= 1,
{
    let mut out: Vec<String> = Vec::new();
    let mut rest = s.to_owned();
    let ghost mut done = Seq::<Seq<char>>::empty();
    assert(done + pieces(rest@, c) =~= pieces(s@, c));
    loop
        invariant
            texts(out@) == done,
            done + pieces(rest@, c) == pieces(s@, c),
        ensures
            texts(out@) == done,
            done + pieces(rest@, c) == pieces(s@, c),
            split_first(rest@, c) is None,
        decreases rest@.len(),
    {
        let (a, b) = match split_once(rest.as_str(), c) {
            Some(parts) => parts,
            None => {
                break;
            },
        };
        proof {
            rest@.index_of_first_ensures(c);
            assert(done + (seq![a@] + pieces(b@, c)) =~= done.push(a@) + pieces(b@, c));
            done = done.push(a@);
        }
        out.push(a);
        assert(texts(out@) =~= done);
        rest = b;
    }
    out.push(rest);
    assert(texts(out@) =~= done.push(rest@));
    assert(done.push(rest@) =~= done + seq![rest@]);
    out
}

/// Whether a string begins with another.
pub open spec fn begins(s: Seq<char>, prefix: Seq<char>) -> bool {
    s.len() >= prefix.len() && s.take(prefix.len() as int) == prefix
}

/// What follows a prefix.
pub fn strip_prefix(s: &str, prefix: &str) -> (r: Option<String>)
    ensures
        match r {
            Some(rest) => begins(s@, prefix@) && rest@ == s@.skip(prefix@.len() as int),
            None => !begins(s@, prefix@),
        },
{
    let a = chars_of(s);
    let b = chars_of(prefix);
    if a.len() < b.len() {
        return None;
    }
    let mut i: usize = 0;
    while i < b.len()
        invariant
            a@ == s@,
            b@ == prefix@,
            i <= b.len() <= a.len(),
            forall|j: int| 0 <= j < i ==> a@[j] == b@[j],
        decreases b.len() - i,
    {
        if a[i] != b[i] {
            assert(s@.take(prefix@.len() as int)[i as int] != prefix@[i as int]);
            return None;
        }
        i += 1;
    }
    assert(s@.take(prefix@.len() as int) =~= prefix@);
    let r = part(&a, b.len(), a.len());
    assert(r@ =~= s@.skip(prefix@.len() as int));
    Some(r)
}

/// An ASCII capital made small; any other character as it is.
pub open spec fn small(c: char) -> char {
    if 'A' <= c <= 'Z' {
        (c as u32 + 32) as char
    } else {
        c
    }
}

/// A string with its ASCII capitals made small.
pub open spec fn small_text(s: Seq<char>) -> Seq<char> {
    Seq::new(s.len(), |i: int| small(s[i]))
}

fn small_char(c: char) -> (r: char)
    ensures
        r == small(c),
{
    if 'A' <= c && c <= 'Z' {
        ((c as u8) + 32) as char
    } else {
        c
    }
}

/// A copy with ASCII capitals made small.
pub fn to_small(s: &str) -> (r: String)
    ensures
        r@ == small_text(s@),
{
    let chars = chars_of(s);
    let mut out = String::new();
    let mut i: usize = 0;
    while i < chars.len()
        invariant
            chars@ == s@,
            i <= chars.len(),
            out@ == small_text(s@).take(i as int),
        decreases chars.len() - i,
    {
        out.push(small_char(chars[i]));
        assert(small_text(s@).take(i + 1) =~= small_text(s@).take(i as int).push(small(s@[i as int])));
        i += 1;
    }
    assert(small_text(s@).take(s@.len() as int) =~= small_text(s@));
    out
}

/// Whether two strings differ at most in the case of ASCII letters.
pub fn same_ignoring_case(a: &str, b: &str) -> (r: bool)
    ensures
        r == (small_text(a@) == small_text(b@)),
{
    same(to_small(a).as_str(), to_small(b).as_str())
}

/// The value of a decimal digit.
pub open spec fn digit_value(c: char) -> Option<nat> {
    if '0' <= c <= '9' {
        Some((c as u32 - '0' as u32) as nat)
    } else {
        None
    }
}

/// The number that a string of decimal digits writes; nothing where it is empty
/// or holds another character.
pub open spec fn digits_value(s: Seq<char>) -> Option<nat>
    decreases s.len(),
{
    if s.len() == 0 {
        None
    } else {
        match digit_value(s.last()) {
            None => None,
            Some(d) => if s.len() == 1 {
                Some(d)
            } else {
                match digits_value(s.drop_last()) {
                    Some(v) => Some(v * 10 + d),
                    None => None,
                }
            },
        }
    }
}

/// The integer that a string writes: decimal digits after an optional sign.
pub open spec fn integer_value(s: Seq<char>) -> Option<int> {
    if s.len() > 0 && s[0] == '-' {
        match digits_value(s.skip(1)) {
            Some(v) => Some(-(v as int)),
            None => None,
        }
    } else if s.len() > 0 && s[0] == '+' {
        match digits_value(s.skip(1)) {
            Some(v) => Some(v as int),
            None => None,
        }
    } else {
        match digits_value(s) {
            Some(v) => Some(v as int),
            None => None,
        }
    }
}

/// The 64-bit signed integer that a string writes.
pub open spec fn i64_value(s: Seq<char>) -> Option<int> {
    match integer_value(s) {
        Some(v) => if i64::MIN <= v <= i64::MAX {
            Some(v)
        } else {
            None
        },
        None => None,
    }
}

proof fn lemma_digits_prefix(s: Seq<char>, n: int)
    requires
        0 < n <= s.len(),
        digits_value(s) is Some,
    ensures
        digits_value(s.take(n)) is Some,
        digits_value(s.take(n))->0 <= digits_value(s)->0,
    decreases s.len(),
{
    if n == s.len() {
        assert(s.take(n) =~= s);
    } else {
        lemma_digits_prefix(s.drop_last(), n);
        assert(s.drop_last().take(n) =~= s.take(n));
    }
}

/// The digits of a string as a number of at most `2^64`; nothing where the
/// string is not made of digits or writes more than that.
fn digits(chars: &Vec<char>, from: usize) -> (r: Option<u128>)
    requires
        from <= chars.len(),
    ensures
        match r {
            Some(v) => digits_value(chars@.skip(from as int)) == Some(v as nat) && v <= 0x1_0000_0000_0000_0000,
            None => digits_value(chars@.skip(from as int)) is None || digits_value(chars@.skip(from as int))->0
                > 0x1_0000_0000_0000_0000,
        },
{
    let ghost s = chars@.skip(from as int);
    if from == chars.len() {
        return None;
    }
    let mut v: u128 = 0;
    let mut i: usize = from;
    while i < chars.len()
        invariant
            from <= i <= chars.len(),
            from < chars.len(),
            s == chars@.skip(from as int),
            v <= 0x1_0000_0000_0000_0000,
            i > from ==> digits_value(s.take(i - from)) == Some(v as nat),
            i == from ==> v == 0,
        decreases chars.len() - i,
    {
        let c = chars[i];
        let ghost n = i - from;
        assert(s.take(n + 1).drop_last() =~= s.take(n));
        assert(s.take(n + 1).last() == c);
        if c < '0' || c > '9' {
            proof {
                if digits_value(s) is Some {
                    lemma_digits_prefix(s, n + 1);
                }
            }
            return None;
        }
        let d: u128 = ((c as u8) - 48u8) as u128;
        v = v * 10 + d;
        assert(digits_value(s.take(n + 1)) == Some(v as nat));
        if v > 0x1_0000_0000_0000_0000 {
            proof {
                if digits_value(s) is Some {
                    lemma_digits_prefix(s, n + 1);
                }
            }
            return None;
        }
        i += 1;
    }
    assert(s.take(s.len() as int) =~= s);
    Some(v)
}

/// See [`i64_value`].
pub fn parse_i64(s: &str) -> (r: Option<i64>)
    ensures
        match r {
            Some(v) => i64_value(s@) == Some(v as int),
            None => i64_value(s@) is None,
        },
{
    let chars = chars_of(s);
    if chars.len() > 0 && chars[0] == '-' {
        match digits(&chars, 1) {
            Some(v) => if v <= 0x8000_0000_0000_0000 {
                Some((-(v as i128)) as i64)
            } else {
                None
            },
            None => None,
        }
    } else if chars.len() > 0 && chars[0] == '+' {
        match digits(&chars, 1) {
            Some(v) => if v <= 0x7fff_ffff_ffff_ffff {
                Some(v as i64)
            } else {
                None
            },
            None => None,
        }
    } else {
        assert(s@.skip(0) =~= s@);
        match digits(&chars, 0) {
            Some(v) => if v <= 0x7fff_ffff_ffff_ffff {
                Some(v as i64)
            } else {
                None
            },
            None => None,
        }
    }
}

/// A string as `{:?}` writes it: in double quotes, with escapes.
pub uninterp spec fn debug_text(s: Seq<char>) -> Seq<char>;

/// A string written by its `std::fmt::Debug` impl. The result depends on the
/// string alone; which characters are escaped is left to std.
#[verifier::external_body]
pub(crate) fn quoted(s: &str) -> (r: String)
    ensures
        r@ == debug_text(s@),
{
    format!("{s:?}")
}

/// The parts with a separator between each two of them.
pub open spec fn join_text(parts: Seq<Seq<char>>, sep: Seq<char>) -> Seq<char>
    decreases parts.len(),
{
    if parts.len() == 0 {
        Seq::empty()
    } else if parts.len() == 1 {
        parts[0]
    } else {
        join_text(parts.drop_last(), sep) + sep + parts.last()
    }
}

proof fn lemma_join_front(first: Seq<char>, rest: Seq<Seq<char>>, sep: Seq<char>)
    requires
        rest.len() > 0,
    ensures
        join_text(seq![first] + rest, sep) == first + sep + join_text(rest, sep),
    decreases rest.len(),
{
    let all = seq![first] + rest;
    if rest.len() == 1 {
        assert(all.drop_last() =~= seq![first]);
        assert(join_text(all, sep) == join_text(seq![first], sep) + sep + rest[0]);
    } else {
        lemma_join_front(first, rest.drop_last(), sep);
        assert(all.drop_last() =~= seq![first] + rest.drop_last());
        assert(join_text(all, sep) =~= first + sep + join_text(rest, sep));
    }
}

/// The parts of a text between the occurrences of a character, put together with
/// that character, are the text.
pub proof fn joined_pieces_are_the_text(s: Seq<char>, c: char)
    ensures
        pieces(s, c).len() > 0,
        join_text(pieces(s, c), seq![c]) == s,
    decreases s.len(),
{
    match split_first(s, c) {
        Some((a, b)) => {
            s.index_of_first_ensures(c);
            let i = s.index_of_first(c)->0;
            joined_pieces_are_the_text(b, c);
            lemma_join_front(a, pieces(b, c), seq![c]);
            assert(s =~= a + seq![c] + b);
        },
        None => {
            assert(pieces(s, c) == seq![s]);
        },
    }
}

/// See [`join_text`].
pub fn join(parts: &Vec<String>, sep: &str) -> (r: String)
    ensures
        r@ == join_text(texts(parts@), sep@),
{
    let mut out = String::new();
    let mut i: usize = 0;
    let ghost all = texts(parts@);
    assert(all.take(0) =~= Seq::<Seq<char>>::empty());
    while i < parts.len()
        invariant
            i <= parts.len(),
            all == texts(parts@),
            out@ == join_text(all.take(i as int), sep@),
        decreases parts.len() - i,
    {
        let ghost before = out@;
        if i > 0 {
            out.append(sep);
        }
        out.append(parts[i].as_str());
        proof {
            let t = all.take(i + 1);
            assert(t.drop_last() =~= all.take(i as int));
            assert(t.last() == parts@[i as int]@);
            if i == 0 {
                assert(before =~= Seq::<char>::empty());
                assert(out@ =~= t[0]);
            }
        }
        i += 1;
    }
    assert(all.take(all.len() as int) =~= all);
    out
}

/// The characters of an optional string.
pub open spec fn opt_text(o: Option<String>) -> Option<Seq<char>> {
    match o {
        Some(s) => Some(s@),
        None => None,
    }
}

/// The characters of an optional borrowed string.
pub open spec fn opt_str(o: Option<&str>) -> Option<Seq<char>> {
    match o {
        Some(s) => Some(s@),
        None => None,
    }
}

/// An owned copy of an optional string.
pub fn owned(o: Option<&str>) -> (r: Option<String>)
    ensures
        opt_text(r) == opt_str(o),
{
    match o {
        Some(s) => Some(s.to_owned()),
        None => None,
    }
}

/// An optional string, borrowed.
pub fn borrowed(o: &Option<String>) -> (r: Option<&str>)
    ensures
        opt_str(r) == opt_text(*o),
{
    match o {
        Some(s) => Some(s.as_str()),
        None => None,
    }
}

/// The characters that bytes are taken for when those that are not UTF-8 are
/// replaced.
pub uninterp spec fn lossy_text(bytes: Seq<u8>) -> Seq<char>;

/// `String::from_utf8_lossy`: the text of bytes that are UTF-8; other bytes are
/// replaced, in a way that depends on the bytes alone.
#[verifier::external_body]
pub(crate) fn from_lossy(bytes: &[u8]) -> (r: String)
    ensures
        r@ == lossy_text(bytes@),
        vstd::utf8::valid_utf8(bytes@) ==> r@ == vstd::utf8::decode_utf8(bytes@),
{
    String::from_utf8_lossy(bytes).into_owned()
}

/// `std::str::from_utf8`: the text of bytes that are UTF-8.
#[verifier::external_body]
pub(crate) fn from_utf8(bytes: &[u8]) -> (r: Option<String>)
    ensures
        match r {
            Some(s) => vstd::utf8::valid_utf8(bytes@) && s@ == vstd::utf8::decode_utf8(bytes@),
            None => !vstd::utf8::valid_utf8(bytes@),
        },
{
    std::str::from_utf8(bytes).ok().map(str::to_owned)
}

/// The largest place, at most `limit`, at which encoded text can be cut without
/// splitting a character.
pub open spec fn boundary_at(bytes: Seq<u8>, limit: nat) -> nat
    decreases limit,
{
    if limit == 0 || vstd::utf8::is_char_boundary(bytes, limit as int) {
        limit
    } else {
        boundary_at(bytes, (limit - 1) as nat)
    }
}

/// A text cut to its first `limit` bytes, or a little less, with an ellipsis;
/// the whole where it is no longer than that.
pub open spec fn clipped(t: Seq<char>, limit: nat) -> Seq<char> {
    let bytes = vstd::utf8::encode_utf8(t);
    if bytes.len() <= limit {
        t
    } else {
        vstd::utf8::decode_utf8(bytes.take(boundary_at(bytes, limit) as int)) + "..."@
    }
}

/// See [`clipped`].
pub fn clip(t: &str, limit: usize) -> (r: String)
    ensures
        r@ == clipped(t@, limit as nat),
{
    broadcast use vstd::utf8::encode_utf8_valid_utf8;

    let ghost bytes = t.spec_bytes();
    if t.as_bytes().len() <= limit {
        return t.to_owned();
    }
    let mut end: usize = limit;
    while end > 0 && !t.is_char_boundary(end)
        invariant
            bytes == t.spec_bytes(),
            end <= limit,
            boundary_at(bytes, limit as nat) == boundary_at(bytes, end as nat),
        decreases end,
    {
        end -= 1;
    }
    assert(vstd::utf8::is_char_boundary(bytes, end as int)) by {
        vstd::utf8::encode_utf8_valid_utf8(t@);
    }
    let (head, _) = t.split_at(end);
    proof {
        vstd::utf8::encode_utf8_decode_utf8(head@);
        assert(bytes.take(end as int) =~= bytes.subrange(0, end as int));
    }
    joined(head, "...")
}

/// A text is clipped within the limit and between two characters.
pub proof fn clipped_between_characters(t: Seq<char>, limit: nat)
    ensures
        boundary_at(vstd::utf8::encode_utf8(t), limit) <= limit,
        vstd::utf8::is_char_boundary(
            vstd::utf8::encode_utf8(t),
            boundary_at(vstd::utf8::encode_utf8(t), limit) as int,
        ),
{
    vstd::utf8::encode_utf8_valid_utf8(t);
    lemma_boundary(vstd::utf8::encode_utf8(t), limit);
}

proof fn lemma_boundary(bytes: Seq<u8>, limit: nat)
    requires
        vstd::utf8::valid_utf8(bytes),
    ensures
        boundary_at(bytes, limit) <= limit,
        vstd::utf8::is_char_boundary(bytes, boundary_at(bytes, limit) as int),
    decreases limit,
{
    if limit > 0 && !vstd::utf8::is_char_boundary(bytes, limit as int) {
        lemma_boundary(bytes, (limit - 1) as nat);
    }
}

/// Whether a text occurs in another at a place.
pub open spec fn occurs_at(s: Seq<char>, p: Seq<char>, i: int) -> bool {
    0 <= i && i + p.len() <= s.len() && s.subrange(i, i + p.len()) == p
}

/// Whether a text occurs in another.
pub open spec fn occurs(s: Seq<char>, p: Seq<char>) -> bool {
    exists|i: int| #[trigger] occurs_at(s, p, i)
}

/// See [`occurs`].
pub fn contains(s: &str, p: &str) -> (r: bool)
    ensures
        r == occurs(s@, p@),
{
    let a = chars_of(s);
    let b = chars_of(p);
    if b.len() > a.len() {
        return false;
    }
    let last: usize = a.len() - b.len();
    let mut i: usize = 0;
    while i <= last
        invariant
            a@ == s@,
            b@ == p@,
            last + b.len() == a.len(),
            i <= last + 1,
            forall|k: int| 0 <= k < i ==> !#[trigger] occurs_at(s@, p@, k),
        ensures
            forall|k: int| !#[trigger] occurs_at(s@, p@, k),
        decreases last + 1 - i,
    {
        let mut j: usize = 0;
        while j < b.len() && a[i + j] == b[j]
            invariant
                a@ == s@,
                b@ == p@,
                last + b.len() == a.len(),
                i <= last,
                j <= b.len(),
                forall|k: int| 0 <= k < j ==> a@[i + k] == b@[k],
            decreases b.len() - j,
        {
            j += 1;
        }
        if j == b.len() {
            assert(s@.subrange(i as int, i + p@.len()) =~= p@);
            assert(occurs_at(s@, p@, i as int));
            return true;
        }
        assert(s@.subrange(i as int, i + p@.len())[j as int] != p@[j as int]);
        i += 1;
        if i > last {
            break;
        }
    }
    false
}

/// Whether a list of strings holds a text.
pub fn listed(list: &Vec<String>, s: &str) -> (r: bool)
    ensures
        r == texts(list@).contains(s@),
{
    let mut i: usize = 0;
    while i < list.len()
        invariant
            i <= list.len(),
            forall|j: int| 0 <= j < i ==> (#[trigger] list@[j])@ != s@,
        decreases list.len() - i,
    {
        if same(list[i].as_str(), s) {
            assert(texts(list@)[i as int] == s@);
            return true;
        }
        i += 1;
    }
    assert forall|j: int| 0 <= j < texts(list@).len() implies texts(list@)[j] != s@ by {
        assert(list@[j]@ != s@);
    }
    false
}

/// An integer written in decimal, with a sign where it is negative.
pub open spec fn integer_text(n: int) -> Seq<char> {
    if n < 0 {
        "-"@ + decimal_text((-n) as nat)
    } else {
        decimal_text(n as nat)
    }
}

/// See [`integer_text`].
pub fn integer(n: i64) -> (r: String)
    ensures
        r@ == integer_text(n as int),
{
    if n < 0 {
        joined("-", decimal((-(n as i128)) as u128).as_str())
    } else {
        decimal(n as u128)
    }
}

/// Whether a character is whitespace, as Unicode has it: whether it has the
/// property White_Space.
pub open spec fn white(c: char) -> bool {
    let n = c as u32;
    9 <= n <= 13 || n == 0x20 || n == 0x85 || n == 0xa0 || n == 0x1680 || 0x2000 <= n <= 0x200a || n == 0x2028
        || n == 0x2029 || n == 0x202f || n == 0x205f || n == 0x3000
}

fn is_white(c: char) -> (r: bool)
    ensures
        r == white(c),
{
    let n: u32 = c as u32;
    (9 <= n && n <= 13) || n == 0x20 || n == 0x85 || n == 0xa0 || n == 0x1680 || (0x2000 <= n && n <= 0x200a)
        || n == 0x2028 || n == 0x2029 || n == 0x202f || n == 0x205f || n == 0x3000
}

/// A text without the whitespace that it begins with.
pub open spec fn trimmed_front(s: Seq<char>) -> Seq<char>
    decreases s.len(),
{
    if s.len() > 0 && white(s[0]) {
        trimmed_front(s.drop_first())
    } else {
        s
    }
}

/// A text without the whitespace that it ends with.
pub open spec fn trimmed_back(s: Seq<char>) -> Seq<char>
    decreases s.len(),
{
    if s.len() > 0 && white(s.last()) {
        trimmed_back(s.drop_last())
    } else {
        s
    }
}

/// A text without the whitespace around it.
pub open spec fn trim_text(s: Seq<char>) -> Seq<char> {
    trimmed_back(trimmed_front(s))
}

/// See [`trim_text`].
pub fn trim(s: &str) -> (r: String)
    ensures
        r@ == trim_text(s@),
{
    let chars = chars_of(s);
    let mut from: usize = 0;
    assert(s@.skip(0) =~= s@);
    while from < chars.len() && is_white(chars[from])
        invariant
            chars@ == s@,
            from <= chars.len(),
            trimmed_front(s@) == trimmed_front(s@.skip(from as int)),
        decreases chars.len() - from,
    {
        assert(s@.skip(from as int).drop_first() =~= s@.skip(from + 1));
        from += 1;
    }
    let ghost rest = s@.skip(from as int);
    assert(trimmed_front(s@) == rest);
    let mut to: usize = chars.len();
    assert(rest.take(rest.len() as int) =~= rest);
    while to > from && is_white(chars[to - 1])
        invariant
            chars@ == s@,
            from <= to <= chars.len(),
            rest == s@.skip(from as int),
            trimmed_back(rest) == trimmed_back(rest.take(to - from)),
        decreases to,
    {
        assert(rest.take(to - from).drop_last() =~= rest.take(to - from - 1));
        to -= 1;
    }
    let r = part(&chars, from, to);
    assert(r@ =~= rest.take(to - from));
    r
}

/// So many spaces.
pub open spec fn spaces(n: nat) -> Seq<char> {
    Seq::new(n, |i: int| ' ')
}

/// A text filled up with spaces on the right to a width.
pub open spec fn filled_right(s: Seq<char>, width: nat) -> Seq<char> {
    if s.len() >= width {
        s
    } else {
        s + spaces((width - s.len()) as nat)
    }
}

/// A text filled up with spaces on the left to a width.
pub open spec fn filled_left(s: Seq<char>, width: nat) -> Seq<char> {
    if s.len() >= width {
        s
    } else {
        spaces((width - s.len()) as nat) + s
    }
}

fn blank(n: usize) -> (r: String)
    ensures
        r@ == spaces(n as nat),
{
    let mut out = String::new();
    let mut i: usize = 0;
    while i < n
        invariant
            i <= n,
            out@ == spaces(i as nat),
        decreases n - i,
    {
        out.push(' ');
        i += 1;
        assert(out@ =~= spaces(i as nat));
    }
    out
}

/// See [`filled_right`].
pub fn fill_right(s: &str, width: usize) -> (r: String)
    ensures
        r@ == filled_right(s@, width as nat),
{
    let n: usize = s.unicode_len();
    if n >= width {
        s.to_owned()
    } else {
        joined(s, blank(width - n).as_str())
    }
}

/// See [`filled_left`].
pub fn fill_left(s: &str, width: usize) -> (r: String)
    ensures
        r@ == filled_left(s@, width as nat),
{
    let n: usize = s.unicode_len();
    if n >= width {
        s.to_owned()
    } else {
        joined(blank(width - n).as_str(), s)
    }
}

/// Puts bytes behind others.
pub fn append(out: &mut Vec<u8>, bytes: &[u8])
    ensures
        final(out)@ == old(out)@ + bytes@,
{
    let ghost was = out@;
    let mut i: usize = 0;
    while i < bytes.len()
        invariant
            i <= bytes.len(),
            out@ == was + bytes@.take(i as int),
        decreases bytes.len() - i,
    {
        out.push(bytes[i]);
        assert(bytes@.take(i + 1) =~= bytes@.take(i as int).push(bytes@[i as int]));
        i += 1;
    }
    assert(bytes@.take(bytes@.len() as int) =~= bytes@);
}

} // verus!
