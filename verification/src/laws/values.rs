//! JSON values: what they hold, when they are equal and how they are ordered.

use vstd::prelude::*;
use vstd::string::*;

use crate::json::{
    before, blob_note, blob_reference, equal, plain, redacted, signed_of, unsigned_of, JsonView, NumberView,
};
use crate::text;

verus! {

/// A member of an object is what its key is bound to; what is not an object has no
/// members.
pub proof fn members_are_found_by_key(m: Map<Seq<char>, JsonView>, k: Seq<char>, v: JsonView)
    ensures
        m.dom().contains(k) ==> JsonView::Object(m).field(k) == Some(m[k]),
        !m.dom().contains(k) ==> JsonView::Object(m).field(k) is None,
        !(v is Object) ==> v.field(k) is None,
{
}

/// A member is read as a text, a boolean or a list exactly where it is one.
pub proof fn members_are_read_as_what_they_are(
    m: Map<Seq<char>, JsonView>,
    k: Seq<char>,
    s: Seq<char>,
    b: bool,
    a: Seq<JsonView>,
)
    ensures
        ({
            let v = JsonView::Object(m);
            let bound = m.dom().contains(k);
            &&& v.text_at(k) == Some(s) <==> bound && m[k] == JsonView::Str(s)
            &&& v.bool_at(k) == Some(b) <==> bound && m[k] == JsonView::Bool(b)
            &&& v.array_at(k) == Some(a) <==> bound && m[k] == JsonView::Array(a)
            &&& v.text_at(k) is Some <==> bound && m[k] is Str
            &&& v.bool_at(k) is Some <==> bound && m[k] is Bool
            &&& v.array_at(k) is Some <==> bound && m[k] is Array
        }),
{
}

/// Integers are read in full where they fit, and nothing else is read as one.
pub proof fn integers_are_read_where_they_fit(i: int, t: Seq<char>)
    ensures
        unsigned_of(NumberView::Integer(i)) is Some <==> 0 <= i < 0x1_0000_0000_0000_0000,
        signed_of(NumberView::Integer(i)) is Some <==> -0x8000_0000_0000_0000 <= i < 0x8000_0000_0000_0000,
        unsigned_of(NumberView::Integer(i)) is Some ==> unsigned_of(NumberView::Integer(i))->0 == i,
        signed_of(NumberView::Integer(i)) is Some ==> signed_of(NumberView::Integer(i))->0 == i,
        unsigned_of(NumberView::Decimal(t)) is None,
        signed_of(NumberView::Decimal(t)) is None,
{
}

/// Equality of values is an equivalence.
pub proof fn equality_is_an_equivalence(a: JsonView, b: JsonView, c: JsonView)
    ensures
        equal(a, a),
        equal(a, b) ==> equal(b, a),
        equal(a, b) && equal(b, c) ==> equal(a, c),
{
}

/// Texts, booleans and integers are equal only to themselves, and never to a value of
/// another kind.
pub proof fn plain_values_equal_themselves_only(v: JsonView, s: Seq<char>, b: bool, i: int)
    ensures
        equal(JsonView::Str(s), v) <==> v == JsonView::Str(s),
        equal(JsonView::Bool(b), v) <==> v == JsonView::Bool(b),
        equal(JsonView::Null, v) <==> v == JsonView::Null,
        equal(JsonView::Number(NumberView::Integer(i)), v) <==> v == JsonView::Number(NumberView::Integer(i)),
{
    match v {
        JsonView::Number(n) => {
            assert(plain(v) is Number);
        },
        JsonView::Array(a) => {
            assert(plain(v) is Array);
        },
        JsonView::Object(m) => {
            assert(plain(v) is Object);
        },
        _ => {},
    }
}

/// Lists are equal where they are as long as each other and equal place by place.
pub proof fn lists_are_equal_place_by_place(a: Seq<JsonView>, b: Seq<JsonView>)
    ensures
        equal(JsonView::Array(a), JsonView::Array(b)) <==> a.len() == b.len() && forall|i: int|
            0 <= i < a.len() ==> equal(#[trigger] a[i], b[i]),
{
    let pa = plain(JsonView::Array(a))->Array_0;
    let pb = plain(JsonView::Array(b))->Array_0;
    assert(pa.len() == a.len() && pb.len() == b.len());
    assert(forall|i: int| 0 <= i < a.len() ==> #[trigger] pa[i] == plain(a[i]));
    assert(forall|i: int| 0 <= i < b.len() ==> #[trigger] pb[i] == plain(b[i]));
    if equal(JsonView::Array(a), JsonView::Array(b)) {
        assert forall|i: int| 0 <= i < a.len() implies equal(#[trigger] a[i], b[i]) by {
            assert(pa[i] == pb[i]);
        }
    }
    if a.len() == b.len() && forall|i: int| 0 <= i < a.len() ==> equal(#[trigger] a[i], b[i]) {
        assert(pa =~= pb) by {
            assert forall|i: int| 0 <= i < pa.len() implies pa[i] == pb[i] by {
                assert(equal(a[i], b[i]));
            }
        }
    }
}

/// Objects are equal where they have the same keys and equal values under each.
pub proof fn objects_are_equal_key_by_key(a: Map<Seq<char>, JsonView>, b: Map<Seq<char>, JsonView>)
    ensures
        equal(JsonView::Object(a), JsonView::Object(b)) <==> a.dom() == b.dom() && forall|k: Seq<char>| #[trigger]
            a.dom().contains(k) ==> equal(a[k], b[k]),
{
    let pa = plain(JsonView::Object(a))->Object_0;
    let pb = plain(JsonView::Object(b))->Object_0;
    assert(pa.dom() =~= a.dom());
    assert(pb.dom() =~= b.dom());
    assert(forall|k: Seq<char>| a.dom().contains(k) ==> #[trigger] pa[k] == plain(a[k]));
    assert(forall|k: Seq<char>| b.dom().contains(k) ==> #[trigger] pb[k] == plain(b[k]));
    if equal(JsonView::Object(a), JsonView::Object(b)) {
        assert forall|k: Seq<char>| #[trigger] a.dom().contains(k) implies equal(a[k], b[k]) by {
            assert(pa[k] == pb[k]);
        }
    }
    if a.dom() == b.dom() && forall|k: Seq<char>| #[trigger] a.dom().contains(k) ==> equal(a[k], b[k]) {
        assert(pa =~= pb);
    }
}

/// Texts are ordered by the first place at which they differ, and a text comes before
/// every longer one that begins with it.
pub proof fn texts_are_ordered_by_their_first_difference(
    p: Seq<char>,
    a: char,
    x: Seq<char>,
    b: char,
    y: Seq<char>,
)
    ensures
        a != b ==> (before(p + seq![a] + x, p + seq![b] + y) <==> a < b),
        before(p, p + seq![b] + y),
        !before(p + seq![b] + y, p),
        !before(p, p),
    decreases p.len(),
{
    let s = p + seq![a] + x;
    let t = p + seq![b] + y;
    if p.len() == 0 {
        assert(s[0] == a);
        assert(t[0] == b);
    } else {
        assert(s[0] == p[0]);
        assert(t[0] == p[0]);
        assert(s.drop_first() =~= p.drop_first() + seq![a] + x);
        assert(t.drop_first() =~= p.drop_first() + seq![b] + y);
        texts_are_ordered_by_their_first_difference(p.drop_first(), a, x, b, y);
    }
}

/// An object stands for a blob where it has the blob's number; it is shown as a note
/// with that number.
pub proof fn blobs_are_shown_by_number(m: Map<Seq<char>, JsonView>, id: i64)
    requires
        m.dom().contains("@blob"@),
        m["@blob"@] == JsonView::Number(NumberView::Integer(id as int)),
    ensures
        blob_reference(m) == Some(id),
        redacted(JsonView::Object(m)) == blob_note(id),
        blob_note(id).text_at("@blob"@) == Some("local #"@ + text::integer_text(id as int) + " (omitted)"@),
{
}

/// All that does not stand for a blob is shown as it is, at every depth.
pub proof fn everything_else_is_shown(
    m: Map<Seq<char>, JsonView>,
    k: Seq<char>,
    a: Seq<JsonView>,
    i: int,
    v: JsonView,
)
    ensures
        !m.dom().contains("@blob"@) && m.dom().contains(k) ==> redacted(JsonView::Object(m)).field(k) == Some(
            redacted(m[k]),
        ),
        !m.dom().contains("@blob"@) && !m.dom().contains(k) ==> redacted(JsonView::Object(m)).field(k) is None,
        redacted(JsonView::Array(a)) is Array && redacted(JsonView::Array(a))->Array_0.len() == a.len(),
        0 <= i < a.len() ==> redacted(JsonView::Array(a))->Array_0[i] == redacted(a[i]),
        !(v is Object) && !(v is Array) ==> redacted(v) == v,
{
}

} // verus!
