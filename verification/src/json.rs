//! JSON values: the library's own tree type, its mathematical view, and the
//! passage from and to the `serde_json` crate.

use vstd::prelude::*;
use vstd::string::*;

use crate::text;

verus! {

/// `serde_json::Value`, carried through and opened one level at a time.
#[verifier::external_type_specification]
#[verifier::external_body]
pub struct ExValue(serde_json::Value);

/// `serde_json::Number`, carried through; read by the functions below.
#[verifier::external_type_specification]
#[verifier::external_body]
pub struct ExNumber(serde_json::Number);

/// What a JSON number is: an integer that fits 64 bits, signed or unsigned, or
/// anything else, told apart by the text it is written as.
pub enum NumberView {
    Integer(int),
    Decimal(Seq<char>),
}

/// What a JSON value is.
pub enum JsonView {
    Null,
    Bool(bool),
    Number(NumberView),
    Str(Seq<char>),
    Array(Seq<JsonView>),
    Object(Map<Seq<char>, JsonView>),
}

/// A JSON value.
#[derive(Debug)]
pub enum Json {
    Null,
    Bool(bool),
    Number(serde_json::Number),
    Str(String),
    Array(Vec<Json>),
    Object(JsonObject),
}

/// The members of a JSON object. No key occurs twice, and keys are held in
/// ascending order.
#[derive(Debug)]
pub struct JsonObject {
    entries: Vec<(String, Json)>,
}

/// The number that an outside `serde_json::Number` stands for.
pub uninterp spec fn number_of(n: serde_json::Number) -> NumberView;

/// The tree that an outside `serde_json::Value` holds.
pub uninterp spec fn json_of(v: serde_json::Value) -> JsonView;

/// What `serde_json::from_slice` reads a byte string as, or the message of the
/// error that it reports.
pub uninterp spec fn json_read(bytes: Seq<u8>) -> Result<JsonView, Seq<char>>;

/// The value that a byte string is read as, if it is JSON.
pub open spec fn json_parse(bytes: Seq<u8>) -> Option<JsonView> {
    match json_read(bytes) {
        Ok(v) => Some(v),
        Err(_) => None,
    }
}

/// The text that `serde_json::to_string_pretty` writes a value as.
pub uninterp spec fn json_pretty(v: JsonView) -> Seq<char>;

/// The text that `serde_json::Value::to_string` writes a value as.
pub uninterp spec fn json_compact(v: JsonView) -> Seq<char>;

/// Whether `a` comes strictly before `b` when strings are ordered character by
/// character.
pub open spec fn before(a: Seq<char>, b: Seq<char>) -> bool
    decreases a.len(),
{
    if b.len() == 0 {
        false
    } else if a.len() == 0 {
        true
    } else if a[0] == b[0] {
        before(a.drop_first(), b.drop_first())
    } else {
        a[0] < b[0]
    }
}

/// Strictly ascending.
pub open spec fn ascending(keys: Seq<Seq<char>>) -> bool {
    forall|i: int, j: int| 0 <= i < j < keys.len() ==> before(#[trigger] keys[i], #[trigger] keys[j])
}

proof fn lemma_before_irreflexive(a: Seq<char>)
    ensures
        !before(a, a),
    decreases a.len(),
{
    if a.len() > 0 {
        lemma_before_irreflexive(a.drop_first());
    }
}

proof fn lemma_before_transitive(a: Seq<char>, b: Seq<char>, c: Seq<char>)
    requires
        before(a, b),
        before(b, c),
    ensures
        before(a, c),
    decreases a.len(),
{
    if a.len() > 0 && a[0] == b[0] && b[0] == c[0] {
        lemma_before_transitive(a.drop_first(), b.drop_first(), c.drop_first());
    }
}

proof fn lemma_before_total(a: Seq<char>, b: Seq<char>)
    ensures
        before(a, b) || a == b || before(b, a),
    decreases a.len(),
{
    if a.len() == 0 || b.len() == 0 {
        if a.len() == 0 && b.len() == 0 {
            assert(a =~= b);
        }
    } else if a[0] == b[0] {
        lemma_before_total(a.drop_first(), b.drop_first());
        if a.drop_first() == b.drop_first() {
            assert(a =~= seq![a[0]] + a.drop_first());
            assert(b =~= seq![b[0]] + b.drop_first());
        }
    }
}

/// Whether `a` comes strictly before `b`.
fn key_before(a: &str, b: &str) -> (r: bool)
    ensures
        r == before(a@, b@),
{
    let x = text::chars_of(a);
    let y = text::chars_of(b);
    let mut i: usize = 0;
    assert(a@.skip(0) =~= a@ && b@.skip(0) =~= b@);
    while i < x.len() && i < y.len() && x[i] == y[i]
        invariant
            x@ == a@,
            y@ == b@,
            i <= x.len(),
            i <= y.len(),
            before(a@, b@) == before(a@.skip(i as int), b@.skip(i as int)),
        decreases x.len() - i,
    {
        assert(a@.skip(i as int).drop_first() =~= a@.skip(i + 1));
        assert(b@.skip(i as int).drop_first() =~= b@.skip(i + 1));
        i += 1;
    }
    if i >= y.len() {
        false
    } else if i >= x.len() {
        true
    } else {
        x[i] < y[i]
    }
}

spec fn has_key(s: Seq<(String, Json)>, k: Seq<char>) -> bool {
    exists|i: int| 0 <= i < s.len() && (#[trigger] s[i]).0@ == k
}

spec fn key_index(s: Seq<(String, Json)>, k: Seq<char>) -> int {
    choose|i: int| 0 <= i < s.len() && (#[trigger] s[i]).0@ == k
}

spec fn keys_of(s: Seq<(String, Json)>) -> Seq<Seq<char>> {
    Seq::new(s.len(), |i: int| s[i].0@)
}

/// The view of a JSON value.
pub open spec fn json_view(j: Json) -> JsonView
    decreases j,
{
    match j {
        Json::Null => JsonView::Null,
        Json::Bool(b) => JsonView::Bool(b),
        Json::Number(n) => JsonView::Number(number_of(n)),
        Json::Str(s) => JsonView::Str(s@),
        Json::Array(v) => JsonView::Array(
            Seq::new(
                v@.len(),
                |i: int|
                    if 0 <= i < v@.len() {
                        json_view(v@[i])
                    } else {
                        JsonView::Null
                    },
            ),
        ),
        Json::Object(o) => JsonView::Object(object_view(o)),
    }
}

/// The view of a JSON object: which keys it has and what each is bound to.
pub closed spec fn object_view(o: JsonObject) -> Map<Seq<char>, JsonView>
    decreases o,
{
    Map::new(
        |k: Seq<char>| has_key(o.entries@, k),
        |k: Seq<char>|
            {
                let i = key_index(o.entries@, k);
                if 0 <= i < o.entries@.len() {
                    json_view(o.entries@[i].1)
                } else {
                    JsonView::Null
                }
            },
    )
}

impl View for Json {
    type V = JsonView;

    open spec fn view(&self) -> JsonView {
        json_view(*self)
    }
}

impl View for JsonObject {
    type V = Map<Seq<char>, JsonView>;

    open spec fn view(&self) -> Map<Seq<char>, JsonView> {
        object_view(*self)
    }
}

impl JsonView {
    /// The member of an object under a key; nothing where the value is not an
    /// object or has no such key.
    pub open spec fn field(self, k: Seq<char>) -> Option<JsonView> {
        match self {
            JsonView::Object(m) => if m.dom().contains(k) {
                Some(m[k])
            } else {
                None
            },
            _ => None,
        }
    }

    /// The characters of a string value.
    pub open spec fn as_text(self) -> Option<Seq<char>> {
        match self {
            JsonView::Str(s) => Some(s),
            _ => None,
        }
    }

    /// The characters of the string under a key.
    pub open spec fn text_at(self, k: Seq<char>) -> Option<Seq<char>> {
        match self.field(k) {
            Some(v) => v.as_text(),
            None => None,
        }
    }

    /// The boolean under a key.
    pub open spec fn bool_at(self, k: Seq<char>) -> Option<bool> {
        match self.field(k) {
            Some(JsonView::Bool(b)) => Some(b),
            _ => None,
        }
    }

    /// The elements of the array under a key.
    pub open spec fn array_at(self, k: Seq<char>) -> Option<Seq<JsonView>> {
        match self.field(k) {
            Some(JsonView::Array(s)) => Some(s),
            _ => None,
        }
    }
}

impl JsonObject {
    #[verifier::type_invariant]
    spec fn well_formed(self) -> bool {
        ascending(keys_of(self.entries@))
    }

    /// The keys, in the order in which they are held.
    pub closed spec fn keys(&self) -> Seq<Seq<char>> {
        keys_of(self.entries@)
    }

    /// An object without members.
    pub fn new() -> (r: JsonObject)
        ensures
            r@ == Map::<Seq<char>, JsonView>::empty(),
    {
        let r = JsonObject { entries: Vec::new() };
        assert(r@ =~= Map::<Seq<char>, JsonView>::empty());
        r
    }

    /// The number of members.
    pub fn len(&self) -> (n: usize)
        ensures
            n == self.keys().len(),
            ascending(self.keys()),
            forall|k: Seq<char>|
                #![trigger self@.dom().contains(k)]
                #![trigger self.keys().contains(k)]
                self@.dom().contains(k) <==> self.keys().contains(k),
    {
        proof {
            use_type_invariant(self);
            assert forall|k: Seq<char>| self@.dom().contains(k) <==> self.keys().contains(k) by {
                if has_key(self.entries@, k) {
                    let i = key_index(self.entries@, k);
                    assert(self.keys()[i] == k);
                }
                if self.keys().contains(k) {
                    let i = choose|i: int| 0 <= i < self.keys().len() && self.keys()[i] == k;
                    assert(self.entries@[i].0@ == k);
                }
            }
        }
        self.entries.len()
    }

    /// The key in a place.
    pub fn key_at(&self, i: usize) -> (r: &str)
        requires
            i < self.keys().len(),
        ensures
            r@ == self.keys()[i as int],
    {
        self.entries[i].0.as_str()
    }

    /// The value in a place.
    pub fn value_at(&self, i: usize) -> (r: &Json)
        requires
            i < self.keys().len(),
        ensures
            self@.dom().contains(self.keys()[i as int]),
            r@ == self@[self.keys()[i as int]],
    {
        proof {
            use_type_invariant(self);
            lemma_value_at(*self, i as int);
        }
        &self.entries[i].1
    }

    /// The value under a key.
    pub fn get(&self, key: &str) -> (r: Option<&Json>)
        ensures
            match r {
                Some(v) => self@.dom().contains(key@) && self@[key@] == v@,
                None => !self@.dom().contains(key@),
            },
    {
        proof {
            use_type_invariant(self);
        }
        let mut i: usize = 0;
        while i < self.entries.len()
            invariant
                self.well_formed(),
                i <= self.entries.len(),
                forall|j: int| 0 <= j < i ==> (#[trigger] self.entries@[j]).0@ != key@,
            decreases self.entries.len() - i,
        {
            if text::same(self.entries[i].0.as_str(), key) {
                proof {
                    lemma_value_at(*self, i as int);
                }
                return Some(&self.entries[i].1);
            }
            i += 1;
        }
        assert(!has_key(self.entries@, key@));
        None
    }

    /// Binds a key to a value, in place of what it was bound to.
    pub fn insert(&mut self, key: String, value: Json)
        ensures
            final(self)@ == old(self)@.insert(key@, value@),
    {
        proof {
            use_type_invariant(&*self);
        }
        let mut entries: Vec<(String, Json)> = Vec::new();
        std::mem::swap(&mut entries, &mut self.entries);
        let ghost before_entries = entries@;
        let ghost k = key@;
        let ghost v = value@;
        let mut i: usize = 0;
        while i < entries.len() && key_before(entries[i].0.as_str(), key.as_str())
            invariant
                i <= entries.len(),
                entries@ == before_entries,
                k == key@,
                forall|j: int| 0 <= j < i ==> before((#[trigger] entries@[j]).0@, k),
            decreases entries.len() - i,
        {
            i += 1;
        }
        let ghost at = i as int;
        if i < entries.len() && text::same(entries[i].0.as_str(), key.as_str()) {
            entries.remove(i);
            entries.insert(i, (key, value));
            proof {
                lemma_replaced(before_entries, entries@, at, k);
                lemma_bound(before_entries, entries@, at, k, v);
            }
        } else {
            proof {
                if at < before_entries.len() {
                    lemma_before_total(before_entries[at].0@, k);
                }
            }
            entries.insert(i, (key, value));
            proof {
                lemma_inserted(before_entries, entries@, at, k);
                lemma_bound(before_entries, entries@, at, k, v);
            }
        }
        self.entries = entries;
    }
}

proof fn lemma_value_at(o: JsonObject, i: int)
    requires
        ascending(keys_of(o.entries@)),
        0 <= i < o.entries@.len(),
    ensures
        object_view(o).dom().contains(o.entries@[i].0@),
        object_view(o)[o.entries@[i].0@] == json_view(o.entries@[i].1),
{
    let s = o.entries@;
    let k = s[i].0@;
    let j = key_index(s, k);
    assert(0 <= j < s.len() && s[j].0@ == k);
    if i < j {
        assert(before(keys_of(s)[i], keys_of(s)[j]));
        lemma_before_irreflexive(k);
    }
    if j < i {
        assert(before(keys_of(s)[j], keys_of(s)[i]));
        lemma_before_irreflexive(k);
    }
}

proof fn lemma_replaced(a: Seq<(String, Json)>, b: Seq<(String, Json)>, at: int, k: Seq<char>)
    requires
        ascending(keys_of(a)),
        0 <= at < a.len(),
        a[at].0@ == k,
        b.len() == a.len(),
        b[at].0@ == k,
        forall|j: int| 0 <= j < a.len() && j != at ==> #[trigger] b[j] == a[j],
    ensures
        ascending(keys_of(b)),
{
    assert(keys_of(b) =~= keys_of(a));
}

proof fn lemma_inserted(a: Seq<(String, Json)>, b: Seq<(String, Json)>, at: int, k: Seq<char>)
    requires
        ascending(keys_of(a)),
        0 <= at <= a.len(),
        forall|j: int| 0 <= j < at ==> before((#[trigger] a[j]).0@, k),
        at < a.len() ==> before(k, a[at].0@),
        b.len() == a.len() + 1,
        b[at].0@ == k,
        forall|j: int| 0 <= j < at ==> #[trigger] b[j] == a[j],
        forall|j: int| at < j < b.len() ==> #[trigger] b[j] == a[j - 1],
    ensures
        ascending(keys_of(b)),
{
    let ka = keys_of(a);
    let kb = keys_of(b);
    assert forall|i: int, j: int| 0 <= i < j < kb.len() implies before(#[trigger] kb[i], #[trigger] kb[j]) by {
        if j < at {
            assert(before(ka[i], ka[j]));
        } else if j == at {
            assert(before(a[i].0@, k));
        } else if i < at {
            assert(before(ka[i], ka[j - 1]));
        } else if i == at {
            if j - 1 > at {
                assert(before(ka[at], ka[j - 1]));
                lemma_before_transitive(k, ka[at], ka[j - 1]);
            }
        } else {
            assert(before(ka[i - 1], ka[j - 1]));
        }
    }
}

/// What the view becomes when one entry is put in place `at`, the others
/// keeping their order.
proof fn lemma_bound(a: Seq<(String, Json)>, b: Seq<(String, Json)>, at: int, k: Seq<char>, v: JsonView)
    requires
        ascending(keys_of(a)),
        ascending(keys_of(b)),
        0 <= at < b.len(),
        b[at].0@ == k,
        json_view(b[at].1) == v,
        forall|j: int| 0 <= j < at ==> #[trigger] b[j] == a[j],
        (b.len() == a.len() && a[at].0@ == k && forall|j: int| at < j < b.len() ==> #[trigger] b[j] == a[j])
            || (b.len() == a.len() + 1 && forall|j: int|
            at < j < b.len() ==> #[trigger] b[j] == a[j - 1]),
        at <= a.len(),
    ensures
        forall|oa: JsonObject, ob: JsonObject|
            oa.entries@ == a && ob.entries@ == b ==> #[trigger] object_view(ob) == (
            #[trigger] object_view(oa)).insert(k, v),
{
    assert forall|oa: JsonObject, ob: JsonObject| oa.entries@ == a && ob.entries@ == b implies #[trigger] object_view(ob)
        == (#[trigger] object_view(oa)).insert(k, v) by {
        let va = object_view(oa);
        let vb = object_view(ob);
        assert forall|q: Seq<char>| vb.dom().contains(q) <==> va.insert(k, v).dom().contains(q) by {
            if has_key(b, q) {
                let i = key_index(b, q);
                if i < at {
                    assert(a[i].0@ == q);
                } else if i > at {
                    if b.len() == a.len() {
                        assert(a[i].0@ == q);
                    } else {
                        assert(a[i - 1].0@ == q);
                    }
                }
            }
            if has_key(a, q) {
                let i = key_index(a, q);
                if i < at {
                    assert(b[i].0@ == q);
                } else if b.len() == a.len() {
                    assert(b[i].0@ == q);
                } else {
                    assert(b[i + 1].0@ == q);
                }
            }
            if q == k {
                assert(b[at].0@ == q);
            }
        }
        assert forall|q: Seq<char>| #[trigger] vb.dom().contains(q) implies vb[q] == va.insert(k, v)[q] by {
            let i = key_index(b, q);
            lemma_value_at(ob, i);
            if i == at {
                assert(q == k);
            } else {
                if q == k {
                    lemma_value_at(ob, at);
                    if i < at {
                        assert(before(keys_of(b)[i], keys_of(b)[at]));
                    } else {
                        assert(before(keys_of(b)[at], keys_of(b)[i]));
                    }
                    lemma_before_irreflexive(q);
                }
                let j = if i < at || b.len() == a.len() {
                    i
                } else {
                    i - 1
                };
                assert(a[j] == b[i]);
                lemma_value_at(oa, j);
            }
        }
        assert(vb =~= va.insert(k, v));
    }
}


/// One level of a `serde_json::Value`: its kind and what it holds directly.
pub enum Opened {
    Null,
    Bool(bool),
    Number(serde_json::Number),
    Str(String),
    Array(Vec<serde_json::Value>),
    Object(Vec<(String, serde_json::Value)>),
}

/// Whether a list of members is a listing of a map, each key once.
pub open spec fn lists(pairs: Seq<(String, serde_json::Value)>, m: Map<Seq<char>, JsonView>) -> bool {
    &&& forall|i: int| #![trigger pairs[i]]
        0 <= i < pairs.len() ==> m.dom().contains(pairs[i].0@) && m[pairs[i].0@] == json_of(pairs[i].1)
    &&& forall|k: Seq<char>| #[trigger]
        m.dom().contains(k) ==> exists|i: int| 0 <= i < pairs.len() && (#[trigger] pairs[i]).0@ == k
    &&& forall|i: int, j: int| #![trigger pairs[i], pairs[j]]
        0 <= i < j < pairs.len() ==> pairs[i].0@ != pairs[j].0@
}

/// What an opened level says of the tree it was opened from.
pub open spec fn opens(o: Opened, v: JsonView) -> bool {
    match o {
        Opened::Null => v == JsonView::Null,
        Opened::Bool(b) => v == JsonView::Bool(b),
        Opened::Number(n) => v == JsonView::Number(number_of(n)),
        Opened::Str(s) => v == JsonView::Str(s@),
        Opened::Array(items) => v matches JsonView::Array(s) && s.len() == items@.len() && forall|i: int|
            0 <= i < s.len() ==> s[i] == json_of(#[trigger] items@[i]),
        Opened::Object(pairs) => v matches JsonView::Object(m) && m.dom().finite() && lists(pairs@, m),
    }
}

/// Reads bytes with `serde_json::from_slice` into a `serde_json::Value`. The
/// result depends on the bytes alone; the grammar is left to that crate.
#[verifier::external_body]
fn parse_value(bytes: &[u8]) -> (r: Result<serde_json::Value, String>)
    ensures
        match r {
            Ok(v) => json_read(bytes@) == Ok::<JsonView, Seq<char>>(json_of(v)),
            Err(e) => json_read(bytes@) == Err::<JsonView, Seq<char>>(e@),
        },
{
    serde_json::from_slice(bytes).map_err(|e| e.to_string())
}

/// Takes a `serde_json::Value` apart: each of its variants hands out what it
/// holds. A `serde_json::Map` holds finitely many members and no key twice.
#[verifier::external_body]
fn open_value(v: serde_json::Value) -> (r: Opened)
    ensures
        opens(r, json_of(v)),
{
    match v {
        serde_json::Value::Null => Opened::Null,
        serde_json::Value::Bool(b) => Opened::Bool(b),
        serde_json::Value::Number(n) => Opened::Number(n),
        serde_json::Value::String(s) => Opened::Str(s),
        serde_json::Value::Array(items) => Opened::Array(items),
        serde_json::Value::Object(members) => Opened::Object(members.into_iter().collect()),
    }
}

/// Puts one level together as a `serde_json::Value`. Members given under
/// distinct keys are the members of the resulting object.
#[verifier::external_body]
fn close_value(o: Opened) -> (r: serde_json::Value)
    requires
        o matches Opened::Object(pairs) ==> forall|i: int, j: int| #![trigger pairs@[i], pairs@[j]]
            0 <= i < j < pairs@.len() ==> pairs@[i].0@ != pairs@[j].0@,
    ensures
        opens(o, json_of(r)),
{
    match o {
        Opened::Null => serde_json::Value::Null,
        Opened::Bool(b) => serde_json::Value::Bool(b),
        Opened::Number(n) => serde_json::Value::Number(n),
        Opened::Str(s) => serde_json::Value::String(s),
        Opened::Array(items) => serde_json::Value::Array(items),
        Opened::Object(pairs) => serde_json::Value::Object(pairs.into_iter().collect()),
    }
}

/// Writes a value with `serde_json::to_string_pretty`. Writing a
/// `serde_json::Value` into a string does not fail, and the text depends on the
/// value alone; the layout is left to that crate.
#[verifier::external_body]
fn pretty_value(v: &serde_json::Value) -> (r: String)
    ensures
        r@ == json_pretty(json_of(*v)),
{
    serde_json::to_string_pretty(v).unwrap_or_default()
}

/// Writes a value with `serde_json::Value::to_string`, on one line. The text
/// depends on the value alone; the layout is left to that crate.
#[verifier::external_body]
fn compact_value(v: &serde_json::Value) -> (r: String)
    ensures
        r@ == json_compact(json_of(*v)),
{
    v.to_string()
}

/// `serde_json::Number::as_u64`: the integer, where the number is one that fits.
#[verifier::external_body]
fn number_as_u64(n: &serde_json::Number) -> (r: Option<u64>)
    ensures
        r == unsigned_of(number_of(*n)),
{
    n.as_u64()
}

/// `serde_json::Number::as_i64`: the integer, where the number is one that fits.
#[verifier::external_body]
fn number_as_i64(n: &serde_json::Number) -> (r: Option<i64>)
    ensures
        r == signed_of(number_of(*n)),
{
    n.as_i64()
}

/// `serde_json::Number::from` an unsigned integer.
#[verifier::external_body]
fn number_from_u64(n: u64) -> (r: serde_json::Number)
    ensures
        number_of(r) == NumberView::Integer(n as int),
{
    serde_json::Number::from(n)
}

/// `serde_json::Number::from` a signed integer.
#[verifier::external_body]
fn number_from_i64(n: i64) -> (r: serde_json::Number)
    ensures
        number_of(r) == NumberView::Integer(n as int),
{
    serde_json::Number::from(n)
}

/// The clone of a `serde_json::Number` is the same number.
#[verifier::external_body]
fn number_clone(n: &serde_json::Number) -> (r: serde_json::Number)
    ensures
        number_of(r) == number_of(*n),
{
    n.clone()
}

/// `==` on `serde_json::Number`: integers by value; other numbers by value too,
/// so that the two zeros are equal although they are written differently.
#[verifier::external_body]
fn number_equal(a: &serde_json::Number, b: &serde_json::Number) -> (r: bool)
    ensures
        r == (plain_number(number_of(*a)) == plain_number(number_of(*b))),
{
    a == b
}

/// The unsigned 64-bit integer that a number is.
pub open spec fn unsigned_of(n: NumberView) -> Option<u64> {
    match n {
        NumberView::Integer(i) => if 0 <= i <= u64::MAX {
            Some(i as u64)
        } else {
            None
        },
        NumberView::Decimal(_) => None,
    }
}

/// The signed 64-bit integer that a number is.
pub open spec fn signed_of(n: NumberView) -> Option<i64> {
    match n {
        NumberView::Integer(i) => if i64::MIN <= i <= i64::MAX {
            Some(i as i64)
        } else {
            None
        },
        NumberView::Decimal(_) => None,
    }
}

/// A number with negative zero taken for zero.
pub open spec fn plain_number(n: NumberView) -> NumberView {
    match n {
        NumberView::Decimal(t) => if t == "-0.0"@ {
            NumberView::Decimal("0.0"@)
        } else {
            n
        },
        NumberView::Integer(_) => n,
    }
}

/// A value with every negative zero in it taken for zero.
pub open spec fn plain(v: JsonView) -> JsonView
    decreases v,
{
    match v {
        JsonView::Number(n) => JsonView::Number(plain_number(n)),
        JsonView::Array(s) => JsonView::Array(
            Seq::new(
                s.len(),
                |i: int|
                    if 0 <= i < s.len() {
                        plain(s[i])
                    } else {
                        JsonView::Null
                    },
            ),
        ),
        JsonView::Object(m) => JsonView::Object(
            Map::new(
                |k: Seq<char>| m.dom().contains(k),
                |k: Seq<char>|
                    if m.dom().contains(k) {
                        plain(m[k])
                    } else {
                        JsonView::Null
                    },
            ),
        ),
        _ => v,
    }
}

/// Whether two values are equal as JSON: same kinds, same members, numbers
/// compared by value.
pub open spec fn equal(a: JsonView, b: JsonView) -> bool {
    plain(a) == plain(b)
}

impl Json {
    /// The string value with the given characters.
    pub fn text(s: &str) -> (r: Json)
        ensures
            r@ == JsonView::Str(s@),
    {
        Json::Str(s.to_owned())
    }

    /// The number value of an unsigned integer.
    pub fn unsigned(n: u64) -> (r: Json)
        ensures
            r@ == JsonView::Number(NumberView::Integer(n as int)),
    {
        Json::Number(number_from_u64(n))
    }

    /// The number value of a signed integer.
    pub fn signed(n: i64) -> (r: Json)
        ensures
            r@ == JsonView::Number(NumberView::Integer(n as int)),
    {
        Json::Number(number_from_i64(n))
    }

    /// The value that bytes of JSON text are read as.
    pub fn parse(bytes: &[u8]) -> (r: Option<Json>)
        ensures
            match r {
                Some(j) => json_parse(bytes@) == Some(j@),
                None => json_parse(bytes@) is None,
            },
    {
        match parse_value(bytes) {
            Ok(v) => Some(Json::from_value(v)),
            Err(_) => None,
        }
    }

    /// The value that bytes of JSON text are read as, or why they are none.
    pub fn read(bytes: &[u8]) -> (r: Result<Json, String>)
        ensures
            match r {
                Ok(j) => json_read(bytes@) == Ok::<JsonView, Seq<char>>(j@),
                Err(e) => json_read(bytes@) == Err::<JsonView, Seq<char>>(e@),
            },
    {
        match parse_value(bytes) {
            Ok(v) => Ok(Json::from_value(v)),
            Err(e) => Err(e),
        }
    }

    /// The library's value for an outside value.
    pub fn from_value(v: serde_json::Value) -> (r: Json)
        ensures
            r@ == json_of(v),
        decreases json_of(v),
    {
        let ghost tree = json_of(v);
        match open_value(v) {
            Opened::Null => Json::Null,
            Opened::Bool(b) => Json::Bool(b),
            Opened::Number(n) => Json::Number(n),
            Opened::Str(s) => Json::Str(s),
            Opened::Array(mut items) => {
                let ghost all = items@;
                let ghost seq = tree->Array_0;
                let mut turned: Vec<Json> = Vec::new();
                while items.len() > 0
                    invariant
                        tree is Array,
                        seq == tree->Array_0,
                        tree == json_of(v),
                        seq.len() == all.len(),
                        forall|i: int| 0 <= i < seq.len() ==> seq[i] == json_of(#[trigger] all[i]),
                        items@.len() + turned@.len() == all.len(),
                        items@ == all.take(items@.len() as int),
                        forall|i: int|
                            0 <= i < turned@.len() ==> json_view(#[trigger] turned@[i]) == seq[seq.len() - 1 - i],
                    decreases items.len(),
                {
                    let ghost n = items@.len() - 1;
                    let item = items.pop().unwrap();
                    assert(item == all[n]);
                    assert(decreases_to!(tree => seq));
                    assert(decreases_to!(seq => seq[n]));
                    turned.push(Json::from_value(item));
                }
                let ghost back = turned@;
                let mut out: Vec<Json> = Vec::new();
                while turned.len() > 0
                    invariant
                        back.len() == seq.len(),
                        turned@.len() + out@.len() == seq.len(),
                        turned@ == back.take(turned@.len() as int),
                        forall|i: int| 0 <= i < back.len() ==> json_view(#[trigger] back[i]) == seq[seq.len() - 1 - i],
                        forall|i: int| 0 <= i < out@.len() ==> json_view(#[trigger] out@[i]) == seq[i],
                    decreases turned.len(),
                {
                    let ghost n = turned@.len() - 1;
                    let item = turned.pop().unwrap();
                    assert(item == back[n]);
                    out.push(item);
                }
                let r = Json::Array(out);
                assert(r@->Array_0 =~= seq);
                r
            },
            Opened::Object(mut pairs) => {
                let ghost all = pairs@;
                let ghost m = tree->Object_0;
                let mut out = JsonObject::new();
                while pairs.len() > 0
                    invariant
                        tree is Object,
                        m == tree->Object_0,
                        tree == json_of(v),
                        m.dom().finite(),
                        lists(all, m),
                        pairs@.len() <= all.len(),
                        pairs@ == all.take(pairs@.len() as int),
                        forall|k: Seq<char>| #[trigger]
                            out@.dom().contains(k) ==> m.dom().contains(k) && out@[k] == m[k],
                        forall|i: int|
                            pairs@.len() <= i < all.len() ==> out@.dom().contains((#[trigger] all[i]).0@),
                    decreases pairs.len(),
                {
                    let ghost n = pairs@.len() - 1;
                    let (key, item) = pairs.pop().unwrap();
                    assert((key, item) == all[n]);
                    assert(decreases_to!(tree => m));
                    assert(decreases_to!(m => m[key@]));
                    let value = Json::from_value(item);
                    out.insert(key, value);
                }
                assert(out@ =~= m);
                Json::Object(out)
            },
        }
    }

    /// The outside value for a value of the library.
    pub fn to_value(&self) -> (r: serde_json::Value)
        ensures
            json_of(r) == self@,
        decreases self,
    {
        match self {
            Json::Null => close_value(Opened::Null),
            Json::Bool(b) => close_value(Opened::Bool(*b)),
            Json::Number(n) => close_value(Opened::Number(number_clone(n))),
            Json::Str(s) => close_value(Opened::Str(s.clone())),
            Json::Array(items) => {
                let mut out: Vec<serde_json::Value> = Vec::new();
                let mut i: usize = 0;
                while i < items.len()
                    invariant
                        *self == Json::Array(*items),
                        i <= items.len(),
                        out@.len() == i,
                        forall|j: int| 0 <= j < i ==> json_of(#[trigger] out@[j]) == json_view(items@[j]),
                    decreases items.len() - i,
                {
                    assert(decreases_to!(*self => self->Array_0));
                    out.push(items[i].to_value());
                    i += 1;
                }
                let ghost done = out@;
                let r = close_value(Opened::Array(out));
                assert forall|j: int| 0 <= j < done.len() implies json_of(r)->Array_0[j] == self@->Array_0[j] by {
                    assert(json_of(done[j]) == json_view(items@[j]));
                }
                assert(json_of(r)->Array_0 =~= self@->Array_0);
                r
            },
            Json::Object(o) => {
                let mut out: Vec<(String, serde_json::Value)> = Vec::new();
                let n: usize = o.len();
                let mut i: usize = 0;
                proof {
                    use_type_invariant(o);
                }
                while i < n
                    invariant
                        *self == Json::Object(*o),
                        n == o.keys().len(),
                        o.well_formed(),
                        n == o.entries@.len(),
                        i <= n,
                        out@.len() == i,
                        forall|j: int| #![trigger out@[j]]
                            0 <= j < i ==> out@[j].0@ == o.keys()[j] && o@.dom().contains(o.keys()[j])
                                && json_of(out@[j].1) == o@[o.keys()[j]],
                    decreases n - i,
                {
                    assert(decreases_to!(*self => self->Object_0));
                    assert(decreases_to!(*o => o.entries));
                    proof {
                        lemma_value_at(*o, i as int);
                    }
                    out.push((o.entries[i].0.clone(), o.entries[i].1.to_value()));
                    i += 1;
                }
                let ghost pairs = out@;
                proof {
                    assert forall|a: int, b: int| #![trigger pairs[a], pairs[b]] 0 <= a < b < pairs.len() implies pairs[a].0@
                        != pairs[b].0@ by {
                        assert(before(o.keys()[a], o.keys()[b]));
                        lemma_before_irreflexive(o.keys()[a]);
                    }
                }
                let r = close_value(Opened::Object(out));
                proof {
                    let m = json_of(r)->Object_0;
                    assert forall|k: Seq<char>| m.dom().contains(k) <==> o@.dom().contains(k) by {
                        if o@.dom().contains(k) {
                            assert(o.keys().contains(k));
                            let j = choose|j: int| 0 <= j < o.keys().len() && o.keys()[j] == k;
                            assert(pairs[j].0@ == k);
                        }
                    }
                    assert forall|k: Seq<char>| m.dom().contains(k) implies m[k] == o@[k] by {
                        let j = choose|j: int| 0 <= j < pairs.len() && (#[trigger] pairs[j]).0@ == k;
                        assert(o.keys()[j] == k);
                    }
                    assert(m =~= o@);
                }
                r
            },
        }
    }

    /// The value written as indented JSON text.
    pub fn pretty(&self) -> (r: String)
        ensures
            r@ == json_pretty(self@),
    {
        pretty_value(&self.to_value())
    }

    /// The value written as JSON text on one line.
    pub fn compact(&self) -> (r: String)
        ensures
            r@ == json_compact(self@),
    {
        compact_value(&self.to_value())
    }

    /// A value equal to this one.
    pub fn copy(&self) -> (r: Json)
        ensures
            r@ == self@,
        decreases self,
    {
        match self {
            Json::Null => Json::Null,
            Json::Bool(b) => Json::Bool(*b),
            Json::Number(n) => Json::Number(number_clone(n)),
            Json::Str(s) => Json::Str(s.clone()),
            Json::Array(items) => {
                let mut out: Vec<Json> = Vec::new();
                let mut i: usize = 0;
                while i < items.len()
                    invariant
                        *self == Json::Array(*items),
                        i <= items.len(),
                        out@.len() == i,
                        forall|j: int| 0 <= j < i ==> json_view(#[trigger] out@[j]) == json_view(items@[j]),
                    decreases items.len() - i,
                {
                    assert(decreases_to!(*self => self->Array_0));
                    out.push(items[i].copy());
                    i += 1;
                }
                let r = Json::Array(out);
                assert(r@->Array_0 =~= self@->Array_0);
                r
            },
            Json::Object(o) => Json::Object(o.copy()),
        }
    }

    /// Whether two values are equal as JSON.
    pub fn equals(&self, other: &Json) -> (r: bool)
        ensures
            r == equal(self@, other@),
        decreases self,
    {
        match (self, other) {
            (Json::Null, Json::Null) => true,
            (Json::Bool(a), Json::Bool(b)) => *a == *b,
            (Json::Number(a), Json::Number(b)) => number_equal(a, b),
            (Json::Str(a), Json::Str(b)) => text::same(a.as_str(), b.as_str()),
            (Json::Array(a), Json::Array(b)) => {
                if a.len() != b.len() {
                    assert(plain(self@)->Array_0.len() != plain(other@)->Array_0.len());
                    return false;
                }
                let mut i: usize = 0;
                while i < a.len()
                    invariant
                        *self == Json::Array(*a),
                        *other == Json::Array(*b),
                        a.len() == b.len(),
                        i <= a.len(),
                        forall|j: int| 0 <= j < i ==> plain(json_view(#[trigger] a@[j])) == plain(json_view(b@[j])),
                    decreases a.len() - i,
                {
                    assert(decreases_to!(*self => self->Array_0));
                    if !a[i].equals(&b[i]) {
                        proof {
                            let k = i as int;
                            assert(self@->Array_0[k] == json_view(a@[k]));
                            assert(other@->Array_0[k] == json_view(b@[k]));
                            assert(plain(self@)->Array_0[k] == plain(self@->Array_0[k]));
                            assert(plain(other@)->Array_0[k] == plain(other@->Array_0[k]));
                        }
                        return false;
                    }
                    i += 1;
                }
                assert(plain(self@)->Array_0 =~= plain(other@)->Array_0);
                true
            },
            (Json::Object(a), Json::Object(b)) => {
                assert(decreases_to!(*self => self->Object_0));
                a.equals(b)
            },
            _ => false,
        }
    }

    /// The member of an object under a key.
    pub fn get(&self, key: &str) -> (r: Option<&Json>)
        ensures
            match r {
                Some(v) => self@.field(key@) == Some(v@),
                None => self@.field(key@) is None,
            },
    {
        match self {
            Json::Object(o) => o.get(key),
            _ => None,
        }
    }

    /// The string, where the value is one.
    pub fn as_str(&self) -> (r: Option<&str>)
        ensures
            match r {
                Some(s) => self@.as_text() == Some(s@),
                None => self@.as_text() is None,
            },
    {
        match self {
            Json::Str(s) => Some(s.as_str()),
            _ => None,
        }
    }

    /// The boolean, where the value is one.
    pub fn as_bool(&self) -> (r: Option<bool>)
        ensures
            match r {
                Some(b) => self@ == JsonView::Bool(b),
                None => self@ !is Bool,
            },
    {
        match self {
            Json::Bool(b) => Some(*b),
            _ => None,
        }
    }

    /// The unsigned integer, where the value is one.
    pub fn as_u64(&self) -> (r: Option<u64>)
        ensures
            r == match self@ {
                JsonView::Number(n) => unsigned_of(n),
                _ => None,
            },
    {
        match self {
            Json::Number(n) => number_as_u64(n),
            _ => None,
        }
    }

    /// The signed integer, where the value is one.
    pub fn as_i64(&self) -> (r: Option<i64>)
        ensures
            r == match self@ {
                JsonView::Number(n) => signed_of(n),
                _ => None,
            },
    {
        match self {
            Json::Number(n) => number_as_i64(n),
            _ => None,
        }
    }

    /// Whether the value is null.
    pub fn is_null(&self) -> (r: bool)
        ensures
            r == (self@ is Null),
    {
        match self {
            Json::Null => true,
            _ => false,
        }
    }

    /// The string under a key.
    pub fn str_at(&self, key: &str) -> (r: Option<&str>)
        ensures
            match r {
                Some(s) => self@.text_at(key@) == Some(s@),
                None => self@.text_at(key@) is None,
            },
    {
        match self.get(key) {
            Some(v) => v.as_str(),
            None => None,
        }
    }

    /// The boolean under a key.
    pub fn bool_at(&self, key: &str) -> (r: Option<bool>)
        ensures
            r == self@.bool_at(key@),
    {
        match self.get(key) {
            Some(v) => v.as_bool(),
            None => None,
        }
    }

    /// The array under a key.
    pub fn array_at(&self, key: &str) -> (r: Option<&Vec<Json>>)
        ensures
            match r {
                Some(v) => self@.array_at(key@) == Some(views(v@)),
                None => self@.array_at(key@) is None,
            },
    {
        match self.get(key) {
            Some(Json::Array(v)) => {
                assert(json_view(Json::Array(*v))->Array_0 =~= views(v@));
                Some(v)
            },
            _ => None,
        }
    }
}

/// The views of a sequence of values.
pub open spec fn views(s: Seq<Json>) -> Seq<JsonView> {
    Seq::new(s.len(), |i: int| s[i]@)
}

impl JsonObject {
    /// An object equal to this one.
    pub fn copy(&self) -> (r: JsonObject)
        ensures
            r@ == self@,
        decreases self,
    {
        let mut out = JsonObject::new();
        let n: usize = self.len();
        let mut i: usize = 0;
        proof {
            use_type_invariant(self);
        }
        while i < n
            invariant
                n == self.entries@.len(),
                self.well_formed(),
                i <= n,
                forall|k: Seq<char>|
                #![trigger self@.dom().contains(k)]
                #![trigger self.keys().contains(k)]
                self@.dom().contains(k) <==> self.keys().contains(k),
                forall|k: Seq<char>| #[trigger] out@.dom().contains(k) ==> self@.dom().contains(k) && out@[k] == self@[k],
                forall|j: int| 0 <= j < i ==> out@.dom().contains(#[trigger] self.keys()[j]),
            decreases n - i,
        {
            assert(decreases_to!(*self => self.entries));
            proof {
                lemma_value_at(*self, i as int);
            }
            let value = self.entries[i].1.copy();
            out.insert(self.entries[i].0.clone(), value);
            i += 1;
        }
        assert forall|k: Seq<char>| self@.dom().contains(k) implies out@.dom().contains(k) by {
            assert(self.keys().contains(k));
            let j = choose|j: int| 0 <= j < self.keys().len() && self.keys()[j] == k;
            assert(out@.dom().contains(self.keys()[j]));
        }
        assert(out@ =~= self@);
        out
    }

    /// Whether two objects are equal as JSON.
    pub fn equals(&self, other: &JsonObject) -> (r: bool)
        ensures
            r == equal(JsonView::Object(self@), JsonView::Object(other@)),
        decreases self,
    {
        let ghost ma = self@;
        let ghost mb = other@;
        let ghost pa = plain(JsonView::Object(ma))->Object_0;
        let ghost pb = plain(JsonView::Object(mb))->Object_0;
        let n: usize = self.len();
        let mut i: usize = 0;
        proof {
            use_type_invariant(self);
        }
        while i < n
            invariant
                n == self.entries@.len(),
                self.well_formed(),
                ma == self@,
                mb == other@,
                pa == plain(JsonView::Object(ma))->Object_0,
                pb == plain(JsonView::Object(mb))->Object_0,
                i <= n,
                forall|j: int| #![trigger self.keys()[j]]
                    0 <= j < i ==> mb.dom().contains(self.keys()[j]) && plain(ma[self.keys()[j]]) == plain(
                        mb[self.keys()[j]],
                    ),
            decreases n - i,
        {
            assert(decreases_to!(*self => self.entries));
            proof {
                lemma_value_at(*self, i as int);
            }
            let ghost k = self.keys()[i as int];
            assert(ma.dom().contains(k));
            assert(pa.dom().contains(k) && pa[k] == plain(ma[k]));
            match other.get(self.entries[i].0.as_str()) {
                Some(v) => {
                    if !self.entries[i].1.equals(v) {
                        assert(pb.dom().contains(k) && pb[k] == plain(mb[k]));
                        return false;
                    }
                },
                None => {
                    assert(!pb.dom().contains(k));
                    return false;
                },
            }
            i += 1;
        }
        let m: usize = other.len();
        let mut j: usize = 0;
        while j < m
            invariant
                m == other.keys().len(),
                ma == self@,
                mb == other@,
                pa == plain(JsonView::Object(ma))->Object_0,
                pb == plain(JsonView::Object(mb))->Object_0,
                j <= m,
                forall|k: Seq<char>|
                    #![trigger other@.dom().contains(k)]
                    #![trigger other.keys().contains(k)]
                    other@.dom().contains(k) <==> other.keys().contains(k),
                forall|q: int| 0 <= q < j ==> ma.dom().contains(#[trigger] other.keys()[q]),
            decreases m - j,
        {
            let ghost k = other.keys()[j as int];
            if self.get(other.key_at(j)).is_none() {
                proof {
                    assert(other.keys().contains(k));
                    assert(pb.dom().contains(k));
                    assert(!pa.dom().contains(k));
                }
                return false;
            }
            j += 1;
        }
        proof {
            assert forall|k: Seq<char>| pa.dom().contains(k) <==> pb.dom().contains(k) by {
                if ma.dom().contains(k) {
                    assert(self.keys().contains(k));
                    let q = choose|q: int| 0 <= q < self.keys().len() && self.keys()[q] == k;
                    assert(mb.dom().contains(self.keys()[q]));
                }
                if mb.dom().contains(k) {
                    assert(other.keys().contains(k));
                    let q = choose|q: int| 0 <= q < other.keys().len() && other.keys()[q] == k;
                    assert(ma.dom().contains(other.keys()[q]));
                }
            }
            assert forall|k: Seq<char>| pa.dom().contains(k) implies pa[k] == pb[k] by {
                assert(self@.dom().contains(k));
                assert(self.keys().contains(k));
                let q = choose|q: int| 0 <= q < self.keys().len() && self.keys()[q] == k;
                assert(plain(ma[self.keys()[q]]) == plain(mb[self.keys()[q]]));
            }
            assert(pa =~= pb);
        }
        true
    }
}

impl JsonObject {
    /// A copy without the member under a key.
    pub fn without(&self, key: &str) -> (r: JsonObject)
        ensures
            r@ == self@.remove(key@),
    {
        let mut out = JsonObject::new();
        let n: usize = self.len();
        let mut i: usize = 0;
        while i < n
            invariant
                n == self.keys().len(),
                i <= n,
                forall|k: Seq<char>|
                    #![trigger self@.dom().contains(k)]
                    #![trigger self.keys().contains(k)]
                    self@.dom().contains(k) <==> self.keys().contains(k),
                forall|k: Seq<char>| #[trigger]
                    out@.dom().contains(k) ==> k != key@ && self@.dom().contains(k) && out@[k] == self@[k],
                forall|j: int|
                    0 <= j < i && #[trigger] self.keys()[j] != key@ ==> out@.dom().contains(self.keys()[j]),
            decreases n - i,
        {
            let name = self.key_at(i);
            let value = self.value_at(i);
            if !text::same(name, key) {
                out.insert(name.to_owned(), value.copy());
            }
            i += 1;
        }
        assert forall|k: Seq<char>| self@.dom().contains(k) && k != key@ implies out@.dom().contains(k) by {
            assert(self.keys().contains(k));
            let j = choose|j: int| 0 <= j < self.keys().len() && self.keys()[j] == k;
            assert(out@.dom().contains(self.keys()[j]));
        }
        assert(out@ =~= self@.remove(key@));
        out
    }

    /// Whether a key is bound.
    pub fn contains_key(&self, key: &str) -> (r: bool)
        ensures
            r == self@.dom().contains(key@),
    {
        self.get(key).is_some()
    }

    /// Whether there are no members.
    pub fn is_empty(&self) -> (r: bool)
        ensures
            r == (self@ == Map::<Seq<char>, JsonView>::empty()),
    {
        let n: usize = self.len();
        proof {
            if n > 0 {
                assert(self.keys().contains(self.keys()[0]));
                assert(self@.dom().contains(self.keys()[0]));
            } else {
                assert forall|k: Seq<char>| !self@.dom().contains(k) by {
                    assert(!self.keys().contains(k));
                }
                assert(self@ =~= Map::<Seq<char>, JsonView>::empty());
            }
        }
        n == 0
    }
}

/// Whether a key is the first, in ascending order, whose value has something to
/// give.
pub open spec fn first_key(
    m: Map<Seq<char>, JsonView>,
    f: spec_fn(JsonView) -> Option<Seq<char>>,
    k: Seq<char>,
) -> bool {
    &&& m.dom().contains(k)
    &&& f(m[k]) is Some
    &&& forall|j: Seq<char>| #[trigger] m.dom().contains(j) && before(j, k) ==> f(m[j]) is None
}

/// What the first value that has something to give, in ascending order of keys,
/// gives.
pub open spec fn first_value(
    m: Map<Seq<char>, JsonView>,
    f: spec_fn(JsonView) -> Option<Seq<char>>,
) -> Option<Seq<char>> {
    if exists|k: Seq<char>| first_key(m, f, k) {
        f(m[choose|k: Seq<char>| first_key(m, f, k)])
    } else {
        None
    }
}

proof fn lemma_first_key_unique(
    m: Map<Seq<char>, JsonView>,
    f: spec_fn(JsonView) -> Option<Seq<char>>,
    a: Seq<char>,
    b: Seq<char>,
)
    requires
        first_key(m, f, a),
        first_key(m, f, b),
    ensures
        a == b,
{
    lemma_before_total(a, b);
}

/// The value in a place gives the first thing, where none before it does.
pub proof fn lemma_first_found(o: JsonObject, f: spec_fn(JsonView) -> Option<Seq<char>>, i: int)
    requires
        ascending(o.keys()),
        forall|k: Seq<char>| #[trigger] o@.dom().contains(k) ==> o.keys().contains(k),
        0 <= i < o.keys().len(),
        o@.dom().contains(o.keys()[i]),
        f(o@[o.keys()[i]]) is Some,
        forall|j: int| 0 <= j < i ==> f(o@[#[trigger] o.keys()[j]]) is None,
    ensures
        first_value(o@, f) == f(o@[o.keys()[i]]),
{
    let k = o.keys()[i];
    assert forall|q: Seq<char>| #[trigger] o@.dom().contains(q) && before(q, k) implies f(o@[q]) is None by {
        assert(o.keys().contains(q));
        let j = choose|j: int| 0 <= j < o.keys().len() && o.keys()[j] == q;
        if j == i {
            lemma_before_irreflexive(k);
        }
        if i < j {
            assert(before(o.keys()[i], o.keys()[j]));
            lemma_before_transitive(q, k, q);
            lemma_before_irreflexive(q);
        }
        assert(f(o@[o.keys()[j]]) is None);
    }
    assert(first_key(o@, f, k));
    lemma_first_key_unique(o@, f, k, choose|q: Seq<char>| first_key(o@, f, q));
}

/// There is no first value, where none has anything to give.
pub proof fn lemma_first_absent(o: JsonObject, f: spec_fn(JsonView) -> Option<Seq<char>>)
    requires
        forall|k: Seq<char>| #[trigger] o@.dom().contains(k) ==> o.keys().contains(k),
        forall|j: int| 0 <= j < o.keys().len() ==> f(o@[#[trigger] o.keys()[j]]) is None,
    ensures
        first_value(o@, f) is None,
{
    assert forall|q: Seq<char>| !first_key(o@, f, q) by {
        if o@.dom().contains(q) {
            assert(o.keys().contains(q));
            let j = choose|j: int| 0 <= j < o.keys().len() && o.keys()[j] == q;
            assert(f(o@[o.keys()[j]]) is None);
        }
    }
}

/// Whether texts stand in ascending order, equal ones side by side.
pub open spec fn sorted(v: Seq<Seq<char>>) -> bool {
    forall|i: int, j: int| 0 <= i < j < v.len() ==> !before(#[trigger] v[j], #[trigger] v[i])
}

/// Puts a text into a sorted list, which stays sorted.
pub fn insert_sorted(list: &mut Vec<String>, t: String)
    requires
        sorted(text::texts(old(list)@)),
    ensures
        sorted(text::texts(final(list)@)),
        text::texts(final(list)@).to_multiset() == text::texts(old(list)@).to_multiset().insert(t@),
{
    let ghost was = text::texts(list@);
    let mut i: usize = 0;
    while i < list.len() && !key_before(t.as_str(), list[i].as_str())
        invariant
            i <= list.len(),
            was == text::texts(list@),
            forall|j: int| 0 <= j < i ==> !before(t@, #[trigger] was[j]),
        decreases list.len() - i,
    {
        assert(was[i as int] == list@[i as int]@);
        i += 1;
    }
    let ghost x = t@;
    let ghost at = i as int;
    assert(at < was.len() ==> was[at] == list@[at]@);
    list.insert(i, t);
    proof {
        let now = text::texts(list@);
        assert(now =~= was.insert(at, x));
        vstd::seq_lib::to_multiset_insert(was, at, x);
        assert forall|a: int, b: int| 0 <= a < b < now.len() implies !before(#[trigger] now[b], #[trigger] now[a]) by {
            if a < at && b < at {
                assert(!before(was[b], was[a]));
            } else if a < at && b == at {
                assert(!before(x, was[a]));
            } else if a < at {
                assert(!before(was[b - 1], was[a]));
            } else if a == at {
                if before(was[b - 1], x) {
                    lemma_before_transitive(was[b - 1], x, was[at]);
                    if b - 1 == at {
                        lemma_before_irreflexive(was[at]);
                    }
                }
            } else {
                assert(!before(was[b - 1], was[a - 1]));
            }
        }
    }
}

/// The number of the blob that an object stands for.
pub open spec fn blob_reference(m: Map<Seq<char>, JsonView>) -> Option<i64> {
    if m.dom().contains("@blob"@) {
        match m["@blob"@] {
            JsonView::Number(n) => signed_of(n),
            _ => None,
        }
    } else {
        None
    }
}

/// What is shown in place of a blob.
pub open spec fn blob_note(id: i64) -> JsonView {
    JsonView::Object(
        Map::<Seq<char>, JsonView>::empty().insert(
            "@blob"@,
            JsonView::Str("local #"@ + text::integer_text(id as int) + " (omitted)"@),
        ),
    )
}

/// A value with a note in place of every object that stands for a blob.
pub open spec fn redacted(v: JsonView) -> JsonView
    decreases v,
{
    match v {
        JsonView::Array(s) => JsonView::Array(
            Seq::new(
                s.len(),
                |i: int|
                    if 0 <= i < s.len() {
                        redacted(s[i])
                    } else {
                        JsonView::Null
                    },
            ),
        ),
        JsonView::Object(m) => match blob_reference(m) {
            Some(id) => blob_note(id),
            None => JsonView::Object(
                Map::new(
                    |k: Seq<char>| m.dom().contains(k),
                    |k: Seq<char>|
                        if m.dom().contains(k) {
                            redacted(m[k])
                        } else {
                            JsonView::Null
                        },
                ),
            ),
        },
        _ => v,
    }
}

impl Json {
    /// See [`redacted`].
    pub fn redact(&self) -> (r: Json)
        ensures
            r@ == redacted(self@),
        decreases self,
    {
        match self {
            Json::Array(items) => {
                let mut out: Vec<Json> = Vec::new();
                let mut i: usize = 0;
                while i < items.len()
                    invariant
                        i <= items.len(),
                        out.len() == i,
                        *self == Json::Array(*items),
                        forall|j: int| 0 <= j < i ==> (#[trigger] out@[j])@ == redacted(items@[j]@),
                    decreases items.len() - i,
                {
                    assert(decreases_to!(*self => self->Array_0));
                    let v = items[i].redact();
                    out.push(v);
                    i += 1;
                }
                let r = Json::Array(out);
                assert(self@->Array_0 =~= views(items@));
                assert(r@->Array_0 =~= redacted(self@)->Array_0);
                r
            },
            Json::Object(o) => {
                let ghost m = o@;
                assert(self@ == JsonView::Object(m));
                match o.get("@blob") {
                    Some(v) => match v.as_i64() {
                        Some(id) => {
                            let n = text::integer(id);
                            let note = text::joined3("local #", n.as_str(), " (omitted)");
                            let mut only = JsonObject::new();
                            only.insert("@blob".to_owned(), Json::Str(note));
                            return Json::Object(only);
                        },
                        None => {},
                    },
                    None => {},
                }
                let members = o.redact_members();
                assert(members@ =~= redacted(self@)->Object_0);
                Json::Object(members)
            },
            _ => self.copy(),
        }
    }
}

impl JsonObject {
    fn redact_members(&self) -> (r: JsonObject)
        ensures
            r@.dom() == self@.dom(),
            forall|k: Seq<char>| #[trigger] r@.dom().contains(k) ==> r@[k] == redacted(self@[k]),
        decreases self,
    {
        let mut out = JsonObject::new();
        let n: usize = self.len();
        let mut i: usize = 0;
        proof {
            use_type_invariant(self);
        }
        while i < n
            invariant
                n == self.entries@.len(),
                self.well_formed(),
                i <= n,
                forall|k: Seq<char>|
                    #![trigger self@.dom().contains(k)]
                    #![trigger self.keys().contains(k)]
                    self@.dom().contains(k) <==> self.keys().contains(k),
                forall|k: Seq<char>| #[trigger]
                    out@.dom().contains(k) ==> self@.dom().contains(k) && out@[k] == redacted(self@[k]),
                forall|j: int| 0 <= j < i ==> out@.dom().contains(#[trigger] self.keys()[j]),
            decreases n - i,
        {
            assert(decreases_to!(*self => self.entries));
            proof {
                lemma_value_at(*self, i as int);
            }
            let value = self.entries[i].1.redact();
            out.insert(self.entries[i].0.clone(), value);
            i += 1;
        }
        assert forall|k: Seq<char>| self@.dom().contains(k) implies out@.dom().contains(k) by {
            assert(self.keys().contains(k));
            let j = choose|j: int| 0 <= j < self.keys().len() && self.keys()[j] == k;
            assert(out@.dom().contains(self.keys()[j]));
        }
        assert(out@.dom() =~= self@.dom());
        out
    }
}

/// Whether no object in a value, at any depth, stands for a blob.
pub open spec fn without_blobs(v: JsonView) -> bool
    decreases v,
{
    match v {
        JsonView::Array(s) => forall|i: int| 0 <= i < s.len() ==> without_blobs(#[trigger] s[i]),
        JsonView::Object(m) => blob_reference(m) is None && forall|k: Seq<char>| #[trigger]
            m.dom().contains(k) ==> without_blobs(m[k]),
        _ => true,
    }
}

/// No blob is left in a value where they have been replaced.
pub proof fn redaction_leaves_no_blob(v: JsonView)
    ensures
        without_blobs(redacted(v)),
    decreases v,
{
    match v {
        JsonView::Array(s) => {
            let r = redacted(v)->Array_0;
            assert forall|i: int| 0 <= i < r.len() implies without_blobs(#[trigger] r[i]) by {
                redaction_leaves_no_blob(s[i]);
            }
        },
        JsonView::Object(m) => {
            match blob_reference(m) {
                Some(id) => {
                    let r = blob_note(id)->Object_0;
                    assert forall|k: Seq<char>| #[trigger] r.dom().contains(k) implies without_blobs(r[k]) by {}
                    assert(without_blobs(JsonView::Object(r)));
                },
                None => {
                    let r = redacted(v)->Object_0;
                    assert forall|k: Seq<char>| #[trigger] r.dom().contains(k) implies without_blobs(r[k]) by {
                        redaction_leaves_no_blob(m[k]);
                    }
                    if m.dom().contains("@blob"@) {
                        let b = m["@blob"@];
                        assert(r["@blob"@] == redacted(b));
                        assert(redacted(b) is Number ==> redacted(b) == b) by {
                            match b {
                                JsonView::Object(n) => match blob_reference(n) {
                                    Some(_) => {},
                                    None => {},
                                },
                                _ => {},
                            }
                        }
                    }
                    assert(blob_reference(r) is None);
                },
            }
        },
        _ => {},
    }
}

} // verus!
