//! The objects that could not be exported, for people and for programs.

use vstd::prelude::*;
use vstd::string::*;

use crate::db::export_failures::{FailedItem, FailedView};
use crate::error::{Error, ErrorView};
use crate::inspect::list::{
    continuation, field_views, head_text, more_text, or_null, record_text, remaining, rows_left, title,
    title_text, write_header, write_record,
};
use crate::json::{json_compact, views, Json, JsonObject, JsonView, NumberView};
use crate::text;
use crate::types::ObjectType;

verus! {

/// Why a container is not among the items.
pub const NOT_AN_ITEM_TYPE: &'static str =
    "not a per-item object type: a refusal here does not name a single transferable item";

/// Why an object of an unknown kind is not among the items.
pub const UNKNOWN_TYPE: &'static str = "object type unknown to this binary: archive written by another build";

/// Whether a kind is one of single items that are moved one by one.
pub open spec fn is_item(t: ObjectType) -> bool {
    match t {
        ObjectType::Email | ObjectType::ContactCard | ObjectType::CalendarEvent | ObjectType::SieveScript
        | ObjectType::Identity => true,
        _ => false,
    }
}

/// The label of a kind of items, or why it has none.
pub open spec fn label_of(token: Seq<char>) -> Result<Seq<char>, Seq<char>> {
    match ObjectType::named(token) {
        None => Err(UNKNOWN_TYPE@),
        Some(t) => if is_item(t) {
            Ok(t.jmap())
        } else {
            Err(NOT_AN_ITEM_TYPE@)
        },
    }
}

/// See [`label_of`].
pub fn item_label(token: &str) -> (r: Result<&'static str, &'static str>)
    ensures
        match r {
            Ok(l) => label_of(token@) == Ok::<Seq<char>, Seq<char>>(l@),
            Err(e) => label_of(token@) == Err::<Seq<char>, Seq<char>>(e@),
        },
{
    match ObjectType::parse(token) {
        None => Err(UNKNOWN_TYPE),
        Some(t) => match t {
            ObjectType::Email | ObjectType::ContactCard | ObjectType::CalendarEvent | ObjectType::SieveScript
            | ObjectType::Identity => Ok(t.jmap_name()),
            _ => Err(NOT_AN_ITEM_TYPE),
        },
    }
}

/// The label of a kind of items is the archive's name for it but for the case of
/// its letters.
pub proof fn labels_fold_to_archive_names(t: ObjectType)
    ensures
        label_of(t.archive()) matches Ok(l) ==> text::small_text(l) == t.archive(),
{
    crate::types::archive_names_tell_kinds_apart(t);
    crate::types::archive_names_are_folded(t);
}

/// Members with one more, where there is a text for it; an empty text is none.
pub open spec fn with_present(m: Map<Seq<char>, JsonView>, k: Seq<char>, v: Option<Seq<char>>) -> Map<
    Seq<char>,
    JsonView,
> {
    match v {
        Some(t) if t.len() > 0 => m.insert(k, JsonView::Str(t)),
        _ => m,
    }
}

/// See [`with_present`].
pub fn insert_present(o: &mut JsonObject, key: &str, value: Option<&str>)
    ensures
        final(o)@ == with_present(old(o)@, key@, text::opt_str(value)),
{
    match value {
        Some(v) => {
            if !v.is_empty() {
                o.insert(key.to_owned(), Json::text(v));
            }
        },
        None => {},
    }
}

/// Which row a message speaks of.
pub open spec fn row_name(row: FailedView) -> Seq<char> {
    "quarantine row "@ + row.type_token + (" #"@ + text::integer_text(row.local_id as int))
}

/// The members of a row.
pub open spec fn row_members(label: Seq<char>, row: FailedView) -> Map<Seq<char>, JsonView> {
    let a = Map::<Seq<char>, JsonView>::empty().insert("type"@, JsonView::Str(label)).insert(
        "id"@,
        JsonView::Str(row.client_id),
    );
    let b = with_present(a, "message_id"@, row.message_id);
    let c = match row.size_bytes {
        Some(n) => b.insert("size"@, JsonView::Number(NumberView::Integer(n as int))),
        None => b,
    };
    let d = with_present(c, "content_hash"@, row.blob_hash);
    let e = with_present(d, "blob_id"@, row.target_blob_id);
    let f = e.insert("error"@, JsonView::Str(row.error_type));
    let g = with_present(f, "detail"@, Some(row.error_detail));
    g.insert("blob_probe"@, JsonView::Str(row.blob_probe)).insert(
        "failed_at"@,
        JsonView::Str(row.failed_at),
    )
}

/// A row for programs. One that cannot be named or classified is an error rather
/// than half a row.
pub open spec fn row_json(label: Seq<char>, row: FailedView) -> Result<JsonView, ErrorView> {
    if row.client_id.len() == 0 {
        Err(
            ErrorView::Partial(
                row_name(row) + " carries no creation id; the structured dump cannot name it"@,
            ),
        )
    } else if row.error_type.len() == 0 {
        Err(
            ErrorView::Partial(
                row_name(row) + " carries no error type; the structured dump cannot classify it"@,
            ),
        )
    } else {
        Ok(JsonView::Object(row_members(label, row)))
    }
}

fn name_row(row: &FailedItem) -> (r: String)
    ensures
        r@ == row_name(row@),
{
    let tail = text::joined(" #", text::integer(row.local_id).as_str());
    text::joined3("quarantine row ", row.type_token.as_str(), tail.as_str())
}

/// See [`row_json`].
pub fn json_row(label: &str, row: &FailedItem) -> (r: Result<Json, Error>)
    ensures
        match r {
            Ok(j) => row_json(label@, row@) == Ok::<JsonView, ErrorView>(j@),
            Err(e) => row_json(label@, row@) == Err::<JsonView, ErrorView>(e@),
        },
{
    if row.client_id.as_str().is_empty() {
        return Err(
            Error::Partial(
                text::joined(
                    name_row(row).as_str(),
                    " carries no creation id; the structured dump cannot name it",
                ),
            ),
        );
    }
    if row.error_type.as_str().is_empty() {
        return Err(
            Error::Partial(
                text::joined(
                    name_row(row).as_str(),
                    " carries no error type; the structured dump cannot classify it",
                ),
            ),
        );
    }
    let mut o = JsonObject::new();
    o.insert("type".to_owned(), Json::text(label));
    o.insert("id".to_owned(), Json::text(row.client_id.as_str()));
    insert_present(&mut o, "message_id", text::borrowed(&row.message_id));
    match row.size_bytes {
        Some(n) => {
            o.insert("size".to_owned(), Json::signed(n));
        },
        None => {},
    }
    insert_present(&mut o, "content_hash", text::borrowed(&row.blob_hash));
    insert_present(&mut o, "blob_id", text::borrowed(&row.target_blob_id));
    o.insert("error".to_owned(), Json::text(row.error_type.as_str()));
    insert_present(&mut o, "detail", Some(row.error_detail.as_str()));
    o.insert("blob_probe".to_owned(), Json::text(row.blob_probe.as_str()));
    o.insert("failed_at".to_owned(), Json::text(row.failed_at.as_str()));
    Ok(Json::Object(o))
}

/// A kind of object that is left out, why, and how often.
pub struct Omitted {
    pub type_token: String,
    pub reason: &'static str,
    pub count: u64,
}

/// The view of an [`Omitted`].
pub struct OmittedView {
    pub type_token: Seq<char>,
    pub reason: Seq<char>,
    pub count: nat,
}

impl View for Omitted {
    type V = OmittedView;

    open spec fn view(&self) -> OmittedView {
        OmittedView { type_token: self.type_token@, reason: self.reason@, count: self.count as nat }
    }
}

/// The views of kinds left out.
pub open spec fn omitted_views(v: Seq<Omitted>) -> Seq<OmittedView> {
    Seq::new(v.len(), |i: int| v[i]@)
}

/// The first of the kinds from the `n`th on that is a given one.
pub open spec fn omitted_place(v: Seq<OmittedView>, token: Seq<char>, n: nat) -> Option<int>
    decreases v.len() - n,
{
    if n >= v.len() {
        None
    } else if v[n as int].type_token == token {
        Some(n as int)
    } else {
        omitted_place(v, token, n + 1)
    }
}

/// Kinds left out with one more object: counted with its kind, or a new entry.
pub open spec fn noted(v: Seq<OmittedView>, token: Seq<char>, reason: Seq<char>) -> Seq<OmittedView> {
    match omitted_place(v, token, 0) {
        Some(i) => v.update(i, OmittedView { count: v[i].count + 1, ..v[i] }),
        None => v.push(OmittedView { type_token: token, reason, count: 1 }),
    }
}

/// The objects left out.
pub open spec fn omitted_total(v: Seq<OmittedView>, n: nat) -> nat
    decreases n,
{
    if n == 0 {
        0
    } else {
        omitted_total(v, (n - 1) as nat) + v[n - 1].count
    }
}

proof fn lemma_place(v: Seq<OmittedView>, token: Seq<char>, n: nat)
    requires
        n <= v.len(),
    ensures
        omitted_place(v, token, n) matches Some(i) ==> n <= i < v.len(),
    decreases v.len() - n,
{
    if n < v.len() && v[n as int].type_token != token {
        lemma_place(v, token, n + 1);
    }
}

proof fn lemma_total_update(v: Seq<OmittedView>, i: int, o: OmittedView, n: nat)
    requires
        0 <= i < v.len(),
        n <= v.len(),
    ensures
        omitted_total(v.update(i, o), n) == omitted_total(v, n) + if i < n {
            o.count - v[i].count
        } else {
            0
        },
    decreases n,
{
    if n > 0 {
        lemma_total_update(v, i, o, (n - 1) as nat);
    }
}

proof fn lemma_total_push(v: Seq<OmittedView>, o: OmittedView, n: nat)
    requires
        n <= v.len(),
    ensures
        omitted_total(v.push(o), n) == omitted_total(v, n),
    decreases n,
{
    if n > 0 {
        lemma_total_push(v, o, (n - 1) as nat);
    }
}

proof fn lemma_count_within(v: Seq<OmittedView>, i: int, n: nat)
    requires
        0 <= i < n <= v.len(),
    ensures
        v[i].count <= omitted_total(v, n),
    decreases n,
{
    if i < n - 1 {
        lemma_count_within(v, i, (n - 1) as nat);
    }
}

/// Leaving out an object adds one to the count of those left out.
pub proof fn noting_counts_one(v: Seq<OmittedView>, token: Seq<char>, reason: Seq<char>)
    ensures
        omitted_total(noted(v, token, reason), noted(v, token, reason).len()) == omitted_total(v, v.len()) + 1,
{
    lemma_place(v, token, 0);
    match omitted_place(v, token, 0) {
        Some(i) => lemma_total_update(v, i, OmittedView { count: v[i].count + 1, ..v[i] }, v.len()),
        None => {
            let o = OmittedView { type_token: token, reason, count: 1 };
            lemma_total_push(v, o, v.len());
            assert(omitted_total(v.push(o), v.push(o).len()) == omitted_total(v.push(o), v.len()) + 1);
        },
    }
}

/// Takes in that an object is left out; see [`noted`].
pub fn note_omitted(omitted: &mut Vec<Omitted>, token: &str, reason: &'static str)
    requires
        omitted_total(omitted_views(old(omitted)@), old(omitted)@.len()) < u64::MAX,
    ensures
        omitted_views(final(omitted)@) == noted(omitted_views(old(omitted)@), token@, reason@),
{
    let ghost all = omitted_views(omitted@);
    let mut i: usize = 0;
    while i < omitted.len()
        invariant
            i <= omitted.len(),
            all == omitted_views(omitted@),
            all == omitted_views(old(omitted)@),
            omitted_total(all, all.len()) < u64::MAX,
            omitted_place(all, token@, 0) == omitted_place(all, token@, i as nat),
        decreases omitted.len() - i,
    {
        assert(all[i as int] == omitted@[i as int]@);
        if text::same(omitted[i].type_token.as_str(), token) {
            proof {
                lemma_count_within(all, i as int, all.len());
            }
            let entry = Omitted {
                type_token: omitted[i].type_token.clone(),
                reason: omitted[i].reason,
                count: omitted[i].count + 1,
            };
            omitted.set(i, entry);
            assert(omitted_views(omitted@) =~= noted(all, token@, reason@));
            return;
        }
        i += 1;
    }
    omitted.push(Omitted { type_token: token.to_owned(), reason, count: 1 });
    assert(omitted_views(omitted@) =~= noted(all, token@, reason@));
}

/// The views of rows.
pub open spec fn failed_views(v: Seq<FailedItem>) -> Seq<FailedView> {
    Seq::new(v.len(), |i: int| v[i]@)
}

/// The first `n` rows for programs, and the kinds left out; or the first error.
pub open spec fn dumped(rows: Seq<FailedView>, n: nat) -> Result<(Seq<JsonView>, Seq<OmittedView>), ErrorView>
    decreases n,
{
    if n == 0 {
        Ok((Seq::empty(), Seq::empty()))
    } else {
        match dumped(rows, (n - 1) as nat) {
            Err(e) => Err(e),
            Ok((items, omitted)) => match label_of(rows[n - 1].type_token) {
                Ok(label) => match row_json(label, rows[n - 1]) {
                    Ok(j) => Ok((items.push(j), omitted)),
                    Err(e) => Err(e),
                },
                Err(reason) => Ok((items, noted(omitted, rows[n - 1].type_token, reason))),
            },
        }
    }
}

/// A kind left out, for programs.
pub open spec fn omitted_json(o: OmittedView) -> JsonView {
    JsonView::Object(
        Map::<Seq<char>, JsonView>::empty().insert("type"@, JsonView::Str(o.type_token)).insert(
            "reason"@,
            JsonView::Str(o.reason),
        ).insert("count"@, JsonView::Number(NumberView::Integer(o.count as int))),
    )
}

/// The whole for programs: the items, and the kinds left out. Both are always
/// there.
pub open spec fn envelope(items: Seq<JsonView>, omitted: Seq<OmittedView>) -> JsonView {
    JsonView::Object(
        Map::<Seq<char>, JsonView>::empty().insert("failed_items"@, JsonView::Array(items)).insert(
            "omitted"@,
            JsonView::Array(Seq::new(omitted.len(), |i: int| omitted_json(omitted[i]))),
        ),
    )
}

/// What is written for programs.
pub open spec fn dump_of(rows: Seq<FailedView>) -> Result<JsonView, ErrorView> {
    match dumped(rows, rows.len()) {
        Ok((items, omitted)) => Ok(envelope(items, omitted)),
        Err(e) => Err(e),
    }
}

/// Every row is accounted for: it is among the items, or counted among those left
/// out.
pub proof fn rows_are_accounted_for(rows: Seq<FailedView>, n: nat)
    requires
        n <= rows.len(),
    ensures
        dumped(rows, n) matches Ok((items, omitted)) ==> items.len() + omitted_total(omitted, omitted.len()) == n,
    decreases n,
{
    if n > 0 {
        rows_are_accounted_for(rows, (n - 1) as nat);
        match dumped(rows, (n - 1) as nat) {
            Ok((items, omitted)) => match label_of(rows[n - 1].type_token) {
                Ok(label) => {},
                Err(reason) => noting_counts_one(omitted, rows[n - 1].type_token, reason),
            },
            Err(_) => {},
        }
    }
}

fn build_omitted(omitted: &Vec<Omitted>) -> (r: Json)
    ensures
        ({
            let v = omitted_views(omitted@);
            r@ == JsonView::Array(Seq::new(v.len(), |i: int| omitted_json(v[i])))
        }),
{
    let ghost v = omitted_views(omitted@);
    let mut out: Vec<Json> = Vec::new();
    let mut i: usize = 0;
    while i < omitted.len()
        invariant
            i <= omitted.len(),
            v == omitted_views(omitted@),
            out.len() == i,
            forall|j: int| 0 <= j < i ==> (#[trigger] out@[j])@ == omitted_json(v[j]),
        decreases omitted.len() - i,
    {
        assert(v[i as int] == omitted@[i as int]@);
        let mut o = JsonObject::new();
        o.insert("type".to_owned(), Json::text(omitted[i].type_token.as_str()));
        o.insert("reason".to_owned(), Json::text(omitted[i].reason));
        o.insert("count".to_owned(), Json::unsigned(omitted[i].count));
        out.push(Json::Object(o));
        i += 1;
    }
    let r = Json::Array(out);
    assert(r@->Array_0 =~= Seq::new(v.len(), |i: int| omitted_json(v[i])));
    r
}

/// The rows for programs as one value; see [`dump_of`].
pub fn failures_json(rows: &Vec<FailedItem>) -> (r: Result<Json, Error>)
    ensures
        match r {
            Ok(j) => dump_of(failed_views(rows@)) == Ok::<JsonView, ErrorView>(j@),
            Err(e) => dump_of(failed_views(rows@)) == Err::<JsonView, ErrorView>(e@),
        },
{
    let ghost all = failed_views(rows@);
    let mut items: Vec<Json> = Vec::new();
    let mut omitted: Vec<Omitted> = Vec::new();
    assert(views(items@) =~= Seq::<JsonView>::empty());
    assert(omitted_views(omitted@) =~= Seq::<OmittedView>::empty());
    let mut i: usize = 0;
    while i < rows.len()
        invariant
            i <= rows.len(),
            all == failed_views(rows@),
            dumped(all, i as nat) == Ok::<(Seq<JsonView>, Seq<OmittedView>), ErrorView>(
                (views(items@), omitted_views(omitted@)),
            ),
        decreases rows.len() - i,
    {
        assert(all[i as int] == rows@[i as int]@);
        proof {
            rows_are_accounted_for(all, i as nat);
        }
        let row = &rows[i];
        match item_label(row.type_token.as_str()) {
            Ok(label) => match json_row(label, row) {
                Ok(j) => {
                    let ghost was = views(items@);
                    let ghost x = j@;
                    items.push(j);
                    assert(views(items@) =~= was.push(x));
                },
                Err(e) => {
                    proof {
                        lemma_errors_stay(all, (i + 1) as nat, all.len());
                    }
                    return Err(e);
                },
            },
            Err(reason) => {
                note_omitted(&mut omitted, row.type_token.as_str(), reason);
            },
        }
        i += 1;
    }
    let mut o = JsonObject::new();
    let list = Json::Array(items);
    assert(list@->Array_0 =~= views(items@));
    o.insert("failed_items".to_owned(), list);
    o.insert("omitted".to_owned(), build_omitted(&omitted));
    Ok(Json::Object(o))
}

proof fn lemma_errors_stay(rows: Seq<FailedView>, n: nat, m: nat)
    requires
        n <= m,
        dumped(rows, n) is Err,
    ensures
        dumped(rows, m) == dumped(rows, n),
    decreases m,
{
    if n < m {
        lemma_errors_stay(rows, n, (m - 1) as nat);
    }
}

/// The rows for programs: one line of JSON.
pub fn write_failures_json(rows: &Vec<FailedItem>) -> (r: Result<String, Error>)
    ensures
        match r {
            Ok(t) => dump_of(failed_views(rows@)) matches Ok(v) && t@ == json_compact(v) + "\n"@,
            Err(e) => dump_of(failed_views(rows@)) == Err::<JsonView, ErrorView>(e@),
        },
{
    match failures_json(rows) {
        Ok(j) => Ok(text::joined(j.compact().as_str(), "\n")),
        Err(e) => Err(e),
    }
}

/// A blob as it is shown. That no hash is recorded does not say that the bytes are
/// gone.
pub open spec fn blob_text(id: Option<i64>, hash: Option<Seq<char>>) -> Seq<char> {
    match id {
        Some(n) => match hash {
            Some(h) => "local #"@ + text::integer_text(n as int) + (" blake3="@ + h),
            None => "local #"@ + text::integer_text(n as int) + " (no content hash recorded)"@,
        },
        None => match hash {
            Some(h) => "blake3="@ + h,
            None => "(null)"@,
        },
    }
}

/// See [`blob_text`].
pub fn blob_field(id: Option<i64>, hash: Option<&str>) -> (r: String)
    ensures
        r@ == blob_text(id, text::opt_str(hash)),
{
    match id {
        Some(n) => {
            let number = text::integer(n);
            match hash {
                Some(h) => {
                    let tail = text::joined(" blake3=", h);
                    text::joined3("local #", number.as_str(), tail.as_str())
                },
                None => text::joined3("local #", number.as_str(), " (no content hash recorded)"),
            }
        },
        None => match hash {
            Some(h) => text::joined("blake3=", h),
            None => "(null)".to_owned(),
        },
    }
}

/// The size that is shown: never below zero.
pub fn bytes_or_none(n: i64) -> (r: u64)
    ensures
        r == if n < 0 {
            0
        } else {
            n as int
        },
{
    if n < 0 {
        0
    } else {
        n as u64
    }
}

/// The fields of a row. The size comes as it is shown.
pub open spec fn failure_fields(row: FailedView, size: Option<Seq<char>>) -> Seq<(Seq<char>, Seq<char>)> {
    seq![
        ("client_id"@, row.client_id),
        ("message_id"@, or_null(row.message_id)),
        ("size"@, or_null(size)),
        ("blob"@, blob_text(row.blob_local_id, row.blob_hash)),
        ("target_blob_id"@, or_null(row.target_blob_id)),
        ("error_type"@, row.error_type),
        ("blob_probe"@, row.blob_probe),
        ("error_detail"@, row.error_detail),
        ("failed_at"@, row.failed_at),
    ]
}

fn or_mark(s: &Option<String>) -> (r: String)
    ensures
        r@ == or_null(text::opt_text(*s)),
{
    match s {
        Some(t) => t.clone(),
        None => "(null)".to_owned(),
    }
}

/// A row for people.
pub fn failure_record(row: &FailedItem, size: Option<&str>) -> (r: String)
    ensures
        r@ == record_text(
            title_text(row.type_token@, row.local_id),
            failure_fields(row@, text::opt_str(size)),
        ),
{
    let shown = text::owned(size);
    let fields = vec![
        ("client_id", row.client_id.clone()),
        ("message_id", or_mark(&row.message_id)),
        ("size", or_mark(&shown)),
        ("blob", blob_field(row.blob_local_id, text::borrowed(&row.blob_hash))),
        ("target_blob_id", or_mark(&row.target_blob_id)),
        ("error_type", row.error_type.clone()),
        ("blob_probe", row.blob_probe.clone()),
        ("error_detail", row.error_detail.clone()),
        ("failed_at", row.failed_at.clone()),
    ];
    assert(field_views(fields@) =~= failure_fields(row@, text::opt_str(size)));
    write_record(title(row.type_token.as_str(), row.local_id).as_str(), &fields)
}

/// What is written for people.
pub open spec fn failures_text(
    head: Seq<char>,
    total: u64,
    records: Seq<Seq<char>>,
    more: Seq<char>,
) -> Seq<char> {
    if total == 0 {
        head + "(no export failures in archive)\n"@
    } else {
        head + text::join_text(records, ""@) + more
    }
}

/// The rows for people, given their records. The numbers come as they are shown;
/// `offset_shown` is absent where nothing is skipped.
pub fn write_failures(
    total: u64,
    records: &Vec<String>,
    limit: Option<usize>,
    offset: usize,
    total_shown: &str,
    limit_shown: Option<&str>,
    offset_shown: Option<&str>,
    left_shown: &str,
) -> (r: String)
    requires
        offset + records@.len() <= u64::MAX,
    ensures
        r@ == failures_text(
            head_text("Export failures"@, total_shown@, text::opt_str(limit_shown), text::opt_str(offset_shown)),
            total,
            text::texts(records@),
            match rows_left(total, limit, offset, records@.len() as u64) {
                Some((_, next)) => more_text(left_shown@, next, limit->0),
                None => ""@,
            },
        ),
{
    let head = write_header("Export failures", total_shown, limit_shown, offset_shown);
    if total == 0 {
        return text::joined(head.as_str(), "(no export failures in archive)\n");
    }
    let more = match remaining(total, limit, offset, records.len() as u64) {
        Some((_, next)) => match limit {
            Some(l) => continuation(left_shown, next, l),
            None => "".to_owned(),
        },
        None => "".to_owned(),
    };
    text::joined3(head.as_str(), text::join(records, "").as_str(), more.as_str())
}

/// The three fields that a program relies on are in every item.
pub proof fn items_carry_what_is_relied_on(label: Seq<char>, row: FailedView)
    requires
        row_json(label, row) is Ok,
    ensures
        ({
            let v = row_json(label, row)->Ok_0;
            &&& v.text_at("type"@) == Some(label)
            &&& v.text_at("id"@) == Some(row.client_id) && row.client_id.len() > 0
            &&& v.text_at("error"@) == Some(row.error_type) && row.error_type.len() > 0
        }),
{
    reveal_strlit("type");
    reveal_strlit("id");
    reveal_strlit("message_id");
    reveal_strlit("size");
    reveal_strlit("content_hash");
    reveal_strlit("blob_id");
    reveal_strlit("error");
    reveal_strlit("detail");
    reveal_strlit("blob_probe");
    reveal_strlit("failed_at");
    assert("type"@.len() == 4 && "id"@.len() == 2 && "message_id"@.len() == 10 && "size"@.len() == 4
        && "content_hash"@.len() == 12 && "blob_id"@.len() == 7 && "error"@.len() == 5 && "detail"@.len() == 6
        && "blob_probe"@.len() == 10 && "failed_at"@.len() == 9);
    assert("type"@[0] == 't' && "size"@[0] == 's');
}

} // verus!
