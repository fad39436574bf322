//! Showing what an archive holds and what could not be exported.

use vstd::prelude::*;
use vstd::string::*;

use crate::db::export_failures::{page_clause, FailedItem, FailedView};
use crate::error::{Error, ErrorView};
use crate::inspect::failures::{
    blob_text, dumped, envelope, failed_views, failure_fields, failures_json, failures_text, is_item, label_of,
    noted, omitted_json, omitted_place, row_json, row_members, OmittedView,
};
use crate::inspect::list::{
    calendar_fields, field_text, fields_text, folder_text, folders_text, further_lines, head_text, integers_in,
    keywords_text, label_len, list_text, local_ids_in, more_text, or_null, pretty_or_raw, record_text, redacted_text,
    rows_left, text_list, title_text, widest, write_address_books, write_calendar_events, write_contact_cards,
    write_emails, write_identities, write_participant_identities, write_sieves, yes_no, CalendarColumns, Names,
};
use crate::json::{json_parse, json_pretty, redacted, Json, JsonView, NumberView};
use crate::text;
use crate::types::ObjectType;

verus! {

/// A page is picked by how many rows it may have and how many are skipped; a listing
/// without either is not cut.
pub proof fn pages_are_picked_by_size_and_offset(n: usize, offset: usize)
    ensures
        page_clause(Some(n), offset) == " LIMIT "@ + text::decimal_text(n as nat) + (" OFFSET "@
            + text::decimal_text(offset as nat)),
        offset > 0 ==> page_clause(None, offset) == " LIMIT -1 OFFSET "@ + text::decimal_text(offset as nat),
        page_clause(None, 0).len() == 0,
{
}

/// The head of a listing says what is listed, how much there is, and which part is
/// shown.
pub proof fn heads_say_what_is_shown(name: Seq<char>, total: Seq<char>, limit: Seq<char>, offset: Seq<char>)
    ensures
        head_text(name, total, None, None) == name + " ("@ + (total + ")\n\n"@),
        head_text(name, total, None, Some(offset)) == name + " ("@ + (total + ", skipping first "@ + offset
            + ")\n\n"@),
        head_text(name, total, Some(limit), None) == name + " ("@ + (total + " total, showing up to "@ + (limit
            + " from offset "@ + "0"@) + ")\n\n"@),
        head_text(name, total, Some(limit), Some(offset)) == name + " ("@ + (total + " total, showing up to "@ + (
        limit + " from offset "@ + offset) + ")\n\n"@),
{
}

/// Rows that were not shown are told of where the listing was limited: those shown and
/// skipped and those left make up the whole, and the next page begins where this ends.
pub proof fn rows_left_are_told(total: u64, limit: Option<usize>, offset: usize, written: u64)
    requires
        offset + written <= u64::MAX,
    ensures
        ({
            let r = rows_left(total, limit, offset, written);
            &&& r is Some <==> limit is Some && offset + written < total
            &&& r is Some ==> {
                let (left, next) = r->0;
                left + next == total && next == offset + written && left > 0
            }
        }),
{
}

/// The line below a limited listing says how many rows are left and how to see them.
pub proof fn the_next_page_is_told(left: Seq<char>, next: u64, limit: usize)
    ensures
        text::begins(more_text(left, next, limit), "... ("@ + left),
        more_text(left, next, limit) == "... ("@ + left + (" more; --offset "@ + text::decimal_text(next as nat) + (
        " --limit "@ + text::decimal_text(limit as nat) + " to continue)\n"@)),
{
    let p = "... ("@ + left;
    assert(more_text(left, next, limit).take(p.len() as int) =~= p);
}

/// The column of labels is as wide as the widest label.
pub proof fn the_widest_label_sets_the_width(fields: Seq<(Seq<char>, Seq<char>)>, n: nat, i: int)
    requires
        n <= fields.len(),
    ensures
        0 <= i < n ==> label_len(fields[i].0) <= widest(fields, n),
        n > 0 ==> exists|k: int| 0 <= k < n && label_len((#[trigger] fields[k]).0) == widest(fields, n),
        n == 0 ==> widest(fields, n) == 0,
    decreases n,
{
    if n > 0 {
        the_widest_label_sets_the_width(fields, (n - 1) as nat, i);
        let rest = widest(fields, (n - 1) as nat);
        if label_len(fields[n - 1].0) > rest || n == 1 {
            assert(label_len(fields[n - 1].0) == widest(fields, n));
        } else {
            let k = choose|k: int| 0 <= k < n - 1 && label_len((#[trigger] fields[k]).0) == rest;
            assert(label_len(fields[k].0) == widest(fields, n));
        }
    }
}

/// A field shows its label and its value side by side; every further line of the value
/// stands below, moved in.
pub proof fn fields_show_every_line(label: Seq<char>, a: Seq<char>, b: Seq<char>, width: nat)
    requires
        !a.contains('\n'),
        !b.contains('\n'),
    ensures
        field_text(label, a, width) == "  "@ + text::filled_right(label, width) + ("  "@ + a + "\n"@),
        field_text(label, a + seq!['\n'] + b, width) == "  "@ + text::filled_right(label, width) + ("  "@ + a + (
        "\n"@ + (text::spaces(width + 4) + b + "\n"@))),
{
    crate::laws::texts::texts_are_cut_at_every_occurrence(a, '\n', b);
    crate::laws::texts::texts_are_cut_at_every_occurrence(b, '\n', a);
    reveal_with_fuel(crate::inspect::list::further_lines, 3);
    let one = text::pieces(a, '\n');
    let two = text::pieces(a + seq!['\n'] + b, '\n');
    assert(two =~= seq![a, b]);
    assert("\n"@ + Seq::<char>::empty() =~= "\n"@);
    assert(crate::inspect::list::further_lines(one, width, 1) =~= Seq::empty());
    assert(crate::inspect::list::further_lines(two, width, 2) =~= Seq::empty());
    assert(crate::inspect::list::further_lines(two, width, 1) == text::spaces(width + 4) + b + ("\n"@
        + Seq::<char>::empty()));
}

proof fn lemma_field_shown(fields: Seq<(Seq<char>, Seq<char>)>, width: nat, n: nat, i: int)
    requires
        0 <= i < n <= fields.len(),
    ensures
        text::occurs(fields_text(fields, width, n), field_text(fields[i].0, fields[i].1, width)),
    decreases n,
{
    let f = field_text(fields[i].0, fields[i].1, width);
    let rest = fields_text(fields, width, (n - 1) as nat);
    let all = fields_text(fields, width, n);
    if i == n - 1 {
        assert(all.subrange(rest.len() as int, (rest.len() + f.len()) as int) =~= f);
        assert(text::occurs_at(all, f, rest.len() as int));
    } else {
        lemma_field_shown(fields, width, (n - 1) as nat, i);
        let k = choose|k: int| #[trigger] text::occurs_at(rest, f, k);
        assert(all.subrange(k, k + f.len()) =~= rest.subrange(k, k + f.len()));
        assert(text::occurs_at(all, f, k));
    }
}

/// A record begins with its title and shows every field.
pub proof fn records_show_every_field(title: Seq<char>, fields: Seq<(Seq<char>, Seq<char>)>, i: int)
    requires
        0 <= i < fields.len(),
    ensures
        text::begins(record_text(title, fields), title),
        text::occurs(
            record_text(title, fields),
            field_text(fields[i].0, fields[i].1, widest(fields, fields.len())),
        ),
{
    let w = widest(fields, fields.len());
    let f = field_text(fields[i].0, fields[i].1, w);
    let inner = fields_text(fields, w, fields.len());
    let all = record_text(title, fields);
    lemma_field_shown(fields, w, fields.len(), i);
    assert(all.take(title.len() as int) =~= title);
    let k = choose|k: int| #[trigger] text::occurs_at(inner, f, k);
    let at = title.len() + "\n"@.len() + k;
    assert(all.subrange(at, at + f.len()) =~= inner.subrange(k, k + f.len()));
    assert(text::occurs_at(all, f, at));
}

/// What is absent is marked, what is there is shown as it is.
pub proof fn absent_texts_are_marked(t: Seq<char>, id: i64, token: Seq<char>)
    ensures
        or_null(Some(t)) == t,
        or_null(None) == "(null)"@,
        yes_no(true) == "true"@,
        yes_no(false) == "false"@,
        title_text(token, id) == token + " #"@ + text::integer_text(id as int),
{
}

proof fn lemma_integers(v: Seq<JsonView>, ids: Seq<i64>, n: nat)
    requires
        n <= v.len(),
        v.len() == ids.len(),
        forall|i: int|
            0 <= i < v.len() ==> #[trigger] v[i] == JsonView::Number(NumberView::Integer(ids[i] as int)),
    ensures
        integers_in(v, n) == ids.take(n as int),
    decreases n,
{
    if n > 0 {
        lemma_integers(v, ids, (n - 1) as nat);
        assert(v[n - 1] == JsonView::Number(NumberView::Integer(ids[n - 1] as int)));
        assert(ids.take(n as int) =~= ids.take(n - 1).push(ids[n - 1]));
    }
}

/// The numbers of a list are read in their order; what is no list has none.
pub proof fn lists_of_numbers_are_read(v: Seq<JsonView>, ids: Seq<i64>, other: JsonView)
    requires
        v.len() == ids.len(),
        forall|i: int|
            0 <= i < v.len() ==> #[trigger] v[i] == JsonView::Number(NumberView::Integer(ids[i] as int)),
    ensures
        local_ids_in(Some(JsonView::Array(v))) == ids,
        local_ids_in(None).len() == 0,
        !(other is Array) ==> local_ids_in(Some(other)).len() == 0,
{
    lemma_integers(v, ids, v.len());
    assert(ids.take(v.len() as int) =~= ids);
}

/// Keywords are shown in their order, between brackets; that there are none is told.
pub proof fn keywords_are_shown(words: Seq<Seq<char>>, other: JsonView)
    ensures
        ({
            let v = JsonView::Array(Seq::new(words.len(), |i: int| JsonView::Str(words[i])));
            &&& text_list(Some(v)) == words
            &&& words.len() > 0 ==> keywords_text(Some(v)) == "["@ + text::join_text(words, ", "@) + "]"@
            &&& words.len() == 0 ==> keywords_text(Some(v)) == "(none)"@
            &&& keywords_text(None) == "(none)"@
            &&& !(other is Array) ==> keywords_text(Some(other)) == "(none)"@
        }),
{
    let v = JsonView::Array(Seq::new(words.len(), |i: int| JsonView::Str(words[i])));
    assert(text_list(Some(v)) =~= words);
}

/// JSON is shown in lines, with notes in place of blobs where there can be any; a text
/// that is not JSON is shown as it stands.
pub proof fn json_is_shown_in_lines(t: Seq<char>, v: JsonView)
    ensures
        pretty_or_raw(t, Some(v)) == json_pretty(v),
        pretty_or_raw(t, None) == t,
        redacted_text(t, Some(v)) == json_pretty(redacted(v)),
        redacted_text(t, None) == t,
{
}

/// A folder is shown by its name where the archive has it, else by its number, marked
/// as missing. Mailboxes, address books and calendars have names of their own.
pub proof fn folders_are_shown_by_name(names: Names, map: Map<i64, String>, id: i64)
    ensures
        map.contains_key(id) ==> folder_text(map, id) == text::debug_text(map[id]@),
        !map.contains_key(id) ==> folder_text(map, id) == "#"@ + text::integer_text(id as int) + " (missing)"@,
        folders_text(Some(map), seq![id]) == "["@ + folder_text(map, id) + "]"@,
        folders_text(None, seq![id]) == "["@ + text::integer_text(id as int) + "]"@,
        names.of(ObjectType::Mailbox) == Some(names.mailboxes@),
        names.of(ObjectType::AddressBook) == Some(names.address_books@),
        names.of(ObjectType::Calendar) == Some(names.calendars@),
{
    let one = Seq::new(1, |i: int| folder_text(map, seq![id][i]));
    assert(one[0] == folder_text(map, id));
}

/// A listing has its head, every record in order, and how to go on; one of nothing says
/// so.
pub proof fn listings_hold_every_record(
    head: Seq<char>,
    token: Seq<char>,
    total: u64,
    records: Seq<Seq<char>>,
    last: Seq<char>,
    more: Seq<char>,
)
    ensures
        total == 0 ==> list_text(head, token, total, records, more) == head + ("(no "@ + token
            + " in archive)\n"@) && failures_text(head, total, records, more) == head
            + "(no export failures in archive)\n"@,
        total > 0 && records.len() > 0 ==> list_text(head, token, total, records.push(last), more) == head + (
        text::join_text(records, ""@) + last) + more && failures_text(head, total, records.push(last), more) == head
            + (text::join_text(records, ""@) + last) + more,
        total > 0 ==> list_text(head, token, total, seq![last], more) == head + last + more && failures_text(
            head,
            total,
            seq![last],
            more,
        ) == head + last + more,
{
    reveal_strlit("");
    crate::laws::texts::parts_are_joined_in_order(records, last, ""@);
    assert(""@ =~= Seq::empty());
    assert(text::join_text(records, ""@) + ""@ + last =~= text::join_text(records, ""@) + last);
}

/// All that the archive holds of a calendar is shown under its name.
pub proof fn calendars_are_shown_in_full(c: CalendarColumns)
    ensures
        ({
            let f = calendar_fields(c);
            &&& f.contains(("name"@, c.name@))
            &&& f.contains(("description"@, or_null(text::opt_text(c.description))))
            &&& f.contains(("color"@, or_null(text::opt_text(c.color))))
            &&& f.contains(("sort_order"@, text::integer_text(c.sort_order as int)))
            &&& f.contains(("is_subscribed"@, yes_no(c.is_subscribed)))
            &&& f.contains(("is_visible"@, yes_no(c.is_visible)))
            &&& f.contains(("is_default"@, yes_no(c.is_default)))
            &&& f.contains(("include_in_availability"@, c.include_in_availability@))
            &&& f.contains(("default_alerts_with_time"@, or_null(text::opt_text(c.default_alerts_with_time))))
            &&& f.contains(("default_alerts_without_time"@, or_null(text::opt_text(c.default_alerts_without_time))))
            &&& f.contains(("time_zone"@, or_null(text::opt_text(c.time_zone))))
            &&& f.len() == 11
        }),
{
    let f = calendar_fields(c);
    assert(f[0] == ("name"@, c.name@));
    assert(f[1] == ("description"@, or_null(text::opt_text(c.description))));
    assert(f[2] == ("color"@, or_null(text::opt_text(c.color))));
    assert(f[3] == ("sort_order"@, text::integer_text(c.sort_order as int)));
    assert(f[4] == ("is_subscribed"@, yes_no(c.is_subscribed)));
    assert(f[5] == ("is_visible"@, yes_no(c.is_visible)));
    assert(f[6] == ("is_default"@, yes_no(c.is_default)));
    assert(f[7] == ("include_in_availability"@, c.include_in_availability@));
    assert(f[8] == ("default_alerts_with_time"@, or_null(text::opt_text(c.default_alerts_with_time))));
    assert(f[9] == ("default_alerts_without_time"@, or_null(text::opt_text(c.default_alerts_without_time))));
    assert(f[10] == ("time_zone"@, or_null(text::opt_text(c.time_zone))));
}

/// Messages, contacts, events, scripts and identities are items, and are told by their
/// names; containers and unknown kinds are left out.
pub proof fn items_are_told_from_containers(t: ObjectType, token: Seq<char>)
    ensures
        is_item(t) <==> t == ObjectType::Email || t == ObjectType::ContactCard || t == ObjectType::CalendarEvent || t
            == ObjectType::SieveScript || t == ObjectType::Identity,
        is_item(t) ==> label_of(t.archive()) is Ok && label_of(t.archive())->Ok_0 == t.jmap(),
        !is_item(t) ==> label_of(t.archive()) is Err,
        ObjectType::named(token) is None ==> label_of(token) is Err,
{
    crate::types::archive_names_tell_kinds_apart(t);
}

proof fn lemma_member_names()
    ensures
        "type"@.len() == 4,
        "id"@.len() == 2,
        "message_id"@.len() == 10,
        "size"@.len() == 4,
        "content_hash"@.len() == 12,
        "blob_id"@.len() == 7,
        "error"@.len() == 5,
        "detail"@.len() == 6,
        "blob_probe"@.len() == 10,
        "failed_at"@.len() == 9,
        "type"@[0] != "size"@[0],
        "message_id"@[0] != "blob_probe"@[0],
{
    reveal_strlit("type");
    reveal_strlit("id");
    reveal_strlit("message_id");
    reveal_strlit("size");
    reveal_strlit("content_hash");
    reveal_strlit("blob_id");
    reveal_strlit("error");
    reveal_strlit("detail");
    reveal_strlit("blob_probe");
    reveal_strlit("failed_at");
}

/// A row for programs holds all that the row says, each under its name; what the row
/// does not say is left out.
pub proof fn rows_for_programs_are_complete(label: Seq<char>, row: FailedView)
    ensures
        ({
            let v = JsonView::Object(row_members(label, row));
            let there = |o: Option<Seq<char>>| o is Some && o->0.len() > 0;
            &&& v.text_at("type"@) == Some(label)
            &&& v.text_at("id"@) == Some(row.client_id)
            &&& there(row.message_id) ==> v.text_at("message_id"@) == row.message_id
            &&& !there(row.message_id) ==> v.field("message_id"@) is None
            &&& row.size_bytes is Some ==> v.field("size"@) == Some(
                JsonView::Number(NumberView::Integer(row.size_bytes->0 as int)),
            )
            &&& row.size_bytes is None ==> v.field("size"@) is None
            &&& there(row.blob_hash) ==> v.text_at("content_hash"@) == row.blob_hash
            &&& !there(row.blob_hash) ==> v.field("content_hash"@) is None
            &&& there(row.target_blob_id) ==> v.text_at("blob_id"@) == row.target_blob_id
            &&& !there(row.target_blob_id) ==> v.field("blob_id"@) is None
            &&& v.text_at("error"@) == Some(row.error_type)
            &&& row.error_detail.len() > 0 ==> v.text_at("detail"@) == Some(row.error_detail)
            &&& v.text_at("blob_probe"@) == Some(row.blob_probe)
            &&& v.text_at("failed_at"@) == Some(row.failed_at)
        }),
{
    lemma_member_names();
}

/// A row is refused exactly where it has no name or no error to go by.
pub proof fn rows_without_a_name_are_refused(label: Seq<char>, row: FailedView)
    ensures
        row_json(label, row) is Ok <==> row.client_id.len() > 0 && row.error_type.len() > 0,
        row_json(label, row) is Ok ==> row_json(label, row)->Ok_0 == JsonView::Object(row_members(label, row)),
{
}

proof fn lemma_place_of(v: Seq<OmittedView>, token: Seq<char>, n: nat, i: int)
    requires
        n <= i < v.len(),
        v[i].type_token == token,
        forall|k: int| n <= k < i ==> (#[trigger] v[k]).type_token != token,
    ensures
        omitted_place(v, token, n) == Some(i),
    decreases i - n,
{
    if n < i {
        assert(v[n as int].type_token != token);
        lemma_place_of(v, token, n + 1, i);
    }
}

proof fn lemma_no_place(v: Seq<OmittedView>, token: Seq<char>, n: nat)
    requires
        n <= v.len(),
        forall|k: int| n <= k < v.len() ==> (#[trigger] v[k]).type_token != token,
    ensures
        omitted_place(v, token, n) is None,
    decreases v.len() - n,
{
    if n < v.len() {
        assert(v[n as int].type_token != token);
        lemma_no_place(v, token, n + 1);
    }
}

/// An object that is left out is counted with its kind, and with no other; a kind that
/// was not left out before is added, with the reason.
pub proof fn omissions_are_counted_by_kind(v: Seq<OmittedView>, token: Seq<char>, reason: Seq<char>, i: int, k: int)
    ensures
        0 <= i < v.len() && v[i].type_token == token && (forall|a: int|
            0 <= a < i ==> (#[trigger] v[a]).type_token != token) ==> noted(v, token, reason).len() == v.len()
            && noted(v, token, reason)[i] == (OmittedView { count: v[i].count + 1, ..v[i] }) && (0 <= k < v.len() && k
            != i ==> noted(v, token, reason)[k] == v[k]),
        (forall|a: int| 0 <= a < v.len() ==> (#[trigger] v[a]).type_token != token) ==> noted(v, token, reason)
            == v.push(OmittedView { type_token: token, reason, count: 1 }),
{
    if 0 <= i < v.len() && v[i].type_token == token && (forall|a: int|
        0 <= a < i ==> (#[trigger] v[a]).type_token != token) {
        lemma_place_of(v, token, 0, i);
    }
    if forall|a: int| 0 <= a < v.len() ==> (#[trigger] v[a]).type_token != token {
        lemma_no_place(v, token, 0);
    }
}

/// Every row of an item is among the items for programs, as [`row_members`] has it.
pub proof fn every_item_is_dumped(rows: Seq<FailedView>, n: nat, i: int, t: ObjectType)
    requires
        0 <= i < n <= rows.len(),
        rows[i].type_token == t.archive(),
        is_item(t),
        dumped(rows, n) is Ok,
    ensures
        dumped(rows, n)->Ok_0.0.contains(JsonView::Object(row_members(t.jmap(), rows[i]))),
    decreases n,
{
    let v = JsonView::Object(row_members(t.jmap(), rows[i]));
    let all = dumped(rows, n)->Ok_0.0;
    let rest = dumped(rows, (n - 1) as nat)->Ok_0.0;
    items_are_told_from_containers(t, rows[i].type_token);
    if i == n - 1 {
        assert(all[all.len() - 1] == v);
    } else {
        every_item_is_dumped(rows, (n - 1) as nat, i, t);
        let k = choose|k: int| 0 <= k < rest.len() && rest[k] == v;
        assert(all[k] == v);
    }
}

/// The whole for programs holds the items and what was left out, with its kind, the
/// reason and how often.
pub proof fn dumps_hold_items_and_omissions(items: Seq<JsonView>, omitted: Seq<OmittedView>, i: int)
    ensures
        ({
            let v = envelope(items, omitted);
            let o = omitted_json(omitted[i]);
            &&& v.array_at("failed_items"@) == Some(items)
            &&& v.array_at("omitted"@) is Some && v.array_at("omitted"@)->0.len() == omitted.len()
            &&& 0 <= i < omitted.len() ==> v.array_at("omitted"@)->0[i] == o
            &&& o.text_at("type"@) == Some(omitted[i].type_token)
            &&& o.text_at("reason"@) == Some(omitted[i].reason)
            &&& o.field("count"@) == Some(JsonView::Number(NumberView::Integer(omitted[i].count as int)))
        }),
{
    reveal_strlit("failed_items");
    reveal_strlit("omitted");
    reveal_strlit("type");
    reveal_strlit("reason");
    reveal_strlit("count");
    assert("failed_items"@.len() == 12);
    assert("omitted"@.len() == 7);
    assert("type"@.len() == 4);
    assert("reason"@.len() == 6);
    assert("count"@.len() == 5);
}

/// A row for people shows all that the row says, each under its name.
pub proof fn rows_for_people_are_complete(row: FailedView, size: Option<Seq<char>>)
    ensures
        ({
            let f = failure_fields(row, size);
            &&& f.contains(("client_id"@, row.client_id))
            &&& f.contains(("message_id"@, or_null(row.message_id)))
            &&& f.contains(("size"@, or_null(size)))
            &&& f.contains(("blob"@, blob_text(row.blob_local_id, row.blob_hash)))
            &&& f.contains(("target_blob_id"@, or_null(row.target_blob_id)))
            &&& f.contains(("error_type"@, row.error_type))
            &&& f.contains(("blob_probe"@, row.blob_probe))
            &&& f.contains(("error_detail"@, row.error_detail))
            &&& f.contains(("failed_at"@, row.failed_at))
        }),
{
    let f = failure_fields(row, size);
    assert(f[0] == ("client_id"@, row.client_id));
    assert(f[1] == ("message_id"@, or_null(row.message_id)));
    assert(f[2] == ("size"@, or_null(size)));
    assert(f[3] == ("blob"@, blob_text(row.blob_local_id, row.blob_hash)));
    assert(f[4] == ("target_blob_id"@, or_null(row.target_blob_id)));
    assert(f[5] == ("error_type"@, row.error_type));
    assert(f[6] == ("blob_probe"@, row.blob_probe));
    assert(f[7] == ("error_detail"@, row.error_detail));
    assert(f[8] == ("failed_at"@, row.failed_at));
}

/// A blob is shown by its number and its hash, as far as they are known; an absent hash
/// is told apart from an absent blob.
pub proof fn blobs_are_shown_as_known(n: i64, h: Seq<char>)
    ensures
        blob_text(Some(n), Some(h)) == "local #"@ + text::integer_text(n as int) + (" blake3="@ + h),
        blob_text(Some(n), None) == "local #"@ + text::integer_text(n as int) + " (no content hash recorded)"@,
        blob_text(None, Some(h)) == "blake3="@ + h,
        blob_text(None, None) == "(null)"@,
{
}

/// Several folders are shown one after the other, and every line of a value has a line
/// of its own.
pub proof fn folders_and_lines_are_shown_in_order(
    map: Map<i64, String>,
    a: i64,
    b: i64,
    lines: Seq<Seq<char>>,
    width: nat,
    n: nat,
)
    requires
        n < lines.len(),
    ensures
        folders_text(Some(map), seq![a, b]) == "["@ + (folder_text(map, a) + ", "@ + folder_text(map, b)) + "]"@,
        further_lines(lines, width, n) == text::spaces(width + 4) + lines[n as int] + ("\n"@ + further_lines(
            lines,
            width,
            n + 1,
        )),
        further_lines(lines, width, lines.len()).len() == 0,
{
    reveal_with_fuel(text::join_text, 3);
}

/// Whether a record shows a value under a label.
pub open spec fn shows(record: Seq<char>, label: Seq<char>, value: Seq<char>) -> bool {
    exists|w: nat| text::occurs(record, #[trigger] field_text(label, value, w))
}

proof fn lemma_shown(r: Seq<char>, title: Seq<char>, fields: Seq<(Seq<char>, Seq<char>)>, i: int)
    requires
        r == record_text(title, fields),
        0 <= i < fields.len(),
    ensures
        shows(r, fields[i].0, fields[i].1),
        text::begins(r, title),
{
    records_show_every_field(title, fields, i);
    let w = widest(fields, fields.len());
    assert(text::occurs(r, field_text(fields[i].0, fields[i].1, w)));
}

/// An identity is shown with its name, its addresses and its signatures.
pub proof fn identities_are_shown_in_full(
    id: i64,
    name: String,
    email: String,
    reply_to: Option<String>,
    bcc: Option<String>,
    plain: String,
    html: String,
    r: String,
)
    requires
        call_ensures(write_identities, (id, name, email, reply_to, bcc, plain, html), r),
    ensures
        text::begins(r@, "identity"@ + " #"@ + text::integer_text(id as int)),
        shows(r@, "name"@, name@),
        shows(r@, "email"@, email@),
        shows(r@, "reply_to"@, or_null(text::opt_text(reply_to))),
        shows(r@, "bcc"@, or_null(text::opt_text(bcc))),
        shows(r@, "text_signature"@, plain@),
        shows(r@, "html_signature"@, html@),
{
    let fields = seq![
        ("name"@, name@),
        ("email"@, email@),
        ("reply_to"@, or_null(text::opt_text(reply_to))),
        ("bcc"@, or_null(text::opt_text(bcc))),
        ("text_signature"@, plain@),
        ("html_signature"@, html@),
    ];
    lemma_shown(r@, title_text("identity"@, id), fields, 0);
    lemma_shown(r@, title_text("identity"@, id), fields, 1);
    lemma_shown(r@, title_text("identity"@, id), fields, 2);
    lemma_shown(r@, title_text("identity"@, id), fields, 3);
    lemma_shown(r@, title_text("identity"@, id), fields, 4);
    lemma_shown(r@, title_text("identity"@, id), fields, 5);
}

/// A message is shown with its bytes, when it came, where it is and how it is marked.
pub proof fn messages_are_shown_in_full(
    id: i64,
    blob: String,
    received_at: String,
    mailboxes: String,
    keywords: &str,
    message_match: &str,
    r: String,
)
    requires
        call_ensures(write_emails, (id, blob, received_at, mailboxes, keywords, message_match), r),
    ensures
        text::begins(r@, "email"@ + " #"@ + text::integer_text(id as int)),
        shows(r@, "blob"@, blob@),
        shows(r@, "received_at"@, received_at@),
        shows(r@, "mailboxes"@, mailboxes@),
        shows(r@, "keywords"@, keywords_text(json_parse(vstd::utf8::encode_utf8(keywords@)))),
        shows(r@, "message_match"@, pretty_or_raw(message_match@, json_parse(vstd::utf8::encode_utf8(message_match@)))),
{
    let fields = seq![
        ("blob"@, blob@),
        ("received_at"@, received_at@),
        ("mailboxes"@, mailboxes@),
        ("keywords"@, keywords_text(json_parse(vstd::utf8::encode_utf8(keywords@)))),
        ("message_match"@, pretty_or_raw(message_match@, json_parse(vstd::utf8::encode_utf8(message_match@)))),
    ];
    lemma_shown(r@, title_text("email"@, id), fields, 0);
    lemma_shown(r@, title_text("email"@, id), fields, 1);
    lemma_shown(r@, title_text("email"@, id), fields, 2);
    lemma_shown(r@, title_text("email"@, id), fields, 3);
    lemma_shown(r@, title_text("email"@, id), fields, 4);
}

/// A script is shown with its name, whether it is active, and its text.
pub proof fn scripts_are_shown_in_full(
    id: i64,
    name: Option<String>,
    is_active: bool,
    blob: String,
    r: String,
)
    requires
        call_ensures(write_sieves, (id, name, is_active, blob), r),
    ensures
        text::begins(r@, "sievescript"@ + " #"@ + text::integer_text(id as int)),
        shows(r@, "name"@, or_null(text::opt_text(name))),
        shows(r@, "is_active"@, yes_no(is_active)),
        shows(r@, "blob"@, blob@),
{
    let fields = seq![
        ("name"@, or_null(text::opt_text(name))),
        ("is_active"@, yes_no(is_active)),
        ("blob"@, blob@),
    ];
    lemma_shown(r@, title_text("sievescript"@, id), fields, 0);
    lemma_shown(r@, title_text("sievescript"@, id), fields, 1);
    lemma_shown(r@, title_text("sievescript"@, id), fields, 2);
}

/// An address book is shown with its name, its place and what marks it.
pub proof fn address_books_are_shown_in_full(
    id: i64,
    name: String,
    description: Option<String>,
    sort_order: i64,
    is_default: bool,
    is_subscribed: bool,
    r: String,
)
    requires
        call_ensures(write_address_books, (id, name, description, sort_order, is_default, is_subscribed), r),
    ensures
        text::begins(r@, "addressbook"@ + " #"@ + text::integer_text(id as int)),
        shows(r@, "name"@, name@),
        shows(r@, "description"@, or_null(text::opt_text(description))),
        shows(r@, "sort_order"@, text::integer_text(sort_order as int)),
        shows(r@, "is_default"@, yes_no(is_default)),
        shows(r@, "is_subscribed"@, yes_no(is_subscribed)),
{
    let fields = seq![
        ("name"@, name@),
        ("description"@, or_null(text::opt_text(description))),
        ("sort_order"@, text::integer_text(sort_order as int)),
        ("is_default"@, yes_no(is_default)),
        ("is_subscribed"@, yes_no(is_subscribed)),
    ];
    lemma_shown(r@, title_text("addressbook"@, id), fields, 0);
    lemma_shown(r@, title_text("addressbook"@, id), fields, 1);
    lemma_shown(r@, title_text("addressbook"@, id), fields, 2);
    lemma_shown(r@, title_text("addressbook"@, id), fields, 3);
    lemma_shown(r@, title_text("addressbook"@, id), fields, 4);
}

/// A contact is shown with its uid, its address books and its data.
pub proof fn contacts_are_shown_in_full(
    id: i64,
    uid: String,
    address_books: String,
    data: &str,
    r: String,
)
    requires
        call_ensures(write_contact_cards, (id, uid, address_books, data), r),
    ensures
        text::begins(r@, "contactcard"@ + " #"@ + text::integer_text(id as int)),
        shows(r@, "uid"@, uid@),
        shows(r@, "address_books"@, address_books@),
        shows(r@, "data"@, redacted_text(data@, json_parse(vstd::utf8::encode_utf8(data@)))),
{
    let fields = seq![
        ("uid"@, uid@),
        ("address_books"@, address_books@),
        ("data"@, redacted_text(data@, json_parse(vstd::utf8::encode_utf8(data@)))),
    ];
    lemma_shown(r@, title_text("contactcard"@, id), fields, 0);
    lemma_shown(r@, title_text("contactcard"@, id), fields, 1);
    lemma_shown(r@, title_text("contactcard"@, id), fields, 2);
}

/// The identity of a participant is shown with its name, its address and whether it is
/// the default.
pub proof fn participants_are_shown_in_full(
    id: i64,
    name: String,
    calendar_address: String,
    is_default: bool,
    r: String,
)
    requires
        call_ensures(write_participant_identities, (id, name, calendar_address, is_default), r),
    ensures
        text::begins(r@, "participantidentity"@ + " #"@ + text::integer_text(id as int)),
        shows(r@, "name"@, name@),
        shows(r@, "calendar_address"@, calendar_address@),
        shows(r@, "is_default"@, yes_no(is_default)),
{
    let fields = seq![
        ("name"@, name@),
        ("calendar_address"@, calendar_address@),
        ("is_default"@, yes_no(is_default)),
    ];
    lemma_shown(r@, title_text("participantidentity"@, id), fields, 0);
    lemma_shown(r@, title_text("participantidentity"@, id), fields, 1);
    lemma_shown(r@, title_text("participantidentity"@, id), fields, 2);
}

/// An event is shown with its calendars, what marks it and its data.
pub proof fn events_are_shown_in_full(
    id: i64,
    calendars: String,
    is_draft: bool,
    use_default_alerts: bool,
    data: &str,
    r: String,
)
    requires
        call_ensures(write_calendar_events, (id, calendars, is_draft, use_default_alerts, data), r),
    ensures
        text::begins(r@, "calendarevent"@ + " #"@ + text::integer_text(id as int)),
        shows(r@, "calendars"@, calendars@),
        shows(r@, "is_draft"@, yes_no(is_draft)),
        shows(r@, "use_default_alerts"@, yes_no(use_default_alerts)),
        shows(r@, "data"@, redacted_text(data@, json_parse(vstd::utf8::encode_utf8(data@)))),
{
    let fields = seq![
        ("calendars"@, calendars@),
        ("is_draft"@, yes_no(is_draft)),
        ("use_default_alerts"@, yes_no(use_default_alerts)),
        ("data"@, redacted_text(data@, json_parse(vstd::utf8::encode_utf8(data@)))),
    ];
    lemma_shown(r@, title_text("calendarevent"@, id), fields, 0);
    lemma_shown(r@, title_text("calendarevent"@, id), fields, 1);
    lemma_shown(r@, title_text("calendarevent"@, id), fields, 2);
    lemma_shown(r@, title_text("calendarevent"@, id), fields, 3);
}

/// A row that is refused is told by its kind and its number, and by what it lacks.
pub proof fn refused_rows_are_told(label: Seq<char>, row: FailedView)
    ensures
        ({
            let name = "quarantine row "@ + row.type_token + (" #"@ + text::integer_text(row.local_id as int));
            &&& row.client_id.len() == 0 ==> row_json(label, row) == Err::<JsonView, ErrorView>(
                ErrorView::Partial(name + " carries no creation id; the structured dump cannot name it"@),
            )
            &&& row.client_id.len() > 0 && row.error_type.len() == 0 ==> row_json(label, row) == Err::<
                JsonView,
                ErrorView,
            >(ErrorView::Partial(name + " carries no error type; the structured dump cannot classify it"@))
        }),
{
}

proof fn lemma_named_rows_are_dumped(rows: Seq<FailedView>, n: nat)
    requires
        n <= rows.len(),
        forall|i: int| 0 <= i < n ==> (#[trigger] rows[i]).client_id.len() > 0 && rows[i].error_type.len() > 0,
    ensures
        dumped(rows, n) is Ok,
    decreases n,
{
    if n > 0 {
        lemma_named_rows_are_dumped(rows, (n - 1) as nat);
        assert(rows[n - 1].client_id.len() > 0);
    }
}

/// Rows that can all be named and classified are all written: each item is among the
/// items, and the rows that are not written are counted.
pub proof fn named_rows_are_all_written(rows: &Vec<FailedItem>, r: Result<Json, Error>, i: int, t: ObjectType)
    requires
        call_ensures(failures_json, (rows,), r),
        0 <= i < rows@.len(),
    ensures
        (forall|k: int|
            0 <= k < rows@.len() ==> (#[trigger] rows@[k])@.client_id.len() > 0 && rows@[k]@.error_type.len() > 0)
            ==> r is Ok,
        r is Ok && is_item(t) && rows@[i]@.type_token == t.archive() ==> r->Ok_0@.array_at("failed_items"@) is Some
            && r->Ok_0@.array_at("failed_items"@)->0.contains(JsonView::Object(row_members(t.jmap(), rows@[i]@))),
{
    let v = failed_views(rows@);
    assert(v[i] == rows@[i]@);
    if forall|k: int|
        0 <= k < rows@.len() ==> (#[trigger] rows@[k])@.client_id.len() > 0 && rows@[k]@.error_type.len() > 0 {
        assert forall|k: int| 0 <= k < v.len() implies (#[trigger] v[k]).client_id.len() > 0
            && v[k].error_type.len() > 0 by {
            assert(v[k] == rows@[k]@);
        }
        lemma_named_rows_are_dumped(v, v.len());
    }
    if r is Ok && is_item(t) && rows@[i]@.type_token == t.archive() {
        every_item_is_dumped(v, v.len(), i, t);
        let (items, omitted) = dumped(v, v.len())->Ok_0;
        dumps_hold_items_and_omissions(items, omitted, 0);
    }
}

} // verus!
