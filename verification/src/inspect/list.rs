//! Listings of the objects of one kind.

use std::collections::HashMap;
use vstd::prelude::*;
use vstd::string::*;

use crate::db::export_failures::{page, page_clause};
use crate::json::{json_parse, json_pretty, redacted, views, signed_of, Json, JsonView};
use crate::text;
use crate::types::ObjectType;

verus! {

broadcast use vstd::std_specs::hash::group_hash_axioms;

/// The head of a listing, and the empty line below it. The numbers come as they
/// are shown.
pub open spec fn head_text(
    name: Seq<char>,
    total: Seq<char>,
    limit: Option<Seq<char>>,
    offset: Option<Seq<char>>,
) -> Seq<char> {
    name + " ("@ + ((match limit {
        None => match offset {
            None => total,
            Some(o) => total + ", skipping first "@ + o,
        },
        Some(l) => total + " total, showing up to "@ + (l + " from offset "@ + (match offset {
            None => "0"@,
            Some(o) => o,
        })),
    }) + ")\n\n"@)
}

/// See [`head_text`]. `offset` is absent where nothing is skipped.
pub fn write_header(name: &str, total: &str, limit: Option<&str>, offset: Option<&str>) -> (r: String)
    ensures
        r@ == head_text(name@, total@, text::opt_str(limit), text::opt_str(offset)),
{
    let inner = match limit {
        None => match offset {
            None => total.to_owned(),
            Some(o) => text::joined3(total, ", skipping first ", o),
        },
        Some(l) => {
            let from = match offset {
                None => "0",
                Some(o) => o,
            };
            let tail = text::joined3(l, " from offset ", from);
            text::joined3(total, " total, showing up to ", tail.as_str())
        },
    };
    let tail = text::joined(inner.as_str(), ")\n\n");
    text::joined3(name, " (", tail.as_str())
}

/// How many rows are left behind those shown, where the listing was limited and
/// there are any, and where to go on.
pub open spec fn rows_left(total: u64, limit: Option<usize>, offset: usize, written: u64) -> Option<(u64, u64)> {
    if limit is Some && offset + written < total {
        Some(((total - (offset + written)) as u64, (offset + written) as u64))
    } else {
        None
    }
}

/// See [`rows_left`].
pub fn remaining(total: u64, limit: Option<usize>, offset: usize, written: u64) -> (r: Option<(u64, u64)>)
    requires
        offset + written <= u64::MAX,
    ensures
        r == rows_left(total, limit, offset, written),
{
    let next: u64 = offset as u64 + written;
    if limit.is_some() && next < total {
        Some((total - next, next))
    } else {
        None
    }
}

/// The line that says how to go on.
pub open spec fn more_text(left: Seq<char>, next: u64, limit: usize) -> Seq<char> {
    "... ("@ + left + (" more; --offset "@ + text::decimal_text(next as nat) + (" --limit "@
        + text::decimal_text(limit as nat) + " to continue)\n"@))
}

/// See [`more_text`].
pub fn continuation(left: &str, next: u64, limit: usize) -> (r: String)
    ensures
        r@ == more_text(left@, next, limit),
{
    let n = text::decimal(next as u128);
    let l = text::decimal(limit as u128);
    let end = text::joined3(" --limit ", l.as_str(), " to continue)\n");
    let tail = text::joined3(" more; --offset ", n.as_str(), end.as_str());
    text::joined3("... (", left, tail.as_str())
}

/// Labels and values.
pub open spec fn field_views(v: Seq<(&str, String)>) -> Seq<(Seq<char>, Seq<char>)> {
    Seq::new(v.len(), |i: int| (v[i].0@, v[i].1@))
}

/// The length of a label, in bytes.
pub open spec fn label_len(label: Seq<char>) -> nat {
    vstd::utf8::encode_utf8(label).len()
}

/// The greatest length of the first `n` labels.
pub open spec fn widest(fields: Seq<(Seq<char>, Seq<char>)>, n: nat) -> nat
    decreases n,
{
    if n == 0 {
        0
    } else {
        let rest = widest(fields, (n - 1) as nat);
        let here = label_len(fields[n - 1].0);
        if here > rest {
            here
        } else {
            rest
        }
    }
}

/// The lines of a value from the `n`th on, below its label.
pub open spec fn further_lines(lines: Seq<Seq<char>>, width: nat, n: nat) -> Seq<char>
    decreases lines.len() - n,
{
    if n >= lines.len() {
        Seq::empty()
    } else {
        text::spaces(width + 4) + lines[n as int] + ("\n"@ + further_lines(lines, width, n + 1))
    }
}

/// A field: its label and the first line of its value side by side, the other
/// lines below.
pub open spec fn field_text(label: Seq<char>, value: Seq<char>, width: nat) -> Seq<char> {
    let lines = text::pieces(value, '\n');
    "  "@ + text::filled_right(label, width) + ("  "@ + lines[0] + ("\n"@ + further_lines(lines, width, 1)))
}

/// The first `n` fields.
pub open spec fn fields_text(fields: Seq<(Seq<char>, Seq<char>)>, width: nat, n: nat) -> Seq<char>
    decreases n,
{
    if n == 0 {
        Seq::empty()
    } else {
        fields_text(fields, width, (n - 1) as nat) + field_text(fields[n - 1].0, fields[n - 1].1, width)
    }
}

/// A record: its title, its fields, and an empty line.
pub open spec fn record_text(title: Seq<char>, fields: Seq<(Seq<char>, Seq<char>)>) -> Seq<char> {
    title + "\n"@ + (fields_text(fields, widest(fields, fields.len()), fields.len()) + "\n"@)
}

fn write_lines(lines: &Vec<String>, width: usize) -> (r: String)
    requires
        lines@.len() >= 1,
    ensures
        r@ == further_lines(text::texts(lines@), width as nat, 1),
{
    let ghost all = text::texts(lines@);
    let pad = text::joined(text::fill_left("", width).as_str(), "    ");
    proof {
        reveal_strlit("");
        reveal_strlit("    ");
        assert(pad@ =~= text::spaces((width + 4) as nat));
    }
    let mut out = String::new();
    let mut n: usize = lines.len();
    assert(out@ =~= further_lines(all, width as nat, all.len()));
    while n > 1
        invariant
            1 <= n <= lines.len(),
            all == text::texts(lines@),
            pad@ == text::spaces((width + 4) as nat),
            out@ == further_lines(all, width as nat, n as nat),
        decreases n,
    {
        assert(all[n - 1] == lines@[n - 1]@);
        let tail = text::joined("\n", out.as_str());
        out = text::joined3(pad.as_str(), lines[n - 1].as_str(), tail.as_str());
        n -= 1;
    }
    out
}

proof fn lemma_pieces(s: Seq<char>, c: char)
    ensures
        text::pieces(s, c).len() >= 1,
    decreases s.len(),
{
}

fn write_field(label: &str, value: &str, width: usize) -> (r: String)
    ensures
        r@ == field_text(label@, value@, width as nat),
{
    let lines = text::split(value, '\n');
    proof {
        lemma_pieces(value@, '\n');
        assert(text::texts(lines@).len() == lines@.len());
        assert(text::texts(lines@)[0] == lines@[0]@);
    }
    let more = write_lines(&lines, width);
    let end = text::joined("\n", more.as_str());
    let tail = text::joined3("  ", lines[0].as_str(), end.as_str());
    text::joined3("  ", text::fill_right(label, width).as_str(), tail.as_str())
}

/// See [`record_text`].
pub fn write_record(title: &str, fields: &Vec<(&str, String)>) -> (r: String)
    ensures
        r@ == record_text(title@, field_views(fields@)),
{
    let ghost all = field_views(fields@);
    let mut width: usize = 0;
    let mut i: usize = 0;
    while i < fields.len()
        invariant
            i <= fields.len(),
            all == field_views(fields@),
            width == widest(all, i as nat),
        decreases fields.len() - i,
    {
        assert(all[i as int] == (fields@[i as int].0@, fields@[i as int].1@));
        let n: usize = fields[i].0.as_bytes().len();
        if n > width {
            width = n;
        }
        i += 1;
    }
    let mut body = String::new();
    let mut j: usize = 0;
    while j < fields.len()
        invariant
            j <= fields.len(),
            all == field_views(fields@),
            body@ == fields_text(all, width as nat, j as nat),
        decreases fields.len() - j,
    {
        assert(all[j as int] == (fields@[j as int].0@, fields@[j as int].1@));
        let f = write_field(fields[j].0, fields[j].1.as_str(), width);
        body = text::joined(body.as_str(), f.as_str());
        j += 1;
    }
    let tail = text::joined(body.as_str(), "\n");
    text::joined3(title, "\n", tail.as_str())
}

/// The part of a query that picks a page.
pub fn limit_clause(limit: Option<usize>, offset: usize) -> (r: String)
    ensures
        r@ == page_clause(limit, offset),
{
    page(limit, offset)
}

/// A text, or a mark for its absence.
pub open spec fn or_null(s: Option<Seq<char>>) -> Seq<char> {
    match s {
        Some(t) => t,
        None => "(null)"@,
    }
}

/// See [`or_null`].
pub fn opt_or_null(s: Option<String>) -> (r: String)
    ensures
        r@ == or_null(text::opt_text(s)),
{
    match s {
        Some(t) => t,
        None => "(null)".to_owned(),
    }
}

/// A boolean in words.
pub open spec fn yes_no(b: bool) -> Seq<char> {
    if b {
        "true"@
    } else {
        "false"@
    }
}

/// See [`yes_no`].
pub fn bool_str(b: bool) -> (r: String)
    ensures
        r@ == yes_no(b),
{
    if b {
        "true".to_owned()
    } else {
        "false".to_owned()
    }
}

/// The integers among the first `n` entries.
pub open spec fn integers_in(v: Seq<JsonView>, n: nat) -> Seq<i64>
    decreases n,
{
    if n == 0 {
        Seq::empty()
    } else {
        let rest = integers_in(v, (n - 1) as nat);
        match v[n - 1] {
            JsonView::Number(x) => match signed_of(x) {
                Some(i) => rest.push(i),
                None => rest,
            },
            _ => rest,
        }
    }
}

/// The numbers in a list; none, where the value is no list.
pub open spec fn local_ids_in(v: Option<JsonView>) -> Seq<i64> {
    match v {
        Some(JsonView::Array(a)) => integers_in(a, a.len()),
        _ => Seq::empty(),
    }
}

/// The numbers in a value; see [`local_ids_in`].
pub fn local_ids_of(v: Option<&Json>) -> (r: Vec<i64>)
    ensures
        r@ == local_ids_in(
            match v {
                Some(j) => Some(j@),
                None => None,
            },
        ),
{
    let mut out: Vec<i64> = Vec::new();
    match v {
        Some(Json::Array(a)) => {
            let ghost all = views(a@);
            assert((*v->0)@->Array_0 =~= all);
            let mut i: usize = 0;
            while i < a.len()
                invariant
                    i <= a.len(),
                    all == views(a@),
                    out@ == integers_in(all, i as nat),
                decreases a.len() - i,
            {
                assert(all[i as int] == a@[i as int]@);
                match a[i].as_i64() {
                    Some(n) => {
                        out.push(n);
                    },
                    None => {},
                }
                i += 1;
            }
        },
        _ => {},
    }
    out
}

/// The numbers in a list that is written as JSON.
pub fn parse_local_ids(t: &str) -> (r: Vec<i64>)
    ensures
        r@ == local_ids_in(json_parse(vstd::utf8::encode_utf8(t@))),
{
    match Json::parse(t.as_bytes()) {
        Some(j) => local_ids_of(Some(&j)),
        None => local_ids_of(None),
    }
}

/// JSON in lines, or a text that is not JSON as it stands.
pub open spec fn pretty_or_raw(t: Seq<char>, v: Option<JsonView>) -> Seq<char> {
    match v {
        Some(j) => json_pretty(j),
        None => t,
    }
}

/// See [`pretty_or_raw`].
pub fn json_pretty_or_raw(t: &str) -> (r: String)
    ensures
        r@ == pretty_or_raw(t@, json_parse(vstd::utf8::encode_utf8(t@))),
{
    match Json::parse(t.as_bytes()) {
        Some(j) => j.pretty(),
        None => t.to_owned(),
    }
}

/// Whether every one of the first `n` entries is a text.
pub open spec fn texts_only(v: Seq<JsonView>) -> bool {
    forall|i: int| 0 <= i < v.len() ==> #[trigger] v[i] is Str
}

/// The texts of a list of texts; none, where the value is no such list.
pub open spec fn text_list(v: Option<JsonView>) -> Seq<Seq<char>> {
    match v {
        Some(JsonView::Array(a)) => if texts_only(a) {
            Seq::new(a.len(), |i: int| a[i]->Str_0)
        } else {
            Seq::empty()
        },
        _ => Seq::empty(),
    }
}

/// Keywords as they are shown.
pub open spec fn keywords_text(v: Option<JsonView>) -> Seq<char> {
    let words = text_list(v);
    if words.len() == 0 {
        "(none)"@
    } else {
        "["@ + text::join_text(words, ", "@) + "]"@
    }
}

fn texts_of(v: Option<&Json>) -> (r: Vec<String>)
    ensures
        text::texts(r@) == text_list(
            match v {
                Some(j) => Some(j@),
                None => None,
            },
        ),
{
    let mut out: Vec<String> = Vec::new();
    match v {
        Some(Json::Array(a)) => {
            let ghost all = views(a@);
            assert((*v->0)@->Array_0 =~= all);
            let mut i: usize = 0;
            while i < a.len()
                invariant
                    i <= a.len(),
                    all == views(a@),
                    v is Some,
                    (*v->0)@ == JsonView::Array(all),
                    out.len() == i,
                    forall|j: int| 0 <= j < i ==> #[trigger] all[j] is Str,
                    forall|j: int| 0 <= j < i ==> (#[trigger] out@[j])@ == all[j]->Str_0,
                decreases a.len() - i,
            {
                assert(all[i as int] == a@[i as int]@);
                match a[i].as_str() {
                    Some(t) => {
                        out.push(t.to_owned());
                    },
                    None => {
                        assert(!texts_only(all));
                        let none: Vec<String> = Vec::new();
                        assert(text::texts(none@) =~= Seq::<Seq<char>>::empty());
                        return none;
                    },
                }
                i += 1;
            }
            assert(text::texts(out@) =~= Seq::new(all.len(), |i: int| all[i]->Str_0));
        },
        _ => {
            assert(text::texts(out@) =~= Seq::<Seq<char>>::empty());
        },
    }
    out
}

/// Keywords of a value as they are shown; see [`keywords_text`].
pub fn keywords_of(v: Option<&Json>) -> (r: String)
    ensures
        r@ == keywords_text(
            match v {
                Some(j) => Some(j@),
                None => None,
            },
        ),
{
    let words = texts_of(v);
    assert(text::texts(words@).len() == words@.len());
    if words.len() == 0 {
        "(none)".to_owned()
    } else {
        text::joined3("[", text::join(&words, ", ").as_str(), "]")
    }
}

/// Keywords that are written as JSON.
pub fn keywords_summary(t: &str) -> (r: String)
    ensures
        r@ == keywords_text(json_parse(vstd::utf8::encode_utf8(t@))),
{
    match Json::parse(t.as_bytes()) {
        Some(j) => keywords_of(Some(&j)),
        None => keywords_of(None),
    }
}

/// JSON in lines with notes in place of blobs, or a text that is not JSON as it
/// stands.
pub open spec fn redacted_text(t: Seq<char>, v: Option<JsonView>) -> Seq<char> {
    match v {
        Some(j) => json_pretty(redacted(j)),
        None => t,
    }
}

/// A value with notes in place of blobs; see [`redacted`].
pub fn redact_blobs(v: &Json) -> (r: Json)
    ensures
        r@ == redacted(v@),
{
    v.redact()
}

/// See [`redacted_text`].
pub fn redact_blobs_in_json(t: &str) -> (r: String)
    ensures
        r@ == redacted_text(t@, json_parse(vstd::utf8::encode_utf8(t@))),
{
    match Json::parse(t.as_bytes()) {
        Some(j) => redact_blobs(&j).pretty(),
        None => t.to_owned(),
    }
}

/// The names of folders, by their numbers.
pub struct Names {
    pub mailboxes: HashMap<i64, String>,
    pub address_books: HashMap<i64, String>,
    pub calendars: HashMap<i64, String>,
}

/// A folder as it is shown: by its name, or by its number where it is gone.
pub open spec fn folder_text(map: Map<i64, String>, id: i64) -> Seq<char> {
    if map.contains_key(id) {
        text::debug_text(map[id]@)
    } else {
        "#"@ + text::integer_text(id as int) + " (missing)"@
    }
}

/// Folders as they are shown; numbers, where the kind has no names.
pub open spec fn folders_text(map: Option<Map<i64, String>>, ids: Seq<i64>) -> Seq<char> {
    "["@ + text::join_text(
        Seq::new(
            ids.len(),
            |i: int|
                match map {
                    Some(m) => folder_text(m, ids[i]),
                    None => text::integer_text(ids[i] as int),
                },
        ),
        ", "@,
    ) + "]"@
}

impl Names {
    /// The names of a kind of folder.
    pub open spec fn of(self, kind: ObjectType) -> Option<Map<i64, String>> {
        match kind {
            ObjectType::Mailbox => Some(self.mailboxes@),
            ObjectType::AddressBook => Some(self.address_books@),
            ObjectType::Calendar => Some(self.calendars@),
            _ => None,
        }
    }

    fn map_of(&self, kind: ObjectType) -> (r: Option<&HashMap<i64, String>>)
        ensures
            match r {
                Some(m) => self.of(kind) == Some(m@),
                None => self.of(kind) is None,
            },
    {
        match kind {
            ObjectType::Mailbox => Some(&self.mailboxes),
            ObjectType::AddressBook => Some(&self.address_books),
            ObjectType::Calendar => Some(&self.calendars),
            _ => None,
        }
    }

    /// Folders as they are shown; see [`folders_text`].
    pub fn render(&self, kind: ObjectType, ids: &Vec<i64>) -> (r: String)
        ensures
            r@ == folders_text(self.of(kind), ids@),
    {
        let map = self.map_of(kind);
        let ghost names = self.of(kind);
        let mut parts: Vec<String> = Vec::new();
        let mut i: usize = 0;
        while i < ids.len()
            invariant
                i <= ids.len(),
                match map {
                    Some(m) => names == Some(m@),
                    None => names is None,
                },
                parts.len() == i,
                forall|j: int|
                    0 <= j < i ==> (#[trigger] parts@[j])@ == match names {
                        Some(m) => folder_text(m, ids@[j]),
                        None => text::integer_text(ids@[j] as int),
                    },
            decreases ids.len() - i,
        {
            let id: i64 = ids[i];
            let part = match map {
                Some(m) => match m.get(&id) {
                    Some(name) => text::quoted(name.as_str()),
                    None => text::joined3("#", text::integer(id).as_str(), " (missing)"),
                },
                None => text::integer(id),
            };
            parts.push(part);
            i += 1;
        }
        proof {
            let want = Seq::new(
                ids@.len(),
                |i: int|
                    match names {
                        Some(m) => folder_text(m, ids@[i]),
                        None => text::integer_text(ids@[i] as int),
                    },
            );
            assert(text::texts(parts@) =~= want);
        }
        text::joined3("[", text::join(&parts, ", ").as_str(), "]")
    }
}

/// The text of a listing: its head, a note where there is nothing, the records,
/// and how to go on.
pub open spec fn list_text(
    head: Seq<char>,
    token: Seq<char>,
    total: u64,
    records: Seq<Seq<char>>,
    more: Seq<char>,
) -> Seq<char> {
    if total == 0 {
        head + ("(no "@ + token + " in archive)\n"@)
    } else {
        head + text::join_text(records, ""@) + more
    }
}

/// The listing of a kind of objects, given its records. `left` is the number of
/// rows behind those shown, as it is shown.
pub fn write_list(
    ty: ObjectType,
    total: u64,
    head: &str,
    records: &Vec<String>,
    limit: Option<usize>,
    offset: usize,
    left: &str,
) -> (r: String)
    requires
        offset + records@.len() <= u64::MAX,
    ensures
        r@ == list_text(
            head@,
            ty.archive(),
            total,
            text::texts(records@),
            match rows_left(total, limit, offset, records@.len() as u64) {
                Some((_, next)) => more_text(left@, next, limit->0),
                None => ""@,
            },
        ),
{
    if total == 0 {
        let note = text::joined3("(no ", ty.token(), " in archive)\n");
        return text::joined(head, note.as_str());
    }
    let more = match remaining(total, limit, offset, records.len() as u64) {
        Some((_, next)) => match limit {
            Some(l) => continuation(left, next, l),
            None => "".to_owned(),
        },
        None => "".to_owned(),
    };
    text::joined3(head, text::join(records, "").as_str(), more.as_str())
}

/// The title of a record.
pub open spec fn title_text(token: Seq<char>, id: i64) -> Seq<char> {
    token + " #"@ + text::integer_text(id as int)
}

/// See [`title_text`].
pub fn title(token: &str, id: i64) -> (r: String)
    ensures
        r@ == title_text(token@, id),
{
    text::joined3(token, " #", text::integer(id).as_str())
}

/// A record of an identity.
pub fn write_identities(
    id: i64,
    name: String,
    email: String,
    reply_to: Option<String>,
    bcc: Option<String>,
    text_signature: String,
    html_signature: String,
) -> (r: String)
    ensures
        r@ == record_text(
            title_text("identity"@, id),
            seq![
                ("name"@, name@),
                ("email"@, email@),
                ("reply_to"@, or_null(text::opt_text(reply_to))),
                ("bcc"@, or_null(text::opt_text(bcc))),
                ("text_signature"@, text_signature@),
                ("html_signature"@, html_signature@),
            ],
        ),
{
    let ghost want = seq![
        ("name"@, name@),
        ("email"@, email@),
        ("reply_to"@, or_null(text::opt_text(reply_to))),
        ("bcc"@, or_null(text::opt_text(bcc))),
        ("text_signature"@, text_signature@),
        ("html_signature"@, html_signature@),
    ];
    let fields = vec![
        ("name", name),
        ("email", email),
        ("reply_to", opt_or_null(reply_to)),
        ("bcc", opt_or_null(bcc)),
        ("text_signature", text_signature),
        ("html_signature", html_signature),
    ];
    assert(field_views(fields@) =~= want);
    write_record(title("identity", id).as_str(), &fields)
}

/// A record of a message. `blob` is the summary of its bytes.
pub fn write_emails(
    id: i64,
    blob: String,
    received_at: String,
    mailboxes: String,
    keywords: &str,
    message_match: &str,
) -> (r: String)
    ensures
        r@ == record_text(
            title_text("email"@, id),
            seq![
                ("blob"@, blob@),
                ("received_at"@, received_at@),
                ("mailboxes"@, mailboxes@),
                ("keywords"@, keywords_text(json_parse(vstd::utf8::encode_utf8(keywords@)))),
                ("message_match"@, pretty_or_raw(message_match@, json_parse(vstd::utf8::encode_utf8(message_match@)))),
            ],
        ),
{
    let ghost want = seq![
        ("blob"@, blob@),
        ("received_at"@, received_at@),
        ("mailboxes"@, mailboxes@),
        ("keywords"@, keywords_text(json_parse(vstd::utf8::encode_utf8(keywords@)))),
        ("message_match"@, pretty_or_raw(message_match@, json_parse(vstd::utf8::encode_utf8(message_match@)))),
    ];
    let fields = vec![
        ("blob", blob),
        ("received_at", received_at),
        ("mailboxes", mailboxes),
        ("keywords", keywords_summary(keywords)),
        ("message_match", json_pretty_or_raw(message_match)),
    ];
    assert(field_views(fields@) =~= want);
    write_record(title("email", id).as_str(), &fields)
}

/// A record of a Sieve script.
pub fn write_sieves(
    id: i64,
    name: Option<String>,
    is_active: bool,
    blob: String,
) -> (r: String)
    ensures
        r@ == record_text(
            title_text("sievescript"@, id),
            seq![
                ("name"@, or_null(text::opt_text(name))),
                ("is_active"@, yes_no(is_active)),
                ("blob"@, blob@),
            ],
        ),
{
    let ghost want = seq![
        ("name"@, or_null(text::opt_text(name))),
        ("is_active"@, yes_no(is_active)),
        ("blob"@, blob@),
    ];
    let fields = vec![
        ("name", opt_or_null(name)),
        ("is_active", bool_str(is_active)),
        ("blob", blob),
    ];
    assert(field_views(fields@) =~= want);
    write_record(title("sievescript", id).as_str(), &fields)
}

/// A record of an address book.
pub fn write_address_books(
    id: i64,
    name: String,
    description: Option<String>,
    sort_order: i64,
    is_default: bool,
    is_subscribed: bool,
) -> (r: String)
    ensures
        r@ == record_text(
            title_text("addressbook"@, id),
            seq![
                ("name"@, name@),
                ("description"@, or_null(text::opt_text(description))),
                ("sort_order"@, text::integer_text(sort_order as int)),
                ("is_default"@, yes_no(is_default)),
                ("is_subscribed"@, yes_no(is_subscribed)),
            ],
        ),
{
    let ghost want = seq![
        ("name"@, name@),
        ("description"@, or_null(text::opt_text(description))),
        ("sort_order"@, text::integer_text(sort_order as int)),
        ("is_default"@, yes_no(is_default)),
        ("is_subscribed"@, yes_no(is_subscribed)),
    ];
    let fields = vec![
        ("name", name),
        ("description", opt_or_null(description)),
        ("sort_order", text::integer(sort_order)),
        ("is_default", bool_str(is_default)),
        ("is_subscribed", bool_str(is_subscribed)),
    ];
    assert(field_views(fields@) =~= want);
    write_record(title("addressbook", id).as_str(), &fields)
}

/// A record of a contact.
pub fn write_contact_cards(
    id: i64,
    uid: String,
    address_books: String,
    data: &str,
) -> (r: String)
    ensures
        r@ == record_text(
            title_text("contactcard"@, id),
            seq![
                ("uid"@, uid@),
                ("address_books"@, address_books@),
                ("data"@, redacted_text(data@, json_parse(vstd::utf8::encode_utf8(data@)))),
            ],
        ),
{
    let ghost want = seq![
        ("uid"@, uid@),
        ("address_books"@, address_books@),
        ("data"@, redacted_text(data@, json_parse(vstd::utf8::encode_utf8(data@)))),
    ];
    let fields = vec![
        ("uid", uid),
        ("address_books", address_books),
        ("data", redact_blobs_in_json(data)),
    ];
    assert(field_views(fields@) =~= want);
    write_record(title("contactcard", id).as_str(), &fields)
}

/// A record of a participant's identity.
pub fn write_participant_identities(
    id: i64,
    name: String,
    calendar_address: String,
    is_default: bool,
) -> (r: String)
    ensures
        r@ == record_text(
            title_text("participantidentity"@, id),
            seq![
                ("name"@, name@),
                ("calendar_address"@, calendar_address@),
                ("is_default"@, yes_no(is_default)),
            ],
        ),
{
    let ghost want = seq![
        ("name"@, name@),
        ("calendar_address"@, calendar_address@),
        ("is_default"@, yes_no(is_default)),
    ];
    let fields = vec![
        ("name", name),
        ("calendar_address", calendar_address),
        ("is_default", bool_str(is_default)),
    ];
    assert(field_views(fields@) =~= want);
    write_record(title("participantidentity", id).as_str(), &fields)
}

/// A record of an event.
pub fn write_calendar_events(
    id: i64,
    calendars: String,
    is_draft: bool,
    use_default_alerts: bool,
    data: &str,
) -> (r: String)
    ensures
        r@ == record_text(
            title_text("calendarevent"@, id),
            seq![
                ("calendars"@, calendars@),
                ("is_draft"@, yes_no(is_draft)),
                ("use_default_alerts"@, yes_no(use_default_alerts)),
                ("data"@, redacted_text(data@, json_parse(vstd::utf8::encode_utf8(data@)))),
            ],
        ),
{
    let ghost want = seq![
        ("calendars"@, calendars@),
        ("is_draft"@, yes_no(is_draft)),
        ("use_default_alerts"@, yes_no(use_default_alerts)),
        ("data"@, redacted_text(data@, json_parse(vstd::utf8::encode_utf8(data@)))),
    ];
    let fields = vec![
        ("calendars", calendars),
        ("is_draft", bool_str(is_draft)),
        ("use_default_alerts", bool_str(use_default_alerts)),
        ("data", redact_blobs_in_json(data)),
    ];
    assert(field_views(fields@) =~= want);
    write_record(title("calendarevent", id).as_str(), &fields)
}

/// What the archive says about a calendar.
pub struct CalendarColumns {
    pub name: String,
    pub description: Option<String>,
    pub color: Option<String>,
    pub sort_order: i64,
    pub is_subscribed: bool,
    pub is_visible: bool,
    pub is_default: bool,
    pub include_in_availability: String,
    pub default_alerts_with_time: Option<String>,
    pub default_alerts_without_time: Option<String>,
    pub time_zone: Option<String>,
}

/// The fields of a calendar.
pub open spec fn calendar_fields(c: CalendarColumns) -> Seq<(Seq<char>, Seq<char>)> {
    seq![
        ("name"@, c.name@),
        ("description"@, or_null(text::opt_text(c.description))),
        ("color"@, or_null(text::opt_text(c.color))),
        ("sort_order"@, text::integer_text(c.sort_order as int)),
        ("is_subscribed"@, yes_no(c.is_subscribed)),
        ("is_visible"@, yes_no(c.is_visible)),
        ("is_default"@, yes_no(c.is_default)),
        ("include_in_availability"@, c.include_in_availability@),
        ("default_alerts_with_time"@, or_null(text::opt_text(c.default_alerts_with_time))),
        ("default_alerts_without_time"@, or_null(text::opt_text(c.default_alerts_without_time))),
        ("time_zone"@, or_null(text::opt_text(c.time_zone))),
    ]
}

/// A record of a calendar.
pub fn write_calendars(id: i64, c: CalendarColumns) -> (r: String)
    ensures
        r@ == record_text(title_text("calendar"@, id), calendar_fields(c)),
{
    let ghost want = calendar_fields(c);
    let fields = vec![
        ("name", c.name),
        ("description", opt_or_null(c.description)),
        ("color", opt_or_null(c.color)),
        ("sort_order", text::integer(c.sort_order)),
        ("is_subscribed", bool_str(c.is_subscribed)),
        ("is_visible", bool_str(c.is_visible)),
        ("is_default", bool_str(c.is_default)),
        ("include_in_availability", c.include_in_availability),
        ("default_alerts_with_time", opt_or_null(c.default_alerts_with_time)),
        ("default_alerts_without_time", opt_or_null(c.default_alerts_without_time)),
        ("time_zone", opt_or_null(c.time_zone)),
    ];
    assert(field_views(fields@) =~= want);
    write_record(title("calendar", id).as_str(), &fields)
}

} // verus!
