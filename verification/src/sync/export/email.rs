//! Messages: uploaded and imported one at a time.

use vstd::hash_map::StringHashMap;
use vstd::hash_set::StringHashSet;
use vstd::prelude::*;
use vstd::string::*;

use crate::db::export_failures::{FailedItem, FailedView};
use crate::jmap::blobxfer::BlobLookup;
use crate::jmap::error::{JmapError, JmapErrorView};
use crate::json::{json_compact, views, Json, JsonObject, JsonView};
use crate::sync::export::common::{
    arrived, failed, failure, jid, on_target, Entry, EntryView, Maps, Tally, Verdict, VerdictView,
};
use crate::sync::export::quarantine::{
    blob_row, classify_blob, lookup_text, probe_of, reads_ok, row, row_view, with_blob, BlobReads,
};
use crate::sync::export::uidtype::last_with_id;
use crate::text;
use crate::types::ObjectType;

verus! {

/// What of a message tells it apart.
pub struct EmailIndex {
    pub mids: Vec<String>,
    pub from: Vec<String>,
    pub subject: String,
    pub sent_at: String,
    pub to: Vec<String>,
}

/// The view of an [`EmailIndex`].
pub struct IndexView {
    pub mids: Seq<Seq<char>>,
    pub from: Seq<Seq<char>>,
    pub subject: Seq<char>,
    pub sent_at: Seq<char>,
    pub to: Seq<Seq<char>>,
}

impl View for EmailIndex {
    type V = IndexView;

    open spec fn view(&self) -> IndexView {
        IndexView {
            mids: text::texts(self.mids@),
            from: text::texts(self.from@),
            subject: self.subject@,
            sent_at: self.sent_at@,
            to: text::texts(self.to@),
        }
    }
}

/// The texts among the first `n` values.
pub open spec fn texts_in(v: Seq<JsonView>, n: nat) -> Seq<Seq<char>>
    decreases n,
{
    if n == 0 || n > v.len() {
        Seq::empty()
    } else {
        let rest = texts_in(v, (n - 1) as nat);
        match v[n - 1].as_text() {
            Some(t) => rest.push(t),
            None => rest,
        }
    }
}

/// The addresses among the first `n` values.
pub open spec fn addresses_in(v: Seq<JsonView>, n: nat) -> Seq<Seq<char>>
    decreases n,
{
    if n == 0 || n > v.len() {
        Seq::empty()
    } else {
        let rest = addresses_in(v, (n - 1) as nat);
        match v[n - 1].text_at("email"@) {
            Some(t) => rest.push(t),
            None => rest,
        }
    }
}

/// The addresses under a key.
pub open spec fn addresses_at(v: JsonView, k: Seq<char>) -> Seq<Seq<char>> {
    match v.array_at(k) {
        Some(a) => addresses_in(a, a.len()),
        None => Seq::empty(),
    }
}

/// The text under a key; empty where there is none.
pub open spec fn text_or_empty(v: JsonView, k: Seq<char>) -> Seq<char> {
    match v.text_at(k) {
        Some(t) => t,
        None => Seq::empty(),
    }
}

/// What tells a message of the target apart.
pub open spec fn index_of(v: JsonView) -> IndexView {
    IndexView {
        mids: match v.array_at("messageId"@) {
            Some(a) => texts_in(a, a.len()),
            None => Seq::empty(),
        },
        from: addresses_at(v, "from"@),
        subject: text_or_empty(v, "subject"@),
        sent_at: text_or_empty(v, "sentAt"@),
        to: addresses_at(v, "to"@),
    }
}

fn read_addresses(v: &Json, key: &str) -> (r: Vec<String>)
    ensures
        text::texts(r@) == addresses_at(v@, key@),
{
    let mut out: Vec<String> = Vec::new();
    assert(text::texts(out@) =~= Seq::<Seq<char>>::empty());
    match v.array_at(key) {
        Some(a) => {
            let ghost all = views(a@);
            let mut i: usize = 0;
            while i < a.len()
                invariant
                    i <= a.len(),
                    all == views(a@),
                    text::texts(out@) == addresses_in(all, i as nat),
                decreases a.len() - i,
            {
                assert(all[i as int] == a@[i as int]@);
                let ghost was = text::texts(out@);
                match a[i].str_at("email") {
                    Some(t) => {
                        out.push(t.to_owned());
                        assert(text::texts(out@) =~= was.push(t@));
                    },
                    None => {},
                }
                i += 1;
            }
        },
        None => {},
    }
    out
}

fn read_text(v: &Json, key: &str) -> (r: String)
    ensures
        r@ == text_or_empty(v@, key@),
{
    match v.str_at(key) {
        Some(t) => t.to_owned(),
        None => String::new(),
    }
}

/// See [`index_of`].
pub fn server_index(v: &Json) -> (r: EmailIndex)
    ensures
        r@ == index_of(v@),
{
    let mut mids: Vec<String> = Vec::new();
    assert(text::texts(mids@) =~= Seq::<Seq<char>>::empty());
    match v.array_at("messageId") {
        Some(a) => {
            let ghost all = views(a@);
            let mut i: usize = 0;
            while i < a.len()
                invariant
                    i <= a.len(),
                    all == views(a@),
                    text::texts(mids@) == texts_in(all, i as nat),
                decreases a.len() - i,
            {
                assert(all[i as int] == a@[i as int]@);
                let ghost was = text::texts(mids@);
                match a[i].as_str() {
                    Some(t) => {
                        mids.push(t.to_owned());
                        assert(text::texts(mids@) =~= was.push(t@));
                    },
                    None => {},
                }
                i += 1;
            }
        },
        None => {},
    }
    EmailIndex {
        mids,
        from: read_addresses(v, "from"),
        subject: read_text(v, "subject"),
        sent_at: read_text(v, "sentAt"),
        to: read_addresses(v, "to"),
    }
}

/// What the bytes of a message are uploaded as.
pub const BLOB_TYPE: &'static str = "message/rfc822";

/// The properties that the messages of the target are first asked for with.
pub fn first_properties() -> (r: Vec<&'static str>)
    ensures
        text::strs(r@) == seq![
            "messageId"@,
        ],
{
    let r: Vec<&'static str> = vec![
        "messageId",
    ];
    assert(text::strs(r@) =~= seq![
            "messageId"@,
    ]);
    r
}

/// The properties that messages without a Message-ID are asked for once more with.
pub fn fallback_properties() -> (r: Vec<&'static str>)
    ensures
        text::strs(r@) == seq![
            "messageId"@,
            "from"@,
            "subject"@,
            "sentAt"@,
            "to"@,
        ],
{
    let r: Vec<&'static str> = vec![
        "messageId",
        "from",
        "subject",
        "sentAt",
        "to",
    ];
    assert(text::strs(r@) =~= seq![
            "messageId"@,
            "from"@,
            "subject"@,
            "sentAt"@,
            "to"@,
    ]);
    r
}

/// The ids, in their order, of the messages among the first `n` that came
/// without a Message-ID.
pub open spec fn unnamed(v: Seq<JsonView>, n: nat) -> Seq<Seq<char>>
    decreases n,
{
    if n == 0 || n > v.len() {
        Seq::empty()
    } else {
        let rest = unnamed(v, (n - 1) as nat);
        match v[n - 1].text_at("id"@) {
            Some(id) => if index_of(v[n - 1]).mids.len() == 0 {
                rest.push(id)
            } else {
                rest
            },
            None => rest,
        }
    }
}

/// The messages of the target that have to be asked for once more, with all that
/// can tell them apart: those without a Message-ID.
pub fn fallback_ids(targets: &Vec<Json>) -> (r: Vec<String>)
    ensures
        text::texts(r@) == unnamed(views(targets@), targets@.len()),
{
    let ghost all = views(targets@);
    let mut out: Vec<String> = Vec::new();
    assert(text::texts(out@) =~= Seq::<Seq<char>>::empty());
    let mut i: usize = 0;
    while i < targets.len()
        invariant
            i <= targets.len(),
            all == views(targets@),
            text::texts(out@) == unnamed(all, i as nat),
        decreases targets.len() - i,
    {
        assert(all[i as int] == targets@[i as int]@);
        let ghost was = text::texts(out@);
        let index = server_index(&targets[i]);
        assert(index@.mids.len() == index.mids@.len());
        if index.mids.len() == 0 {
            match jid(&targets[i]) {
                Some(id) => {
                    out.push(id);
                    assert(text::texts(out@) =~= was.push(id@));
                },
                None => {},
            }
        }
        i += 1;
    }
    out
}

/// What tells a message apart, once the messages in `full` were asked for again.
pub open spec fn completed_index(v: JsonView, full: Seq<JsonView>) -> IndexView {
    match v.text_at("id"@) {
        Some(id) => match last_with_id(full, id, full.len()) {
            Some(f) => index_of(f),
            None => index_of(v),
        },
        None => index_of(v),
    }
}

/// What tells the messages of the target apart: each by what came for its id the
/// second time, else by what came the first time.
pub fn completed(targets: &Vec<Json>, full: &Vec<Json>) -> (r: Vec<EmailIndex>)
    ensures
        r@.len() == targets@.len(),
        forall|i: int|
            0 <= i < r@.len() ==> (#[trigger] r@[i])@ == completed_index(targets@[i]@, views(full@)),
{
    let ghost again = views(full@);
    let mut place: StringHashMap<usize> = StringHashMap::new();
    let mut k: usize = 0;
    while k < full.len()
        invariant
            k <= full.len(),
            again == views(full@),
            forall|id: Seq<char>| #[trigger]
                place@.contains_key(id) ==> place@[id] < k && last_with_id(again, id, k as nat) == Some(
                    again[place@[id] as int],
                ),
            forall|id: Seq<char>|
                !(#[trigger] place@.contains_key(id)) ==> last_with_id(again, id, k as nat) is None,
        decreases full.len() - k,
    {
        assert(again[k as int] == full@[k as int]@);
        match jid(&full[k]) {
            Some(id) => place.insert(id, k),
            None => {},
        }
        k += 1;
    }
    let mut out: Vec<EmailIndex> = Vec::new();
    let mut i: usize = 0;
    while i < targets.len()
        invariant
            i <= targets.len(),
            again == views(full@),
            forall|id: Seq<char>| #[trigger]
                place@.contains_key(id) ==> place@[id] < full@.len() && last_with_id(
                    again,
                    id,
                    full@.len(),
                ) == Some(again[place@[id] as int]),
            forall|id: Seq<char>|
                !(#[trigger] place@.contains_key(id)) ==> last_with_id(again, id, full@.len()) is None,
            out@.len() == i,
            forall|j: int|
                0 <= j < i ==> (#[trigger] out@[j])@ == completed_index(targets@[j]@, again),
        decreases targets.len() - i,
    {
        let index = match jid(&targets[i]) {
            Some(id) => match place.get(id.as_str()) {
                Some(p) => server_index(&full[*p]),
                None => server_index(&targets[i]),
            },
            None => server_index(&targets[i]),
        };
        assert(index@ == completed_index(targets@[i as int]@, again));
        out.push(index);
        i += 1;
    }
    out
}

/// Which messages of the archive the target has already: those whose key is
/// among the target's.
pub fn reconcile(local_keys: &Vec<String>, target_keys: &Vec<String>) -> (r: Vec<bool>)
    ensures
        r@ == Seq::new(
            local_keys@.len(),
            |i: int| text::texts(target_keys@).contains(local_keys@[i]@),
        ),
{
    let mut known = StringHashSet::new();
    let ghost all = text::texts(target_keys@);
    let mut i: usize = 0;
    while i < target_keys.len()
        invariant
            i <= target_keys.len(),
            all == text::texts(target_keys@),
            forall|k: Seq<char>| #[trigger] known@.contains(k) <==> all.take(i as int).contains(k),
        decreases target_keys.len() - i,
    {
        known.insert(target_keys[i].clone());
        proof {
            let a = all.take(i as int);
            let b = all.take(i + 1);
            assert(b =~= a.push(all[i as int]));
            assert forall|k: Seq<char>| #[trigger] known@.contains(k) <==> b.contains(k) by {
                if a.contains(k) {
                    let j = choose|j: int| 0 <= j < a.len() && a[j] == k;
                    assert(b[j] == k);
                }
                if k == all[i as int] {
                    assert(b[i as int] == k);
                }
                if b.contains(k) {
                    let j = choose|j: int| 0 <= j < b.len() && b[j] == k;
                    if j < i {
                        assert(a[j] == k);
                    }
                }
            }
        }
        i += 1;
    }
    assert(all.take(all.len() as int) =~= all);
    let mut out: Vec<bool> = Vec::new();
    let mut k: usize = 0;
    while k < local_keys.len()
        invariant
            k <= local_keys.len(),
            all == text::texts(target_keys@),
            forall|q: Seq<char>| #[trigger] known@.contains(q) <==> all.contains(q),
            out@ == Seq::new(k as nat, |i: int| all.contains(local_keys@[i]@)),
        decreases local_keys.len() - k,
    {
        out.push(known.contains(local_keys[k].as_str()));
        k += 1;
        assert(out@ =~= Seq::new(k as nat, |i: int| all.contains(local_keys@[i]@)));
    }
    out
}

/// A message of the archive.
pub struct EmailRow {
    pub local: i64,
    pub blob_local_id: i64,
    pub mailbox_locals: Vec<i64>,
    pub keywords: Vec<String>,
    pub received_at: String,
    pub message_id: Option<String>,
}

/// What becomes of a message that the target has already: it is skipped, and a
/// row that an earlier run left for it is resolved. One that the target lacks is
/// still to be exported.
pub fn matched(m: &EmailRow, known: bool) -> (r: Option<Verdict>)
    ensures
        r is Some <==> known,
        r matches Some(v) ==> v@ == on_target(m.local, Tally::Skipped, None),
{
    if known {
        Some(arrived(m.local, Tally::Skipped, None))
    } else {
        None
    }
}

/// The mailboxes of the target that the first `n` of some mailboxes stand for;
/// none where one has no counterpart.
pub open spec fn mailboxes_of(maps: Maps, locals: Seq<i64>, n: nat) -> Option<Map<Seq<char>, JsonView>>
    decreases n,
{
    if n == 0 || n > locals.len() {
        Some(Map::empty())
    } else {
        match (
            mailboxes_of(maps, locals, (n - 1) as nat),
            maps.stands_for(ObjectType::Mailbox, locals[n - 1]),
        ) {
            (Some(m), Some(id)) => Some(m.insert(id, JsonView::Bool(true))),
            _ => None,
        }
    }
}

proof fn lemma_mailboxes_stuck(maps: Maps, locals: Seq<i64>, n: nat, k: nat)
    requires
        n <= k <= locals.len(),
        mailboxes_of(maps, locals, n) is None,
    ensures
        mailboxes_of(maps, locals, k) is None,
    decreases k,
{
    if n < k {
        lemma_mailboxes_stuck(maps, locals, n, (k - 1) as nat);
    }
}

/// The view of an optional object.
pub open spec fn opt_object(o: Option<JsonObject>) -> Option<Map<Seq<char>, JsonView>> {
    match o {
        Some(m) => Some(m@),
        None => None,
    }
}

/// See [`mailboxes_of`].
pub fn build_mailbox_ids(row: &EmailRow, maps: &Maps) -> (r: Option<JsonObject>)
    ensures
        opt_object(r) == mailboxes_of(*maps, row.mailbox_locals@, row.mailbox_locals@.len()),
{
    let mut m = JsonObject::new();
    let mut i: usize = 0;
    while i < row.mailbox_locals.len()
        invariant
            i <= row.mailbox_locals.len(),
            mailboxes_of(*maps, row.mailbox_locals@, i as nat) == Some(m@),
        decreases row.mailbox_locals.len() - i,
    {
        match maps.target(ObjectType::Mailbox, row.mailbox_locals[i]) {
            Some(id) => {
                m.insert(id, Json::Bool(true));
            },
            None => {
                proof {
                    lemma_mailboxes_stuck(
                        *maps,
                        row.mailbox_locals@,
                        (i + 1) as nat,
                        row.mailbox_locals@.len(),
                    );
                }
                return None;
            },
        }
        i += 1;
    }
    Some(m)
}

/// The keywords of a message, each set.
pub open spec fn keywords_of(k: Seq<Seq<char>>, n: nat) -> Map<Seq<char>, JsonView>
    decreases n,
{
    if n == 0 || n > k.len() {
        Map::empty()
    } else {
        keywords_of(k, (n - 1) as nat).insert(k[n - 1], JsonView::Bool(true))
    }
}

/// See [`keywords_of`].
pub fn build_keywords(row: &EmailRow) -> (r: JsonObject)
    ensures
        r@ == keywords_of(text::texts(row.keywords@), row.keywords@.len()),
{
    let mut m = JsonObject::new();
    let mut i: usize = 0;
    while i < row.keywords.len()
        invariant
            i <= row.keywords.len(),
            m@ == keywords_of(text::texts(row.keywords@), i as nat),
        decreases row.keywords.len() - i,
    {
        m.insert(row.keywords[i].clone(), Json::Bool(true));
        i += 1;
    }
    m
}

/// What is imported for a message.
pub open spec fn item_view(
    row: EmailRow,
    mailboxes: Map<Seq<char>, JsonView>,
    blob: Seq<char>,
) -> Map<Seq<char>, JsonView> {
    Map::<Seq<char>, JsonView>::empty().insert("blobId"@, JsonView::Str(blob)).insert(
        "mailboxIds"@,
        JsonView::Object(mailboxes),
    ).insert(
        "keywords"@,
        JsonView::Object(keywords_of(text::texts(row.keywords@), row.keywords@.len())),
    ).insert("receivedAt"@, JsonView::Str(row.received_at@))
}

/// See [`item_view`].
pub fn import_item(row: &EmailRow, mailboxes: JsonObject, blob: &str) -> (r: JsonObject)
    ensures
        r@ == item_view(*row, mailboxes@, blob@),
{
    let mut o = JsonObject::new();
    o.insert("blobId".to_owned(), Json::text(blob));
    o.insert("mailboxIds".to_owned(), Json::Object(mailboxes));
    o.insert("keywords".to_owned(), Json::Object(build_keywords(row)));
    o.insert("receivedAt".to_owned(), Json::text(row.received_at.as_str()));
    o
}

/// The remark on an error that a size limit caused.
pub open spec fn size_text(e: JmapErrorView) -> Seq<char> {
    if e is RequestTooLarge || e is SingleObjectTooLarge {
        "; exceeds the target server size limit, so this message is skipped and re-running will not migrate it"@
    } else {
        ""@
    }
}

/// See [`size_text`].
pub fn size_note(e: &JmapError) -> (r: &'static str)
    ensures
        r@ == size_text(e@),
{
    match e {
        JmapError::RequestTooLarge | JmapError::SingleObjectTooLarge(_) => "; exceeds the target server size limit, so this message is skipped and re-running will not migrate it",
        _ => "",
    }
}

/// What a warning says of a message besides its number: its Message-ID, and its
/// size as it is shown, or why that could not be read.
pub open spec fn hint_text(message_id: Option<Seq<char>>, size: Result<Option<Seq<char>>, Seq<char>>) -> Seq<char> {
    let name = match message_id {
        Some(mid) => "message-id <"@ + mid + ">"@,
        None => "no message-id"@,
    };
    match size {
        Ok(Some(shown)) => name + ", "@ + shown,
        Ok(None) => name,
        Err(e) => name + ", size unreadable: "@ + e,
    }
}

/// The view of a size that was read.
pub open spec fn size_view(size: Result<Option<String>, String>) -> Result<Option<Seq<char>>, Seq<char>> {
    match size {
        Ok(s) => Ok(text::opt_text(s)),
        Err(e) => Err(e@),
    }
}

/// See [`hint_text`].
pub fn blob_hint(m: &EmailRow, size: &Result<Option<String>, String>) -> (r: String)
    ensures
        r@ == hint_text(text::opt_text(m.message_id), size_view(*size)),
{
    let name = match &m.message_id {
        Some(mid) => text::joined3("message-id <", mid.as_str(), ">"),
        None => "no message-id".to_owned(),
    };
    match size {
        Ok(Some(shown)) => text::joined3(name.as_str(), ", ", shown.as_str()),
        Ok(None) => name,
        Err(e) => text::joined3(name.as_str(), ", size unreadable: ", e.as_str()),
    }
}

/// An error with the text it is reported as.
pub struct Trouble {
    pub error: JmapError,
    pub shown: String,
}

/// The text of an error, with the remark where a size limit caused it.
pub open spec fn trouble_text(t: Trouble) -> Seq<char> {
    t.shown@ + size_text(t.error@)
}

fn trouble(t: &Trouble) -> (r: String)
    ensures
        r@ == trouble_text(*t),
{
    text::joined(t.shown.as_str(), size_note(&t.error))
}

/// The creation id of a message.
pub open spec fn import_id(local: i64) -> Seq<char> {
    "e"@ + text::integer_text(local as int)
}

/// See [`import_id`].
pub fn make_import_id(local: i64) -> (r: String)
    ensures
        r@ == import_id(local),
{
    text::joined("e", text::integer(local).as_str())
}

/// The row for a message that failed.
pub open spec fn failed_message(
    m: EmailRow,
    reads: BlobReads,
    kind: Seq<char>,
    detail: Seq<char>,
    blob: Option<Seq<char>>,
    stamp: Seq<char>,
) -> FailedView {
    let base = blob_row(
        row_view(ObjectType::Email, m.local, import_id(m.local), kind, detail, stamp),
        Some(reads),
    );
    FailedView { message_id: text::opt_text(m.message_id), target_blob_id: blob, ..base }
}

/// See [`failed_message`].
pub fn failed_item(
    m: &EmailRow,
    reads: BlobReads,
    kind: &str,
    detail: String,
    blob: Option<&str>,
    stamp: &str,
) -> (r: FailedItem)
    requires
        reads_ok(Some(reads)),
    ensures
        r@ == failed_message(*m, reads, kind@, detail@, text::opt_str(blob), stamp@),
{
    let cid = make_import_id(m.local);
    let mut item = with_blob(
        row(ObjectType::Email, m.local, cid.as_str(), kind, detail, stamp),
        Some(reads),
    );
    item.message_id = match &m.message_id {
        Some(t) => Some(t.clone()),
        None => None,
    };
    item.target_blob_id = text::owned(blob);
    item
}

/// A message that failed.
pub open spec fn fails(
    m: EmailRow,
    reads: BlobReads,
    kind: Seq<char>,
    detail: Seq<char>,
    blob: Option<Seq<char>>,
    stamp: Seq<char>,
) -> VerdictView {
    failed(m.local, failed_message(m, reads, kind, detail, blob, stamp), None)
}

fn fail(
    m: &EmailRow,
    reads: BlobReads,
    kind: &str,
    detail: String,
    blob: Option<&str>,
    stamp: &str,
) -> (r: Verdict)
    requires
        reads_ok(Some(reads)),
    ensures
        r@ == fails(*m, reads, kind@, detail@, text::opt_str(blob), stamp@),
{
    failure(m.local, failed_item(m, reads, kind, detail, blob, stamp), None)
}

/// What an import of one message brought.
pub enum SingleImport {
    Created,
    Skipped,
    NotCreated { error_type: String, detail: String },
}

/// The view of a [`SingleImport`].
pub enum ImportView {
    Created,
    Skipped,
    NotCreated { error_type: Seq<char>, detail: Seq<char> },
}

impl View for SingleImport {
    type V = ImportView;

    open spec fn view(&self) -> ImportView {
        match self {
            SingleImport::Created => ImportView::Created,
            SingleImport::Skipped => ImportView::Skipped,
            SingleImport::NotCreated { error_type, detail } => ImportView::NotCreated {
                error_type: error_type@,
                detail: detail@,
            },
        }
    }
}

/// The arguments of the call that imports a message.
pub open spec fn import_args(account: Seq<char>, cid: Seq<char>, item: Map<Seq<char>, JsonView>) -> Map<
    Seq<char>,
    JsonView,
> {
    Map::<Seq<char>, JsonView>::empty().insert("accountId"@, JsonView::Str(account)).insert(
        "emails"@,
        JsonView::Object(Map::<Seq<char>, JsonView>::empty().insert(cid, JsonView::Object(item))),
    )
}

/// See [`import_args`].
pub fn import_call(account: &str, cid: &str, item: JsonObject) -> (r: JsonObject)
    ensures
        r@ == import_args(account@, cid@, item@),
{
    let mut emails = JsonObject::new();
    emails.insert(cid.to_owned(), Json::Object(item));
    let mut o = JsonObject::new();
    o.insert("accountId".to_owned(), Json::text(account));
    o.insert("emails".to_owned(), Json::Object(emails));
    o
}

/// What the answer to an import says. A message that the target has already
/// counts as skipped.
pub open spec fn import_result(args: JsonView, cid: Seq<char>) -> ImportView {
    let refused = match args.field("notCreated"@) {
        Some(nc) => nc.field(cid),
        None => None,
    };
    match refused {
        Some(err) => {
            let kind = text_or_empty(err, "type"@);
            if kind == "alreadyExists"@ {
                ImportView::Skipped
            } else {
                ImportView::NotCreated { error_type: kind, detail: json_compact(err) }
            }
        },
        None => if args.field("created"@) matches Some(JsonView::Object(c)) && c != Map::<Seq<char>, JsonView>::empty() {
            ImportView::Created
        } else {
            ImportView::NotCreated {
                error_type: Seq::empty(),
                detail: "Email/import returned neither created nor notCreated for "@ + cid,
            }
        },
    }
}

/// See [`import_result`].
pub fn send_single_import(args: &Json, cid: &str) -> (r: SingleImport)
    ensures
        r@ == import_result(args@, cid@),
{
    let refused = match args.get("notCreated") {
        Some(nc) => nc.get(cid),
        None => None,
    };
    match refused {
        Some(err) => {
            let kind = read_text(err, "type");
            if text::same(kind.as_str(), "alreadyExists") {
                return SingleImport::Skipped;
            }
            return SingleImport::NotCreated { error_type: kind, detail: err.compact() };
        },
        None => {},
    }
    match args.get("created") {
        Some(Json::Object(c)) => if !c.is_empty() {
            return SingleImport::Created;
        },
        _ => {},
    }
    SingleImport::NotCreated {
        error_type: String::new(),
        detail: text::joined("Email/import returned neither created nor notCreated for ", cid),
    }
}

/// What comes next for a message.
pub enum EmailStep {
    Settled(Verdict),
    /// Upload its bytes.
    Upload,
    /// Import it: the item, and the id of its bytes on the target.
    Import { item: JsonObject, blob: String },
    /// Upload its bytes again: the target misses those under this id.
    Reupload { first: String },
    /// Ask the target for the bytes under this id.
    Probe { blob: String, error_type: String, detail: String },
}

/// The view of an [`EmailStep`].
pub enum StepView {
    Settled(VerdictView),
    Upload,
    Import { item: Map<Seq<char>, JsonView>, blob: Seq<char> },
    Reupload { first: Seq<char> },
    Probe { blob: Seq<char>, error_type: Seq<char>, detail: Seq<char> },
}

impl View for EmailStep {
    type V = StepView;

    open spec fn view(&self) -> StepView {
        match self {
            EmailStep::Settled(v) => StepView::Settled(v@),
            EmailStep::Upload => StepView::Upload,
            EmailStep::Import { item, blob } => StepView::Import { item: item@, blob: blob@ },
            EmailStep::Reupload { first } => StepView::Reupload { first: first@ },
            EmailStep::Probe { blob, error_type, detail } => StepView::Probe {
                blob: blob@,
                error_type: error_type@,
                detail: detail@,
            },
        }
    }
}

/// What can happen to a message while it is exported.
pub enum EmailEvent {
    Begin,
    Uploaded(Result<String, Trouble>),
    Imported { blob: String, result: Result<SingleImport, Trouble> },
}

/// The detail of a message whose mailbox is not on the target.
pub open spec fn no_mailbox() -> Seq<char> {
    "the mailbox holding this message was not created on the target"@
}

/// What follows for a message that is exported for the first time.
pub open spec fn export_view(
    m: EmailRow,
    maps: Maps,
    dry_run: bool,
    reads: BlobReads,
    event: EmailEvent,
    stamp: Seq<char>,
) -> StepView {
    let mailboxes = mailboxes_of(maps, m.mailbox_locals@, m.mailbox_locals@.len());
    match mailboxes {
        None => StepView::Settled(fails(m, reads, "mailboxNotOnTarget"@, no_mailbox(), None, stamp)),
        Some(boxes) => match event {
            EmailEvent::Begin => StepView::Upload,
            EmailEvent::Uploaded(Err(t)) => StepView::Settled(
                fails(m, reads, "blobUploadFailed"@, trouble_text(t), None, stamp),
            ),
            EmailEvent::Uploaded(Ok(blob)) => if dry_run {
                StepView::Settled(
                    VerdictView {
                        local: m.local,
                        tally: Tally::Created,
                        entry: EntryView::Keep,
                        target: None,
                    },
                )
            } else {
                StepView::Import { item: item_view(m, boxes, blob@), blob: blob@ }
            },
            EmailEvent::Imported { blob, result } => match result {
                Ok(SingleImport::Created) => StepView::Settled(on_target(m.local, Tally::Created, None)),
                Ok(SingleImport::Skipped) => StepView::Settled(on_target(m.local, Tally::Skipped, None)),
                Ok(SingleImport::NotCreated { error_type, detail }) => if error_type@ == "blobNotFound"@ {
                    StepView::Reupload { first: blob@ }
                } else {
                    StepView::Settled(fails(m, reads, error_type@, detail@, Some(blob@), stamp))
                },
                Err(t) => StepView::Settled(
                    fails(m, reads, "sendFailed"@, trouble_text(t), Some(blob@), stamp),
                ),
            },
        },
    }
}

/// Decides what follows for a message; see [`export_view`].
pub fn export_one(
    m: &EmailRow,
    maps: &Maps,
    dry_run: bool,
    reads: BlobReads,
    event: EmailEvent,
    stamp: &str,
) -> (r: EmailStep)
    requires
        reads_ok(Some(reads)),
    ensures
        r@ == export_view(*m, *maps, dry_run, reads, event, stamp@),
{
    let boxes = match build_mailbox_ids(m, maps) {
        Some(b) => b,
        None => {
            return EmailStep::Settled(
                fail(
                    m,
                    reads,
                    "mailboxNotOnTarget",
                    "the mailbox holding this message was not created on the target".to_owned(),
                    None,
                    stamp,
                ),
            );
        },
    };
    match event {
        EmailEvent::Begin => EmailStep::Upload,
        EmailEvent::Uploaded(Err(t)) => EmailStep::Settled(
            fail(m, reads, "blobUploadFailed", trouble(&t), None, stamp),
        ),
        EmailEvent::Uploaded(Ok(blob)) => if dry_run {
            EmailStep::Settled(
                Verdict { local: m.local, tally: Tally::Created, entry: Entry::Keep, target: None },
            )
        } else {
            EmailStep::Import { item: import_item(m, boxes, blob.as_str()), blob }
        },
        EmailEvent::Imported { blob, result } => match result {
            Ok(SingleImport::Created) => EmailStep::Settled(arrived(m.local, Tally::Created, None)),
            Ok(SingleImport::Skipped) => EmailStep::Settled(arrived(m.local, Tally::Skipped, None)),
            Ok(SingleImport::NotCreated { error_type, detail }) => if text::same(
                error_type.as_str(),
                "blobNotFound",
            ) {
                EmailStep::Reupload { first: blob }
            } else {
                EmailStep::Settled(
                    fail(m, reads, error_type.as_str(), detail, Some(blob.as_str()), stamp),
                )
            },
            Err(t) => EmailStep::Settled(
                fail(m, reads, "sendFailed", trouble(&t), Some(blob.as_str()), stamp),
            ),
        },
    }
}

/// What can happen to a message whose bytes are uploaded again.
pub enum RetryEvent {
    Reuploaded(Result<String, Trouble>),
    Reimported { blob: String, result: Result<SingleImport, Trouble> },
    Probed { blob: String, error_type: String, detail: String, lookup: Result<BlobLookup, String> },
}

/// What follows for a message whose bytes, first uploaded as `first`, the target
/// missed.
pub open spec fn retry_view(
    m: EmailRow,
    maps: Maps,
    first: Seq<char>,
    reads: BlobReads,
    event: RetryEvent,
    stamp: Seq<char>,
) -> StepView {
    match event {
        RetryEvent::Reuploaded(Err(t)) => StepView::Settled(
            fails(
                m,
                reads,
                "blobUploadFailed"@,
                "re-upload after blobNotFound: "@ + trouble_text(t),
                Some(first),
                stamp,
            ),
        ),
        RetryEvent::Reuploaded(Ok(blob)) => match mailboxes_of(
            maps,
            m.mailbox_locals@,
            m.mailbox_locals@.len(),
        ) {
            None => StepView::Settled(
                fails(m, reads, "mailboxNotOnTarget"@, no_mailbox(), Some(blob@), stamp),
            ),
            Some(boxes) => StepView::Import { item: item_view(m, boxes, blob@), blob: blob@ },
        },
        RetryEvent::Reimported { blob, result } => match result {
            Ok(SingleImport::Created) => StepView::Settled(on_target(m.local, Tally::Created, None)),
            Ok(SingleImport::Skipped) => StepView::Settled(on_target(m.local, Tally::Skipped, None)),
            Ok(SingleImport::NotCreated { error_type, detail }) => if error_type@ == "blobNotFound"@ {
                StepView::Probe { blob: blob@, error_type: error_type@, detail: detail@ }
            } else {
                StepView::Settled(fails(m, reads, error_type@, detail@, Some(blob@), stamp))
            },
            Err(t) => StepView::Settled(
                fails(
                    m,
                    reads,
                    "sendFailed"@,
                    "after blob re-upload: "@ + trouble_text(t),
                    Some(blob@),
                    stamp,
                ),
            ),
        },
        RetryEvent::Probed { blob, error_type, detail, lookup } => {
            let (state, remark) = probe_of(lookup_text(lookup), blob@);
            let told = match remark {
                Some(t) => detail@ + "; blob probe: "@ + t,
                None => detail@,
            };
            let item = failed_message(m, reads, error_type@, told, Some(blob@), stamp);
            StepView::Settled(failed(m.local, FailedView { blob_probe: state, ..item }, None))
        },
    }
}

/// Decides what follows for a message whose bytes the target missed; see
/// [`retry_view`].
pub fn retry_after_reupload(
    m: &EmailRow,
    maps: &Maps,
    first_blob: &str,
    reads: BlobReads,
    event: RetryEvent,
    stamp: &str,
) -> (r: EmailStep)
    requires
        reads_ok(Some(reads)),
    ensures
        r@ == retry_view(*m, *maps, first_blob@, reads, event, stamp@),
{
    match event {
        RetryEvent::Reuploaded(Err(t)) => EmailStep::Settled(
            fail(
                m,
                reads,
                "blobUploadFailed",
                text::joined("re-upload after blobNotFound: ", trouble(&t).as_str()),
                Some(first_blob),
                stamp,
            ),
        ),
        RetryEvent::Reuploaded(Ok(blob)) => match build_mailbox_ids(m, maps) {
            None => EmailStep::Settled(
                fail(
                    m,
                    reads,
                    "mailboxNotOnTarget",
                    "the mailbox holding this message was not created on the target".to_owned(),
                    Some(blob.as_str()),
                    stamp,
                ),
            ),
            Some(boxes) => EmailStep::Import { item: import_item(m, boxes, blob.as_str()), blob },
        },
        RetryEvent::Reimported { blob, result } => match result {
            Ok(SingleImport::Created) => EmailStep::Settled(arrived(m.local, Tally::Created, None)),
            Ok(SingleImport::Skipped) => EmailStep::Settled(arrived(m.local, Tally::Skipped, None)),
            Ok(SingleImport::NotCreated { error_type, detail }) => if text::same(
                error_type.as_str(),
                "blobNotFound",
            ) {
                EmailStep::Probe { blob, error_type, detail }
            } else {
                EmailStep::Settled(
                    fail(m, reads, error_type.as_str(), detail, Some(blob.as_str()), stamp),
                )
            },
            Err(t) => EmailStep::Settled(
                fail(
                    m,
                    reads,
                    "sendFailed",
                    text::joined("after blob re-upload: ", trouble(&t).as_str()),
                    Some(blob.as_str()),
                    stamp,
                ),
            ),
        },
        RetryEvent::Probed { blob, error_type, detail, lookup } => {
            let (state, remark) = classify_blob(lookup, blob.as_str());
            let told = match remark {
                Some(t) => text::joined3(detail.as_str(), "; blob probe: ", t.as_str()),
                None => detail,
            };
            let mut item = failed_item(m, reads, error_type.as_str(), told, Some(blob.as_str()), stamp);
            item.blob_probe = state;
            EmailStep::Settled(failure(m.local, item, None))
        },
    }
}

/// Every settled message is accounted for: it counts as failed exactly where a
/// row tells why.
pub proof fn messages_are_accounted_for(
    m: EmailRow,
    maps: Maps,
    dry_run: bool,
    first: Seq<char>,
    reads: BlobReads,
    event: EmailEvent,
    again: RetryEvent,
    stamp: Seq<char>,
)
    ensures
        export_view(m, maps, dry_run, reads, event, stamp) matches StepView::Settled(v) ==> v.accounted()
            && v.local == m.local,
        retry_view(m, maps, first, reads, again, stamp) matches StepView::Settled(v) ==> v.accounted() && v.local
            == m.local,
{
}

/// A dry run imports nothing: a message is settled as soon as something stands for
/// its upload.
pub proof fn a_dry_run_imports_nothing(m: EmailRow, maps: Maps, reads: BlobReads, event: EmailEvent, stamp: Seq<char>)
    requires
        event !is Imported,
    ensures
        export_view(m, maps, true, reads, event, stamp) is Settled || (event is Begin && export_view(
            m,
            maps,
            true,
            reads,
            event,
            stamp,
        ) is Upload),
{
}

/// A message ends: it is uploaded at most twice and imported at most twice.
/// `stage` is 0 before the first upload, 1 before the first import, 2 before the
/// second upload, 3 before the second import, 4 before the probe.
pub open spec fn stage(s: StepView, retrying: bool) -> int {
    match s {
        StepView::Upload => 0,
        StepView::Import { .. } => if retrying {
            3
        } else {
            1
        },
        StepView::Reupload { .. } => 2,
        StepView::Probe { .. } => 4,
        StepView::Settled(_) => 5,
    }
}

/// Each event takes a message a stage further.
pub proof fn messages_make_progress(
    m: EmailRow,
    maps: Maps,
    dry_run: bool,
    first: Seq<char>,
    reads: BlobReads,
    event: EmailEvent,
    again: RetryEvent,
    stamp: Seq<char>,
)
    ensures
        ({
            let next = stage(export_view(m, maps, dry_run, reads, event, stamp), false);
            match event {
                EmailEvent::Begin => next >= 0,
                EmailEvent::Uploaded(_) => next > 0,
                EmailEvent::Imported { .. } => next > 1,
            }
        }),
        ({
            let next = stage(retry_view(m, maps, first, reads, again, stamp), true);
            match again {
                RetryEvent::Reuploaded(_) => next > 2,
                RetryEvent::Reimported { .. } => next > 3,
                RetryEvent::Probed { .. } => next > 4,
            }
        }),
{
}

} // verus!
