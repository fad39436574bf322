//! Exporting messages.

use vstd::prelude::*;
use vstd::string::*;

use crate::jmap::blobxfer::BlobLookup;
use crate::json::{json_compact, JsonView};
use crate::sync::export::common::{EntryView, Maps, Tally, VerdictView};
use crate::sync::export::email::{
    completed_index, export_view, hint_text, import_args, import_id, import_result, index_of, keywords_of,
    mailboxes_of, retry_view, size_text, texts_in, addresses_in, trouble_text, unnamed, EmailEvent, EmailRow,
    ImportView, RetryEvent, SingleImport, StepView, Trouble,
};
use crate::sync::export::quarantine::BlobReads;
use crate::text;
use crate::types::ObjectType;

verus! {

/// Whether every mailbox of a message has a counterpart on the target.
pub open spec fn housed(maps: Maps, locals: Seq<i64>) -> bool {
    forall|i: int|
        #![trigger locals[i]]
        0 <= i < locals.len() ==> maps.stands_for(ObjectType::Mailbox, locals[i]) is Some
}

/// Whether an object binds the counterparts of some mailboxes to true, and nothing
/// else.
pub open spec fn houses(maps: Maps, locals: Seq<i64>, m: Map<Seq<char>, JsonView>) -> bool {
    &&& forall|i: int|
        #![trigger locals[i]]
        0 <= i < locals.len() ==> (maps.stands_for(ObjectType::Mailbox, locals[i]) matches Some(id)
            && m.dom().contains(id) && m[id] == JsonView::Bool(true))
    &&& forall|k: Seq<char>| #[trigger]
        m.dom().contains(k) ==> exists|i: int|
            0 <= i < locals.len() && maps.stands_for(ObjectType::Mailbox, #[trigger] locals[i]) == Some(k)
}

proof fn lemma_mailboxes(maps: Maps, locals: Seq<i64>, n: nat)
    requires
        n <= locals.len(),
    ensures
        mailboxes_of(maps, locals, n) is Some <==> housed(maps, locals.take(n as int)),
        mailboxes_of(maps, locals, n) matches Some(m) ==> houses(maps, locals.take(n as int), m),
    decreases n,
{
    let part = locals.take(n as int);
    if n > 0 {
        let before = locals.take(n - 1);
        lemma_mailboxes(maps, locals, (n - 1) as nat);
        assert(part[n - 1] == locals[n - 1]);
        assert forall|i: int| 0 <= i < n - 1 implies #[trigger] part[i] == before[i] by {}
        if housed(maps, part) {
            assert forall|i: int| #![trigger before[i]] 0 <= i < before.len() implies maps.stands_for(
                ObjectType::Mailbox,
                before[i],
            ) is Some by {
                assert(part[i] == before[i]);
            }
        }
        if mailboxes_of(maps, locals, n) is Some {
            let old = mailboxes_of(maps, locals, (n - 1) as nat)->0;
            let m = mailboxes_of(maps, locals, n)->0;
            let id = maps.stands_for(ObjectType::Mailbox, locals[n - 1])->0;
            assert forall|i: int| #![trigger part[i]] 0 <= i < part.len() implies (maps.stands_for(
                ObjectType::Mailbox,
                part[i],
            ) matches Some(id) && m.dom().contains(id) && m[id] == JsonView::Bool(true)) by {
                if i < n - 1 {
                    assert(part[i] == before[i]);
                }
            }
            assert forall|k: Seq<char>| #[trigger] m.dom().contains(k) implies exists|i: int|
                0 <= i < part.len() && maps.stands_for(ObjectType::Mailbox, #[trigger] part[i]) == Some(k) by {
                if k == id {
                    assert(maps.stands_for(ObjectType::Mailbox, part[n - 1]) == Some(k));
                } else {
                    assert(old.dom().contains(k));
                    let i = choose|i: int|
                        0 <= i < before.len() && maps.stands_for(ObjectType::Mailbox, #[trigger] before[i]) == Some(k);
                    assert(part[i] == before[i]);
                }
            }
        }
    }
}

/// A message stays in all its mailboxes: it can be placed exactly where each of them
/// has a counterpart, and then it is placed in all the counterparts and in nothing
/// else.
pub proof fn messages_stay_in_all_their_mailboxes(maps: Maps, locals: Seq<i64>)
    ensures
        mailboxes_of(maps, locals, locals.len()) is Some <==> housed(maps, locals),
        mailboxes_of(maps, locals, locals.len()) matches Some(m) ==> houses(maps, locals, m),
{
    lemma_mailboxes(maps, locals, locals.len());
    assert(locals.take(locals.len() as int) =~= locals);
}

/// A message keeps its keywords: each of them is set, and no other.
pub proof fn messages_keep_their_keywords(k: Seq<Seq<char>>, n: nat, word: Seq<char>)
    requires
        n <= k.len(),
    ensures
        keywords_of(k, n).dom().contains(word) <==> k.take(n as int).contains(word),
        keywords_of(k, n).dom().contains(word) ==> keywords_of(k, n)[word] == JsonView::Bool(true),
    decreases n,
{
    let part = k.take(n as int);
    if n > 0 {
        let before = k.take(n - 1);
        messages_keep_their_keywords(k, (n - 1) as nat, word);
        assert(part =~= before.push(k[n - 1]));
        assert(part[n - 1] == k[n - 1]);
        if before.contains(word) {
            let i = choose|i: int| 0 <= i < before.len() && before[i] == word;
            assert(part[i] == word);
        }
        if part.contains(word) && word != k[n - 1] {
            let i = choose|i: int| 0 <= i < part.len() && part[i] == word;
            assert(before[i] == word);
        }
    } else {
        assert(part.len() == 0);
    }
}

/// Whether an item imports a message with its bytes, mailboxes, keywords and date, and
/// says nothing else.
pub open spec fn imports(m: EmailRow, maps: Maps, blob: Seq<char>, item: Map<Seq<char>, JsonView>) -> bool {
    &&& forall|k: Seq<char>| #[trigger]
        item.dom().contains(k) <==> k == "blobId"@ || k == "mailboxIds"@ || k == "keywords"@ || k == "receivedAt"@
    &&& item["blobId"@] == JsonView::Str(blob)
    &&& item["receivedAt"@] == JsonView::Str(m.received_at@)
    &&& item["mailboxIds"@] matches JsonView::Object(boxes) && houses(maps, m.mailbox_locals@, boxes)
    &&& item["keywords"@] matches JsonView::Object(words) && (forall|w: Seq<char>| #[trigger]
        words.dom().contains(w) <==> text::texts(m.keywords@).contains(w)) && (forall|w: Seq<char>| #[trigger]
        words.dom().contains(w) ==> words[w] == JsonView::Bool(true))
}

proof fn lemma_item(m: EmailRow, maps: Maps, boxes: Map<Seq<char>, JsonView>, blob: Seq<char>)
    requires
        mailboxes_of(maps, m.mailbox_locals@, m.mailbox_locals@.len()) == Some(boxes),
    ensures
        imports(m, maps, blob, crate::sync::export::email::item_view(m, boxes, blob)),
{
    reveal_strlit("blobId");
    reveal_strlit("mailboxIds");
    reveal_strlit("keywords");
    reveal_strlit("receivedAt");
    assert("mailboxIds"@[0] != "receivedAt"@[0]);
    assert("blobId"@.len() != "mailboxIds"@.len());
    assert("blobId"@.len() != "keywords"@.len());
    assert("blobId"@.len() != "receivedAt"@.len());
    assert("keywords"@.len() != "mailboxIds"@.len());
    assert("keywords"@.len() != "receivedAt"@.len());
    messages_stay_in_all_their_mailboxes(maps, m.mailbox_locals@);
    let item = crate::sync::export::email::item_view(m, boxes, blob);
    let all = text::texts(m.keywords@);
    let words = keywords_of(all, all.len());
    assert(all.take(all.len() as int) =~= all);
    assert forall|w: Seq<char>| #[trigger] words.dom().contains(w) <==> all.contains(w) by {
        messages_keep_their_keywords(all, all.len(), w);
    }
    assert forall|w: Seq<char>| #[trigger] words.dom().contains(w) implies words[w] == JsonView::Bool(true) by {
        messages_keep_their_keywords(all, all.len(), w);
    }
    assert(item["keywords"@] == JsonView::Object(words));
    assert(item["mailboxIds"@] == JsonView::Object(boxes));
}

/// A message whose mailboxes are all on the target is uploaded, then imported with its
/// bytes, all its mailboxes, its keywords and its date; in a dry run it counts as
/// created instead. The same holds once its bytes were uploaded again.
pub proof fn messages_are_imported_whole(
    m: EmailRow,
    maps: Maps,
    first: Seq<char>,
    reads: BlobReads,
    blob: String,
    stamp: Seq<char>,
)
    requires
        housed(maps, m.mailbox_locals@),
    ensures
        export_view(m, maps, false, reads, EmailEvent::Begin, stamp) is Upload,
        export_view(m, maps, true, reads, EmailEvent::Begin, stamp) is Upload,
        export_view(m, maps, false, reads, EmailEvent::Uploaded(Ok(blob)), stamp) matches StepView::Import {
            item,
            blob: b,
        } && b == blob@ && imports(m, maps, blob@, item),
        export_view(m, maps, true, reads, EmailEvent::Uploaded(Ok(blob)), stamp) matches StepView::Settled(v)
            && v.tally == Tally::Created && v.entry is Keep && v.local == m.local,
        retry_view(m, maps, first, reads, RetryEvent::Reuploaded(Ok(blob)), stamp) matches StepView::Import {
            item,
            blob: b,
        } && b == blob@ && imports(m, maps, blob@, item),
{
    messages_stay_in_all_their_mailboxes(maps, m.mailbox_locals@);
    let boxes = mailboxes_of(maps, m.mailbox_locals@, m.mailbox_locals@.len())->0;
    lemma_item(m, maps, boxes, blob@);
}

/// What a settled message is recorded with: its number, its Message-ID, the error, and
/// what the archive knows of its bytes.
pub open spec fn records(
    v: VerdictView,
    m: EmailRow,
    reads: BlobReads,
    kind: Seq<char>,
    detail: Seq<char>,
    blob: Option<Seq<char>>,
    stamp: Seq<char>,
) -> bool {
    &&& v.local == m.local
    &&& v.tally == Tally::Failed
    &&& v.target is None
    &&& v.entry matches EntryView::Record(item) && {
        &&& item.type_token == "email"@
        &&& item.local_id == m.local
        &&& item.client_id == "e"@ + text::integer_text(m.local as int)
        &&& item.message_id == text::opt_text(m.message_id)
        &&& item.blob_local_id == Some(reads.blob_local_id)
        &&& item.error_type == kind
        &&& item.target_blob_id == blob
        &&& item.failed_at == stamp
        &&& reads.len matches Ok(Some(n)) ==> item.size_bytes == Some(n as i64)
        &&& reads.hash matches Ok(Some(h)) ==> item.blob_hash == Some(h@)
        &&& reads.len is Ok && reads.hash is Ok ==> item.error_detail == detail
        &&& reads.len is Err || reads.hash is Err ==> text::begins(item.error_detail, detail)
    }
}

proof fn lemma_begins(a: Seq<char>, b: Seq<char>)
    ensures
        text::begins(a + b, a),
{
    assert((a + b).take(a.len() as int) =~= a);
}

proof fn lemma_records(
    m: EmailRow,
    reads: BlobReads,
    kind: Seq<char>,
    detail: Seq<char>,
    blob: Option<Seq<char>>,
    stamp: Seq<char>,
)
    requires
        kind.len() > 0,
    ensures
        records(crate::sync::export::email::fails(m, reads, kind, detail, blob, stamp), m, reads, kind, detail, blob, stamp),
{
    let id = crate::sync::export::quarantine::identity_of(reads.len, reads.hash);
    match id.read_error {
        Some(p) => {
            let tail = "; blob metadata unreadable ("@ + (p + ")"@);
            assert(detail + "; blob metadata unreadable ("@ + (p + ")"@) =~= detail + tail);
            lemma_begins(detail, tail);
        },
        None => {},
    }
}

/// A message ends as the target says. One that is created or already there resolves
/// its row; one whose bytes the target misses is uploaded again; any other refusal, an
/// upload or a request that fails, and a mailbox that is missing, are recorded under
/// the message with the reason.
pub proof fn messages_end_as_the_target_says(
    m: EmailRow,
    maps: Maps,
    dry_run: bool,
    reads: BlobReads,
    blob: String,
    kind: String,
    detail: String,
    t: Trouble,
    stamp: Seq<char>,
)
    ensures
        ({
            let created = EmailEvent::Imported { blob, result: Ok(SingleImport::Created) };
            let skipped = EmailEvent::Imported { blob, result: Ok(SingleImport::Skipped) };
            let refused = EmailEvent::Imported { blob, result: Ok(SingleImport::NotCreated { error_type: kind, detail }) };
            let failed = EmailEvent::Imported { blob, result: Err(t) };
            let ok = housed(maps, m.mailbox_locals@);
            &&& ok ==> (export_view(m, maps, dry_run, reads, created, stamp) matches StepView::Settled(v) && v.tally
                == Tally::Created && v.entry is Resolve && v.local == m.local)
            &&& ok ==> (export_view(m, maps, dry_run, reads, skipped, stamp) matches StepView::Settled(v) && v.tally
                == Tally::Skipped && v.entry is Resolve && v.local == m.local)
            &&& ok && kind@ == "blobNotFound"@ ==> export_view(m, maps, dry_run, reads, refused, stamp)
                == StepView::Reupload { first: blob@ }
            &&& ok && kind@ != "blobNotFound"@ && kind@.len() > 0 ==> (export_view(m, maps, dry_run, reads, refused, stamp)
                matches StepView::Settled(v) && records(v, m, reads, kind@, detail@, Some(blob@), stamp))
            &&& ok ==> (export_view(m, maps, dry_run, reads, failed, stamp) matches StepView::Settled(v) && records(
                v,
                m,
                reads,
                "sendFailed"@,
                trouble_text(t),
                Some(blob@),
                stamp,
            ))
            &&& ok ==> (export_view(m, maps, dry_run, reads, EmailEvent::Uploaded(Err(t)), stamp)
                matches StepView::Settled(v) && records(v, m, reads, "blobUploadFailed"@, trouble_text(t), None, stamp))
            &&& !ok ==> (export_view(m, maps, dry_run, reads, EmailEvent::Begin, stamp) matches StepView::Settled(v)
                && records(
                v,
                m,
                reads,
                "mailboxNotOnTarget"@,
                "the mailbox holding this message was not created on the target"@,
                None,
                stamp,
            ))
        }),
{
    reveal_strlit("sendFailed");
    reveal_strlit("blobUploadFailed");
    reveal_strlit("mailboxNotOnTarget");
    messages_stay_in_all_their_mailboxes(maps, m.mailbox_locals@);
    if kind@.len() > 0 {
        lemma_records(m, reads, kind@, detail@, Some(blob@), stamp);
    }
    lemma_records(m, reads, "sendFailed"@, trouble_text(t), Some(blob@), stamp);
    lemma_records(m, reads, "blobUploadFailed"@, trouble_text(t), None, stamp);
    lemma_records(
        m,
        reads,
        "mailboxNotOnTarget"@,
        "the mailbox holding this message was not created on the target"@,
        None,
        stamp,
    );
}

/// A message that was uploaded a second time ends as the target then says. Where the
/// target still misses the bytes, it is asked for them, and the row tells what it
/// answered.
pub proof fn second_attempts_end_as_the_target_says(
    m: EmailRow,
    maps: Maps,
    first: Seq<char>,
    reads: BlobReads,
    blob: String,
    kind: String,
    detail: String,
    t: Trouble,
    lookup: Result<BlobLookup, String>,
    stamp: Seq<char>,
)
    ensures
        ({
            let created = RetryEvent::Reimported { blob, result: Ok(SingleImport::Created) };
            let skipped = RetryEvent::Reimported { blob, result: Ok(SingleImport::Skipped) };
            let refused = RetryEvent::Reimported { blob, result: Ok(SingleImport::NotCreated { error_type: kind, detail }) };
            let failed = RetryEvent::Reimported { blob, result: Err(t) };
            let asked = RetryEvent::Probed { blob, error_type: kind, detail, lookup };
            &&& retry_view(m, maps, first, reads, created, stamp) matches StepView::Settled(v) && v.tally
                == Tally::Created && v.entry is Resolve && v.local == m.local
            &&& retry_view(m, maps, first, reads, skipped, stamp) matches StepView::Settled(v) && v.tally
                == Tally::Skipped && v.entry is Resolve && v.local == m.local
            &&& kind@ == "blobNotFound"@ ==> retry_view(m, maps, first, reads, refused, stamp) == (StepView::Probe {
                blob: blob@,
                error_type: kind@,
                detail: detail@,
            })
            &&& kind@ != "blobNotFound"@ && kind@.len() > 0 ==> (retry_view(m, maps, first, reads, refused, stamp)
                matches StepView::Settled(v) && records(v, m, reads, kind@, detail@, Some(blob@), stamp))
            &&& retry_view(m, maps, first, reads, failed, stamp) matches StepView::Settled(v) && records(
                v,
                m,
                reads,
                "sendFailed"@,
                "after blob re-upload: "@ + trouble_text(t),
                Some(blob@),
                stamp,
            )
            &&& retry_view(m, maps, first, reads, RetryEvent::Reuploaded(Err(t)), stamp) matches StepView::Settled(v)
                && records(
                v,
                m,
                reads,
                "blobUploadFailed"@,
                "re-upload after blobNotFound: "@ + trouble_text(t),
                Some(first),
                stamp,
            )
            &&& !housed(maps, m.mailbox_locals@) ==> (retry_view(
                m,
                maps,
                first,
                reads,
                RetryEvent::Reuploaded(Ok(blob)),
                stamp,
            ) matches StepView::Settled(v) && records(
                v,
                m,
                reads,
                "mailboxNotOnTarget"@,
                "the mailbox holding this message was not created on the target"@,
                Some(blob@),
                stamp,
            ))
            &&& kind@.len() > 0 ==> (retry_view(m, maps, first, reads, asked, stamp) matches StepView::Settled(v)
                && v.tally == Tally::Failed && v.local == m.local && (v.entry matches EntryView::Record(item)
                && item.local_id == m.local && item.error_type == kind@ && item.target_blob_id == Some(blob@)
                && item.blob_probe == (match lookup {
                Ok(BlobLookup::NotFound) => "orphaned_marker"@,
                Ok(BlobLookup::Found { .. }) => "retrievable"@,
                Ok(BlobLookup::Unsupported) => "unsupported"@,
                Err(_) => "store_unavailable"@,
            }) && (reads.len is Ok && reads.hash is Ok && (lookup matches Err(e)) ==> item.error_detail == detail@
                + "; blob probe: "@ + lookup->Err_0@)))
        }),
{
    reveal_strlit("sendFailed");
    reveal_strlit("blobUploadFailed");
    reveal_strlit("mailboxNotOnTarget");
    messages_stay_in_all_their_mailboxes(maps, m.mailbox_locals@);
    if kind@.len() > 0 {
        lemma_records(m, reads, kind@, detail@, Some(blob@), stamp);
    }
    lemma_records(m, reads, "sendFailed"@, "after blob re-upload: "@ + trouble_text(t), Some(blob@), stamp);
    lemma_records(m, reads, "blobUploadFailed"@, "re-upload after blobNotFound: "@ + trouble_text(t), Some(first), stamp);
    lemma_records(
        m,
        reads,
        "mailboxNotOnTarget"@,
        "the mailbox holding this message was not created on the target"@,
        Some(blob@),
        stamp,
    );
}

/// An error is reported as it is shown, and one that a size limit caused says so
/// besides.
pub proof fn size_limits_are_told(t: Trouble)
    ensures
        text::begins(trouble_text(t), t.shown@),
        trouble_text(t) == t.shown@ <==> !(t.error@ is RequestTooLarge || t.error@ is SingleObjectTooLarge),
{
    reveal_strlit("");
    reveal_strlit("; exceeds the target server size limit, so this message is skipped and re-running will not migrate it");
    lemma_begins(t.shown@, size_text(t.error@));
    if !(t.error@ is RequestTooLarge || t.error@ is SingleObjectTooLarge) {
        assert(trouble_text(t) =~= t.shown@);
    } else {
        assert(trouble_text(t).len() > t.shown@.len());
    }
}

/// A call imports one message, under its own id, into the account.
pub proof fn calls_import_one_message(account: Seq<char>, local: i64, item: Map<Seq<char>, JsonView>)
    ensures
        ({
            let args = import_args(account, import_id(local), item);
            &&& import_id(local) == "e"@ + text::integer_text(local as int)
            &&& args.dom().contains("accountId"@) && args["accountId"@] == JsonView::Str(account)
            &&& args.dom().contains("emails"@) && (args["emails"@] matches JsonView::Object(emails)
                && emails.dom().contains(import_id(local)) && emails[import_id(local)] == JsonView::Object(item)
                && forall|k: Seq<char>| #[trigger] emails.dom().contains(k) ==> k == import_id(local))
        }),
{
    reveal_strlit("accountId");
    reveal_strlit("emails");
    assert("accountId"@.len() != "emails"@.len());
    let args = import_args(account, import_id(local), item);
    assert(args["accountId"@] == JsonView::Str(account));
    let emails = args["emails"@]->Object_0;
    assert(emails.dom().contains(import_id(local)));
}

/// What the answer to an import says of a message: refused where the target says so,
/// with the type and the text of its error; there already where that is the error;
/// else created where anything was; else neither.
pub proof fn answers_to_imports_are_read(
    args: Map<Seq<char>, JsonView>,
    refused: Map<Seq<char>, JsonView>,
    made: Map<Seq<char>, JsonView>,
    cid: Seq<char>,
    other: Seq<char>,
)
    ensures
        ({
            let says_no = args.dom().contains("notCreated"@) && args["notCreated"@] == JsonView::Object(refused)
                && refused.dom().contains(cid);
            let says_nothing = !args.dom().contains("notCreated"@);
            let result = import_result(JsonView::Object(args), cid);
            &&& says_no && refused[cid].text_at("type"@) == Some("alreadyExists"@) ==> result is Skipped
            &&& says_no && refused[cid].text_at("type"@) is Some && refused[cid].text_at("type"@) != Some(
                "alreadyExists"@,
            ) ==> result == (ImportView::NotCreated {
                error_type: refused[cid].text_at("type"@)->0,
                detail: json_compact(refused[cid]),
            })
            &&& says_nothing && args.dom().contains("created"@) && args["created"@] == JsonView::Object(made)
                && made.dom().contains(other) ==> result is Created
            &&& says_nothing && !args.dom().contains("created"@) ==> (result matches ImportView::NotCreated {
                error_type,
                detail,
            } && error_type.len() == 0)
        }),
{
    if made.dom().contains(other) {
        assert(made != Map::<Seq<char>, JsonView>::empty());
    }
}

proof fn lemma_texts_in(v: Seq<JsonView>, n: nat, t: Seq<char>)
    requires
        n <= v.len(),
    ensures
        texts_in(v, n).contains(t) <==> v.take(n as int).contains(JsonView::Str(t)),
        (texts_in(v, n).len() == 0) <==> forall|i: int| 0 <= i < n ==> !(#[trigger] v[i] is Str),
    decreases n,
{
    let part = v.take(n as int);
    if n > 0 {
        lemma_texts_in(v, (n - 1) as nat, t);
        let before = v.take(n - 1);
        let old = texts_in(v, (n - 1) as nat);
        let now = texts_in(v, n);
        assert(part[n - 1] == v[n - 1]);
        if before.contains(JsonView::Str(t)) {
            let i = choose|i: int| 0 <= i < before.len() && before[i] == JsonView::Str(t);
            assert(part[i] == JsonView::Str(t));
            let k = choose|k: int| 0 <= k < old.len() && old[k] == t;
            assert(now[k] == t);
        }
        if v[n - 1] == JsonView::Str(t) {
            assert(now[now.len() - 1] == t);
        }
        if part.contains(JsonView::Str(t)) {
            let i = choose|i: int| 0 <= i < part.len() && part[i] == JsonView::Str(t);
            if i < n - 1 {
                assert(before[i] == JsonView::Str(t));
            }
        }
        if now.contains(t) {
            let k = choose|k: int| 0 <= k < now.len() && now[k] == t;
            if k < old.len() {
                assert(old[k] == t);
            }
        }
    } else {
        assert(part.len() == 0);
    }
}

/// Messages of the target are told apart by all their Message-IDs; each that the
/// target lists is one, and nothing else is.
pub proof fn message_ids_are_read(m: Map<Seq<char>, JsonView>, ids: Seq<JsonView>, t: Seq<char>)
    requires
        m.dom().contains("messageId"@),
        m["messageId"@] == JsonView::Array(ids),
    ensures
        index_of(JsonView::Object(m)).mids.contains(t) <==> ids.contains(JsonView::Str(t)),
        m.dom().contains("subject"@) && m["subject"@] == JsonView::Str(t) ==> index_of(JsonView::Object(m)).subject == t,
        m.dom().contains("sentAt"@) && m["sentAt"@] == JsonView::Str(t) ==> index_of(JsonView::Object(m)).sent_at == t,
{
    lemma_texts_in(ids, ids.len(), t);
    assert(ids.take(ids.len() as int) =~= ids);
}

/// The senders and recipients of a message of the target are read, in their order.
pub proof fn addresses_are_read(m: Map<Seq<char>, JsonView>, list: Seq<Seq<char>>, k: Seq<char>)
    requires
        k == "from"@ || k == "to"@,
        m.dom().contains(k),
        m[k] == JsonView::Array(
            Seq::new(
                list.len(),
                |j: int|
                    JsonView::Object(Map::<Seq<char>, JsonView>::empty().insert("email"@, JsonView::Str(list[j]))),
            ),
        ),
    ensures
        k == "from"@ ==> index_of(JsonView::Object(m)).from == list,
        k == "to"@ ==> index_of(JsonView::Object(m)).to == list,
{
    let v = m[k]->Array_0;
    lemma_addresses(v, list, list.len());
    assert(list.take(list.len() as int) =~= list);
}

proof fn lemma_addresses(v: Seq<JsonView>, list: Seq<Seq<char>>, n: nat)
    requires
        n <= list.len(),
        v == Seq::new(
            list.len(),
            |j: int| JsonView::Object(Map::<Seq<char>, JsonView>::empty().insert("email"@, JsonView::Str(list[j]))),
        ),
    ensures
        addresses_in(v, n) == list.take(n as int),
    decreases n,
{
    if n > 0 {
        lemma_addresses(v, list, (n - 1) as nat);
        assert(v[n - 1].text_at("email"@) == Some(list[n - 1]));
        assert(list.take(n as int) =~= list.take(n - 1).push(list[n - 1]));
    } else {
        assert(list.take(0) =~= Seq::<Seq<char>>::empty());
    }
}

/// A message is asked for once more exactly where it has an id and came without any
/// Message-ID.
pub proof fn messages_without_a_name_are_asked_for_again(v: Seq<JsonView>, n: nat, id: Seq<char>)
    requires
        n <= v.len(),
    ensures
        unnamed(v, n).contains(id) <==> exists|i: int|
            0 <= i < n && (#[trigger] v[i]).text_at("id"@) == Some(id) && (v[i].array_at("messageId"@) matches Some(a)
                ==> forall|j: int| 0 <= j < a.len() ==> !(#[trigger] a[j] is Str)),
    decreases n,
{
    if n > 0 {
        messages_without_a_name_are_asked_for_again(v, (n - 1) as nat, id);
        let old = unnamed(v, (n - 1) as nat);
        let now = unnamed(v, n);
        let x = v[n - 1];
        match x.array_at("messageId"@) {
            Some(a) => lemma_texts_in(a, a.len(), id),
            None => {},
        }
        if old.contains(id) {
            let k = choose|k: int| 0 <= k < old.len() && old[k] == id;
            assert(now[k] == id);
        }
        if x.text_at("id"@) == Some(id) && index_of(x).mids.len() == 0 {
            assert(now[now.len() - 1] == id);
        }
        if now.contains(id) {
            let k = choose|k: int| 0 <= k < now.len() && now[k] == id;
            if k < old.len() {
                assert(old[k] == id);
            } else {
                assert(v[n - 1].text_at("id"@) == Some(id));
            }
        }
    }
}

/// What came for a message the second time is what tells it apart; where nothing came,
/// it is what came first.
pub proof fn second_answers_replace_the_first(v: JsonView, full: Seq<JsonView>, id: Seq<char>, i: int)
    requires
        v.text_at("id"@) == Some(id),
        0 <= i < full.len(),
        full[i].text_at("id"@) == Some(id),
        forall|j: int| 0 <= j < full.len() && j != i ==> (#[trigger] full[j]).text_at("id"@) != Some(id),
    ensures
        completed_index(v, full) == index_of(full[i]),
        completed_index(v, Seq::empty()) == index_of(v),
{
    lemma_last_with_id(full, id, full.len(), i);
}

proof fn lemma_last_with_id(list: Seq<JsonView>, id: Seq<char>, n: nat, i: int)
    requires
        0 <= i < n <= list.len(),
        list[i].text_at("id"@) == Some(id),
        forall|j: int| 0 <= j < list.len() && j != i ==> (#[trigger] list[j]).text_at("id"@) != Some(id),
    ensures
        crate::sync::export::uidtype::last_with_id(list, id, n) == Some(list[i]),
    decreases n,
{
    if n - 1 != i {
        lemma_last_with_id(list, id, (n - 1) as nat, i);
    }
}

/// A warning names the message by its Message-ID and, where it could be read, its size.
pub proof fn warnings_name_the_message(mid: Seq<char>, shown: Seq<char>, why: Seq<char>)
    ensures
        hint_text(Some(mid), Ok(Some(shown))) == "message-id <"@ + mid + ">, "@ + shown,
        hint_text(Some(mid), Ok(None)) == "message-id <"@ + mid + ">"@,
        hint_text(Some(mid), Err(why)) == "message-id <"@ + mid + ">, size unreadable: "@ + why,
        hint_text(None, Ok(Some(shown))) == "no message-id, "@ + shown,
        hint_text(None, Ok(None)) == "no message-id"@,
{
    reveal_strlit("message-id <");
    reveal_strlit(">");
    reveal_strlit(", ");
    reveal_strlit(">, ");
    reveal_strlit(", size unreadable: ");
    reveal_strlit(">, size unreadable: ");
    reveal_strlit("no message-id");
    reveal_strlit("no message-id, ");
    assert(">"@ + ", "@ =~= ">, "@);
    assert(">"@ + ", size unreadable: "@ =~= ">, size unreadable: "@);
    assert("no message-id"@ + ", "@ =~= "no message-id, "@);
    let head = "message-id <"@ + mid;
    assert(head + ">"@ + ", "@ + shown =~= head + (">"@ + ", "@) + shown);
    assert(head + ">"@ + ", size unreadable: "@ + why =~= head + (">"@ + ", size unreadable: "@) + why);
}

} // verus!
