//! What is recorded of objects that do not reach a target, and how objects are sent
//! and counted.

use vstd::prelude::*;
use vstd::string::*;

use crate::jmap::blobxfer::BlobLookup;
use crate::json::JsonView;
use crate::sync::export::common::{
    assumed, counted, create_args, create_missed, created_object, creation_id, entries, failed, lookup, lost,
    map_key, misses_blob, on_target, send_follows, sole, update_id, update_missed, EntryView, SendEvent, SendStep,
    SetOutcome, Tally, Uploader, VerdictView,
};
use crate::sync::export::quarantine::{
    dedup_text, first_error, local_failure_view, numbers, probe_of, probe_text, probed_view, refusal_error,
    refusal_view, BlobReads,
};
use crate::text;
use crate::types::{ObjectType, TypeCounts};

verus! {

/// What a target says of an id is what it says first.
pub proof fn the_first_entry_counts(s: Seq<(Seq<char>, JsonView)>, id: Seq<char>, n: nat, i: int)
    ensures
        n <= i < s.len() && s[i].0 == id && (forall|k: int| n <= k < i ==> (#[trigger] s[k]).0 != id) ==> lookup(
            s,
            id,
            n,
        ) == Some(s[i].1),
        (forall|k: int| n <= k < s.len() ==> (#[trigger] s[k]).0 != id) ==> lookup(s, id, n) is None,
    decreases s.len() - n,
{
    if n < s.len() && s[n as int].0 != id {
        the_first_entry_counts(s, id, n + 1, i);
    }
}

/// A failure is pinned on a blob exactly where the object was built from one alone.
pub proof fn blame_needs_a_single_blob(touched: Seq<i64>, b: i64)
    ensures
        sole(seq![b]) == Some(b),
        touched.len() != 1 ==> sole(touched) is None,
{
}

/// Ids of creations and updates hold the number of the object behind a letter; what
/// does not begin with the letter of creations names none.
pub proof fn ids_hold_the_number_of_the_object(local: i64, other: Seq<char>)
    ensures
        creation_id(local) == seq!['c'] + text::integer_text(local as int),
        update_id(local) == seq!['u'] + text::integer_text(local as int),
        other.len() == 0 || other[0] != 'c' ==> created_object(other) is None,
{
    reveal_strlit("c");
    reveal_strlit("u");
    assert("c"@ =~= seq!['c']);
    assert("u"@ =~= seq!['u']);
    if text::begins(other, "c"@) {
        assert(other[0] == "c"@[0]);
    }
}

/// A target misses a blob of an object where it says so of that object.
pub proof fn missing_blobs_are_noticed(refused: Seq<(Seq<char>, JsonView)>, cid: Seq<char>, i: int)
    ensures
        0 <= i < refused.len() && refused[i].0 == cid && refused[i].1.text_at("type"@) == Some("blobNotFound"@)
            ==> misses_blob(refused, cid),
        (forall|k: int|
            0 <= k < refused.len() && (#[trigger] refused[k]).0 == cid ==> refused[k].1.text_at("type"@) != Some(
                "blobNotFound"@,
            )) ==> !misses_blob(refused, cid),
{
}

/// Where a target misses a blob of an object, the object is built again, and the
/// uploads of its blobs are forgotten, and of no others. Any other answer is the one
/// that counts.
pub proof fn missed_blobs_are_uploaded_again(
    key: Seq<char>,
    touched: Seq<i64>,
    before: Uploader,
    o: SetOutcome,
    after: Uploader,
    step: SendStep,
    i: int,
    b: i64,
)
    ensures
        send_follows(key, create_missed(key), touched, before, SendEvent::Answered(o), after, step)
            ==> follows_from(key, touched, before, o, o.not_created@, after, step, i, b),
        send_follows(key, update_missed(key), touched, before, SendEvent::Answered(o), after, step)
            ==> follows_from(key, touched, before, o, o.not_updated@, after, step, i, b),
{
    lemma_told(o.not_created@, key, i);
    lemma_told(o.not_updated@, key, i);
    assert(create_missed(key)(o) == misses_blob(entries(o.not_created@), key));
    assert(update_missed(key)(o) == misses_blob(entries(o.not_updated@), key));
    if send_follows(key, create_missed(key), touched, before, SendEvent::Answered(o), after, step) {
        assert(follows_from(key, touched, before, o, o.not_created@, after, step, i, b));
    }
    if send_follows(key, update_missed(key), touched, before, SendEvent::Answered(o), after, step) {
        assert(follows_from(key, touched, before, o, o.not_updated@, after, step, i, b));
    }
}

/// What follows from an answer, given what the target says of the objects it refused:
/// a new build where the object is refused for a missing blob, else the end.
pub open spec fn follows_from(
    key: Seq<char>,
    touched: Seq<i64>,
    before: Uploader,
    o: SetOutcome,
    told: Seq<(String, crate::json::Json)>,
    after: Uploader,
    step: SendStep,
    i: int,
    b: i64,
) -> bool {
    &&& 0 <= i < told.len() && told[i].0@ == key && told[i].1@.text_at("type"@) == Some("blobNotFound"@) ==> step
        is Rebuild && (touched.contains(b) ==> after.known(b) is None) && (!touched.contains(b) ==> after.known(b)
        == before.known(b))
    &&& (forall|k: int|
        0 <= k < told.len() && (#[trigger] told[k]).0@ == key ==> told[k].1@.text_at("type"@) != Some(
            "blobNotFound"@,
        )) ==> step == (SendStep::Done { outcome: o, retry: None }) && after == before
}

proof fn lemma_told(told: Seq<(String, crate::json::Json)>, key: Seq<char>, i: int)
    ensures
        0 <= i < told.len() && told[i].0@ == key && told[i].1@.text_at("type"@) == Some("blobNotFound"@)
            ==> misses_blob(entries(told), key),
        (forall|k: int|
            0 <= k < told.len() && (#[trigger] told[k]).0@ == key ==> told[k].1@.text_at("type"@) != Some(
                "blobNotFound"@,
            )) ==> !misses_blob(entries(told), key),
{
    let all = entries(told);
    assert(forall|k: int| 0 <= k < told.len() ==> #[trigger] all[k] == (told[k].0@, told[k].1@));
    if 0 <= i < told.len() {
        assert(all[i] == (told[i].0@, told[i].1@));
    }
    if misses_blob(all, key) {
        let k = choose|k: int|
            0 <= k < all.len() && (#[trigger] all[k]).0 == key && all[k].1.text_at("type"@) == Some("blobNotFound"@);
        assert(told[k].0@ == key);
    }
    missing_blobs_are_noticed(all, key, i);
}

/// A rebuilt object is sent alone, under the same key; what the target answers the
/// second time counts, whatever it is, and what stopped the second attempt is told.
pub proof fn second_attempts_send_the_same_object(
    key: Seq<char>,
    missed: spec_fn(SetOutcome) -> bool,
    touched: Seq<i64>,
    before: Uploader,
    event: SendEvent,
    after: Uploader,
    step: SendStep,
)
    requires
        send_follows(key, missed, touched, before, event, after, step),
    ensures
        event matches SendEvent::Rebuilt { first, wire: Ok(wire) } ==> (step matches SendStep::Send { objects, retry }
            && objects@.len() == 1 && objects@[0].0@ == key && objects@[0].1@ == wire@),
        event matches SendEvent::Rebuilt { first, wire: Err(e) } ==> step == SendStep::Failed(e),
        event matches SendEvent::AnsweredAgain { retry, reply: Ok(o) } ==> step == (SendStep::Done {
            outcome: o,
            retry,
        }),
        event matches SendEvent::AnsweredAgain { retry, reply: Err(e) } ==> step == SendStep::Failed(e),
{
    if let SendEvent::Rebuilt { first, wire: Ok(wire) } = event {
        if let SendStep::Send { objects, retry } = step {
            assert(entries(objects@).len() == 1);
            assert(entries(objects@)[0] == (objects@[0].0@, objects@[0].1@));
        }
    }
}

/// The two ids of a blob that was uploaded twice are those it had first and last.
pub proof fn both_ids_of_a_blob_are_kept(
    key: Seq<char>,
    missed: spec_fn(SetOutcome) -> bool,
    b: i64,
    before: Uploader,
    first: String,
    wire: crate::json::Json,
    after: Uploader,
    step: SendStep,
)
    requires
        send_follows(
            key,
            missed,
            seq![b],
            before,
            SendEvent::Rebuilt { first: Some(first), wire: Ok(wire) },
            after,
            step,
        ),
        before.known(b) is Some,
    ensures
        step matches SendStep::Send { objects, retry } && (retry matches Some(r) && r.first@ == first@ && Some(
            r.second@,
        ) == before.known(b)),
{
}

/// The call that creates objects holds each under its creation id, and nothing else.
pub proof fn every_object_is_in_the_call(creates: Seq<(Seq<char>, JsonView)>, n: nat, i: int, p: Seq<char>)
    requires
        n <= creates.len(),
        forall|a: int, b: int| 0 <= a < b < creates.len() ==> (#[trigger] creates[a]).0 != (#[trigger] creates[b]).0,
    ensures
        0 <= i < n ==> create_args(creates, n).dom().contains(creates[i].0) && create_args(creates, n)[creates[i].0]
            == creates[i].1,
        create_args(creates, n).dom().contains(p) ==> exists|a: int| 0 <= a < n && (#[trigger] creates[a]).0 == p,
    decreases n,
{
    if n > 0 {
        every_object_is_in_the_call(creates, (n - 1) as nat, i, p);
        if create_args(creates, n).dom().contains(p) && p != creates[n - 1].0 {
            let a = choose|a: int| 0 <= a < n - 1 && (#[trigger] creates[a]).0 == p;
            assert(creates[a].0 == p);
        } else if p == creates[n - 1].0 {
            assert(creates[n - 1].0 == p);
        }
    }
}

/// A run that changes nothing takes every object as created, under an id of its own.
pub proof fn dry_runs_assume_success(ty: ObjectType, cids: Seq<Seq<char>>, i: int, j: int)
    requires
        0 <= i < cids.len(),
        0 <= j < cids.len(),
    ensures
        assumed(ty, cids).len() == cids.len(),
        assumed(ty, cids)[i].0 == cids[i],
        assumed(ty, cids)[i].1.text_at("id"@) is Some,
        assumed(ty, cids)[i].1.text_at("id"@)->0 == "dryrun-"@ + ty.jmap() + ("-"@ + cids[i]),
{
}

/// Two objects share a key only where they are the same: of one kind, with one number.
pub proof fn keys_tell_objects_apart(a: ObjectType, m: i64, b: ObjectType, n: i64)
    ensures
        map_key(a, m) == map_key(b, n) <==> a == b && m == n,
        -0x8000_0000_0000_0000_0000_0000_0000_0000 <= map_key(a, m) < 0x8000_0000_0000_0000_0000_0000_0000_0000,
{
}

/// One counter rises by one for each outcome, and the others stay.
pub proof fn outcomes_are_counted_once(c: TypeCounts, t: Tally)
    requires
        c.room(1),
    ensures
        ({
            let r = counted(c, t);
            &&& r.created == c.created + if t == Tally::Created {
                1int
            } else {
                0int
            }
            &&& r.updated == c.updated + if t == Tally::Updated {
                1int
            } else {
                0int
            }
            &&& r.skipped == c.skipped + if t == Tally::Skipped {
                1int
            } else {
                0int
            }
            &&& r.failed == c.failed + if t == Tally::Failed {
                1int
            } else {
                0int
            }
            &&& r.fetched == c.fetched
            &&& r.deleted == c.deleted
        }),
{
}

/// An object that is on the target loses its row and is counted as it came there; one
/// that failed gets a row and counts as failed.
pub proof fn verdicts_say_what_became_of_an_object(
    local: i64,
    tally: Tally,
    target: Option<Seq<char>>,
    item: crate::db::export_failures::FailedView,
)
    ensures
        on_target(local, tally, target) == (VerdictView { local, tally, entry: EntryView::Resolve, target }),
        failed(local, item, target) == (VerdictView {
            local,
            tally: Tally::Failed,
            entry: EntryView::Record(item),
            target,
        }),
{
}

/// A row says which object failed, under which id, how, why and when. A failure
/// without a kind is called unknown.
pub proof fn rows_say_what_failed(
    ty: ObjectType,
    local: i64,
    cid: Seq<char>,
    kind: Seq<char>,
    detail: Seq<char>,
    stamp: Seq<char>,
    target: Option<Seq<char>>,
)
    ensures
        ({
            let r = local_failure_view(ty, local, cid, None, kind, detail, stamp);
            &&& r.type_token == ty.archive()
            &&& r.local_id == local
            &&& r.client_id == cid
            &&& kind.len() > 0 ==> r.error_type == kind
            &&& kind.len() == 0 ==> r.error_type == "unknown"@
            &&& r.error_detail == detail
            &&& r.failed_at == stamp
            &&& r.blob_probe == "not_probed"@
            &&& r.message_id is None && r.size_bytes is None && r.blob_local_id is None && r.blob_hash is None
                && r.target_blob_id is None
            &&& lost(ty, local, cid, None, kind, detail, stamp, target) == (VerdictView {
                local,
                tally: Tally::Failed,
                entry: EntryView::Record(r),
                target,
            })
        }),
{
}

/// A row of an object whose failure is pinned on a blob says which, how large it is and
/// what its hash is, as far as that could be read; what could not be read is told.
pub proof fn rows_say_which_blob(
    ty: ObjectType,
    local: i64,
    cid: Seq<char>,
    kind: Seq<char>,
    detail: Seq<char>,
    stamp: Seq<char>,
    b: BlobReads,
)
    requires
        b.len matches Ok(Some(n)) ==> n <= i64::MAX,
    ensures
        ({
            let r = local_failure_view(ty, local, cid, Some(b), kind, detail, stamp);
            &&& r.local_id == local && r.client_id == cid && r.type_token == ty.archive() && r.failed_at == stamp
            &&& r.blob_local_id == Some(b.blob_local_id)
            &&& b.len matches Ok(Some(n)) ==> r.size_bytes is Some && r.size_bytes->0 == n
            &&& b.len is Err || b.len == Ok::<Option<u64>, String>(None) ==> r.size_bytes is None
            &&& b.hash matches Ok(Some(h)) ==> r.blob_hash == Some(h@)
            &&& b.hash is Err || b.hash == Ok::<Option<String>, String>(None) ==> r.blob_hash is None
            &&& b.len is Ok && b.hash is Ok ==> r.error_detail == detail
            &&& b.len is Err && b.hash is Ok ==> r.error_detail == detail + "; blob metadata unreadable ("@ + (
            "size: "@ + b.len->Err_0@ + ")"@)
            &&& b.len is Ok && b.hash is Err ==> r.error_detail == detail + "; blob metadata unreadable ("@ + (
            "blake3: "@ + b.hash->Err_0@ + ")"@)
            &&& b.len is Err && b.hash is Err ==> r.error_detail == detail + "; blob metadata unreadable ("@ + (
            "size: "@ + b.len->Err_0@ + ("; "@ + ("blake3: "@ + b.hash->Err_0@)) + ")"@)
        }),
{
}

/// A refusal is recorded with the type and the whole text of the target's error; where
/// the target says nothing of the object, that is recorded.
pub proof fn refusals_say_what_the_target_said(
    ty: ObjectType,
    done: Seq<char>,
    undone: Seq<char>,
    key: Seq<char>,
    e: JsonView,
)
    ensures
        ({
            let told = refusal_error(ty, (done, undone), key, Some(e));
            let silent = refusal_error(ty, (done, undone), key, None);
            &&& e.text_at("type"@) is Some ==> told.0 == e.text_at("type"@)->0
            &&& e.text_at("type"@) is None ==> told.0.len() == 0
            &&& told.1 == crate::json::json_compact(e)
            &&& silent.0.len() == 0
            &&& silent.1 == ty.jmap() + "/set returned neither "@ + (done + " nor "@ + (undone + " for "@ + key))
        }),
{
}

/// The row of a refused object says what was refused. A blob that was uploaded again is
/// named, and asked for exactly where the target still misses it.
pub proof fn refused_blobs_are_asked_for(
    ty: ObjectType,
    local: i64,
    cid: Seq<char>,
    kind: Seq<char>,
    detail: Seq<char>,
    retry: Option<Seq<char>>,
    stamp: Seq<char>,
)
    requires
        kind.len() > 0,
    ensures
        ({
            let (r, probe) = refusal_view(ty, local, cid, None, (kind, detail), retry, stamp);
            &&& r.type_token == ty.archive() && r.local_id == local && r.client_id == cid && r.error_type == kind
                && r.error_detail == detail && r.failed_at == stamp
            &&& r.target_blob_id == retry
            &&& kind == "blobNotFound"@ ==> probe == retry
            &&& kind != "blobNotFound"@ ==> probe is None
        }),
{
}

/// What became of a refused blob is told by what the target answered about it; the rest
/// of the row stays.
pub proof fn probes_tell_what_the_target_has(
    item: crate::db::export_failures::FailedView,
    blob: Seq<char>,
    size: Option<u64>,
    e: Seq<char>,
)
    ensures
        ({
            let gone = probed_view(item, probe_of(Ok(BlobLookup::NotFound), blob));
            let there = probed_view(item, probe_of(Ok(BlobLookup::Found { size }), blob));
            let unasked = probed_view(item, probe_of(Ok(BlobLookup::Unsupported), blob));
            let broken = probed_view(item, probe_of(Err(e), blob));
            &&& gone.blob_probe == "orphaned_marker"@ && gone.error_detail == item.error_detail
            &&& there.blob_probe == "retrievable"@
            &&& size is None ==> there.error_detail == item.error_detail
            &&& size is Some ==> there.error_detail == item.error_detail + "; blob probe: "@ + (
            "Blob/get reports "@ + text::decimal_text(size->0 as nat) + (" bytes for "@ + blob))
            &&& unasked.blob_probe == "unsupported"@ && unasked.error_detail == item.error_detail
            &&& broken.blob_probe == "store_unavailable"@ && broken.error_detail == item.error_detail
                + "; blob probe: "@ + e
            &&& there.local_id == item.local_id && there.type_token == item.type_token && there.client_id
                == item.client_id && there.error_type == item.error_type && there.failed_at == item.failed_at
                && there.target_blob_id == item.target_blob_id && there.blob_local_id == item.blob_local_id
                && there.blob_hash == item.blob_hash && there.size_bytes == item.size_bytes && there.message_id
                == item.message_id
        }),
{
}

/// The first error is kept, and a list of numbers holds what is in it.
pub proof fn the_first_error_is_kept(a: Seq<char>, b: Seq<char>, v: Seq<i64>, n: i64)
    ensures
        first_error(Some(a), b) == Some(a),
        first_error(None, b) == Some(b),
        numbers(v).contains(n) <==> exists|i: int| 0 <= i < v.len() && v[i] == n,
{
}

/// That a blob came back under the same id is remarked on, and nothing where it did
/// not. Every state of a blob that was asked for has a remark of its own.
pub proof fn remarks_tell_states_apart(first: Seq<char>, second: Seq<char>)
    ensures
        first == second <==> dedup_text(first, second).len() > 0,
        probe_text("orphaned_marker"@).len() > 0,
        probe_text("retrievable"@).len() > 0,
        probe_text("store_unavailable"@).len() > 0,
        probe_text("unsupported"@).len() > 0,
        probe_text("not_probed"@).len() == 0,
        probe_text("orphaned_marker"@) != probe_text("retrievable"@),
        probe_text("store_unavailable"@) != probe_text("unsupported"@),
{
    reveal_strlit("orphaned_marker");
    reveal_strlit("retrievable");
    reveal_strlit("store_unavailable");
    reveal_strlit("unsupported");
    reveal_strlit("not_probed");
    reveal_strlit("");
    reveal_strlit("; the re-upload returned the same blobId, so the target de-duplicated it by content hash");
    reveal_strlit(
        "; Blob/get cannot serve that blobId back, so the upload was de-duplicated onto a marker whose bytes are gone from the target blob store and re-uploading identical bytes can never recover it",
    );
    reveal_strlit("; Blob/get can still serve that blobId, so the refusal did not come from a missing blob");
    reveal_strlit(
        "; the Blob/get probe itself failed, which points at an unhealthy target blob store rather than at this one item",
    );
    reveal_strlit(
        "; the target does not offer urn:ietf:params:jmap:blob, so retrievability could not be established",
    );
    assert("orphaned_marker"@.len() == 15);
    assert("retrievable"@.len() == 11);
    assert("unsupported"@.len() == 11);
    assert("retrievable"@[0] != "unsupported"@[0]);
    assert("store_unavailable"@.len() == 17);
    assert("not_probed"@.len() == 10);
}

} // verus!
