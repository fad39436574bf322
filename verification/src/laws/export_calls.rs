//! What the functions of an export give back, call by call.

use vstd::prelude::*;
use vstd::string::*;

use crate::error::Error;
use crate::json::{Json, JsonObject, JsonView};
use crate::laws::events::{agree, carried, updates_carry_every_difference};
use crate::laws::messages::{housed, houses, messages_keep_their_keywords, messages_stay_in_all_their_mailboxes};
use crate::sync::export::common::{
    after_retry, before_retry, dry_run_blob, missing_blob, synthesize_dry_run_outcome, Maps, SetOutcome, Tally,
    Uploader, Verdict,
};
use crate::sync::export::email::{
    build_keywords, build_mailbox_ids, fallback_properties, first_properties, matched, EmailRow,
};
use crate::sync::export::flat::{set_collection_default, settle_default, target_properties};
use crate::sync::export::quarantine::{BlobReads, BlobRetry, Quarantine};
use crate::sync::export::run::{
    confirm, deactivate_active_sieve_script, reconcile_type, run, settle_pass, Pass, Plan, Run, Summary,
};
use crate::sync::export::sieve::{SievePass, SieveRow};
use crate::sync::export::uidtype::{
    calendar_event_update_patch, control_properties, update_failed, update_retry_failed,
};
use crate::sync::export::{email, sieve};
use crate::text;
use crate::types::{ObjectType, TypeCounts};
use crate::jmap::error::{JmapError, JmapErrorView};
use crate::db::export_failures::count;
use crate::inspect::failures::bytes_or_none;

verus! {

/// The update of an event binds every property that an archive and a target both keep
/// and on which they differ to the archived value, and takes away what the archived
/// event lacks.
pub proof fn updates_hold_every_difference(
    target: &Json,
    desired: &Json,
    r: JsonObject,
    t: Map<Seq<char>, JsonView>,
    d: Map<Seq<char>, JsonView>,
    p: Seq<char>,
)
    requires
        call_ensures(calendar_event_update_patch, (target, desired), r),
        target@ == JsonView::Object(t),
        desired@ == JsonView::Object(d),
        carried(p),
    ensures
        d.dom().contains(p) && !agree(t, d, p) ==> r@.dom().contains(p) && r@[p] == d[p],
        agree(t, d, p) ==> !r@.dom().contains(p),
        !d.dom().contains(p) && !t.dom().contains(p) ==> !r@.dom().contains(p),
        r@.dom().contains(p) ==> d.dom().contains(p) || r@[p] == JsonView::Null || r@[p] == JsonView::Bool(false),
{
    updates_carry_every_difference(t, d, p);
}

/// The mailboxes that a message is imported into are the counterparts of all that it is
/// in; where one has no counterpart, there are none.
pub proof fn every_mailbox_of_a_message_is_named(row: &EmailRow, maps: &Maps, r: Option<JsonObject>)
    requires
        call_ensures(build_mailbox_ids, (row, maps), r),
    ensures
        r is Some <==> housed(*maps, row.mailbox_locals@),
        r is Some ==> houses(*maps, row.mailbox_locals@, r->0@),
{
    messages_stay_in_all_their_mailboxes(*maps, row.mailbox_locals@);
}

/// A message is imported with each of its keywords and no others.
pub proof fn every_keyword_of_a_message_is_named(row: &EmailRow, r: JsonObject, word: Seq<char>)
    requires
        call_ensures(build_keywords, (row,), r),
    ensures
        r@.dom().contains(word) <==> text::texts(row.keywords@).contains(word),
        r@.dom().contains(word) ==> r@[word] == JsonView::Bool(true),
{
    messages_keep_their_keywords(text::texts(row.keywords@), row.keywords@.len(), word);
    let all = text::texts(row.keywords@);
    assert(all.take(row.keywords@.len() as int) =~= all);
}

/// A message is on the target exactly where one of the target's has its key; such a
/// message is skipped, and any other is sent.
pub proof fn messages_on_the_target_are_skipped(
    local_keys: &Vec<String>,
    target_keys: &Vec<String>,
    known: Vec<bool>,
    i: int,
    row: &EmailRow,
    r: Option<Verdict>,
)
    requires
        call_ensures(email::reconcile, (local_keys, target_keys), known),
        0 <= i < local_keys@.len(),
        call_ensures(matched, (row, known@[i]), r),
    ensures
        known@.len() == local_keys@.len(),
        r is Some <==> exists|j: int| 0 <= j < target_keys@.len() && (#[trigger] target_keys@[j])@ == local_keys@[i]@,
        r is Some ==> r->0@.local == row.local && r->0@.tally == Tally::Skipped && r->0@.entry is Resolve,
{
    let keys = text::texts(target_keys@);
    if keys.contains(local_keys@[i]@) {
        let j = choose|j: int| 0 <= j < keys.len() && keys[j] == local_keys@[i]@;
        assert(target_keys@[j]@ == local_keys@[i]@);
    }
    if exists|j: int| 0 <= j < target_keys@.len() && (#[trigger] target_keys@[j])@ == local_keys@[i]@ {
        let j = choose|j: int| 0 <= j < target_keys@.len() && (#[trigger] target_keys@[j])@ == local_keys@[i]@;
        assert(keys[j] == local_keys@[i]@);
    }
}

/// Messages are asked for by their ids first, and where they have none, by all that
/// tells them apart.
pub proof fn messages_are_asked_for_by_what_tells_them_apart(a: Vec<&'static str>, b: Vec<&'static str>)
    requires
        call_ensures(first_properties, (), a),
        call_ensures(fallback_properties, (), b),
    ensures
        text::strs(a@).contains("messageId"@),
        text::strs(b@).contains("messageId"@),
        text::strs(b@).contains("from"@),
        text::strs(b@).contains("to"@),
        text::strs(b@).contains("subject"@),
        text::strs(b@).contains("sentAt"@),
{
    assert(text::strs(a@)[0] == "messageId"@);
    assert(text::strs(b@)[0] == "messageId"@);
    assert(text::strs(b@)[1] == "from"@);
    assert(text::strs(b@)[2] == "subject"@);
    assert(text::strs(b@)[3] == "sentAt"@);
    assert(text::strs(b@)[4] == "to"@);
}

/// Calendars are asked for with every property that is kept, and with what decides on
/// defaults and removal; events with what says what invitees may do.
pub proof fn collections_are_asked_for_in_full(a: Vec<&'static str>, b: Vec<&'static str>, p: Seq<char>)
    requires
        call_ensures(target_properties, (), a),
        call_ensures(control_properties, (), b),
    ensures
        crate::laws::collections::kept(p) || p == "isDefault"@ || p == "myRights"@ ==> text::strs(a@).contains(p),
        p == "useDefaultAlerts"@ || p == "mayInviteSelf"@ || p == "mayInviteOthers"@ || p == "hideAttendees"@
            ==> text::strs(b@).contains(p),
{
    let s = text::strs(a@);
    assert(s[0] == "name"@);
    assert(s[1] == "description"@);
    assert(s[2] == "color"@);
    assert(s[3] == "sortOrder"@);
    assert(s[4] == "isSubscribed"@);
    assert(s[5] == "isVisible"@);
    assert(s[6] == "isDefault"@);
    assert(s[7] == "includeInAvailability"@);
    assert(s[8] == "defaultAlertsWithTime"@);
    assert(s[9] == "defaultAlertsWithoutTime"@);
    assert(s[10] == "timeZone"@);
    assert(s[11] == "myRights"@);
    let t = text::strs(b@);
    assert(t[0] == "useDefaultAlerts"@);
    assert(t[1] == "mayInviteSelf"@);
    assert(t[2] == "mayInviteOthers"@);
    assert(t[3] == "hideAttendees"@);
}

/// The call that makes a collection the default names the account and the collection;
/// a run that changes nothing makes none.
pub proof fn defaults_are_set_by_id(account: &str, target_id: &str, dry_run: bool, r: Option<JsonObject>)
    requires
        call_ensures(set_collection_default, (account, target_id, dry_run), r),
    ensures
        r is None <==> dry_run,
        r is Some ==> JsonView::Object(r->0@).text_at("accountId"@) == Some(account@) && JsonView::Object(
            r->0@,
        ).text_at("onSuccessSetIsDefault"@) == Some(target_id@),
{
    reveal_strlit("accountId");
    reveal_strlit("onSuccessSetIsDefault");
    assert("accountId"@.len() != "onSuccessSetIsDefault"@.len());
}

/// A calendar that was made the default counts as updated, once; one that could not be
/// counts as failed, with a row that names it and says why.
pub proof fn defaults_end_as_the_target_says(
    updates: &Vec<(i64, String, Json)>,
    local: i64,
    target_id: &str,
    result: Result<(), String>,
    stamp: &str,
    r: Option<Verdict>,
    i: int,
)
    requires
        call_ensures(settle_default, (updates, local, target_id, result, stamp), r),
    ensures
        result is Ok && 0 <= i < updates@.len() && updates@[i].0 == local ==> r is None,
        result is Ok && (forall|k: int| 0 <= k < updates@.len() ==> (#[trigger] updates@[k]).0 != local) ==> r is Some
            && r->0@.local == local && r->0@.tally == Tally::Updated && r->0@.entry is Resolve,
        result is Err ==> r is Some && r->0@.local == local && r->0@.tally == Tally::Failed && r->0@.entry is Record
            && r->0@.entry->0.local_id == local && r->0@.entry->0.error_type == "defaultSetFailed"@
            && r->0@.entry->0.error_detail == "target "@ + target_id@ + (": "@ + result->Err_0@)
            && r->0@.entry->0.client_id == "u"@ + text::integer_text(local as int),
{
    reveal_strlit("defaultSetFailed");
    let all = crate::sync::export::flat::update_views(updates@);
    if 0 <= i < updates@.len() {
        assert(all[i].0 == updates@[i].0);
    }
    if crate::sync::export::flat::among(all, local) {
        let k = choose|k: int| 0 <= k < all.len() && (#[trigger] all[k]).0 == local;
        assert(updates@[k].0 == local);
    }
}

/// Each kind is worked on by the pass for its kind: folders and files as trees,
/// calendars and address books by name, contacts and events by uid, and messages,
/// scripts and identities in ways of their own.
pub proof fn every_kind_has_its_pass(ty: ObjectType, r: Pass)
    requires
        call_ensures(reconcile_type, (ty,), r),
    ensures
        ty == ObjectType::Mailbox || ty == ObjectType::FileNode <==> r is Tree,
        ty == ObjectType::AddressBook || ty == ObjectType::Calendar <==> r is Flat,
        ty == ObjectType::ContactCard || ty == ObjectType::CalendarEvent <==> r is Uid,
        ty == ObjectType::Email <==> r is Email,
        ty == ObjectType::SieveScript <==> r is Sieve,
        ty == ObjectType::Identity <==> r is Identity,
        ty == ObjectType::ParticipantIdentity <==> r is Participant,
{
}

/// A pass that gave up leaves nothing to be removed, and counts as a failure.
pub proof fn passes_that_give_up_remove_nothing(result: Result<Plan, Error>, counts: &mut TypeCounts, r: Plan)
    requires
        call_ensures(settle_pass, (result, counts), r),
        old(counts).room(1),
    ensures
        result is Ok ==> r == result->Ok_0 && *final(counts) == *old(counts),
        result is Err ==> r.prune_candidates@.len() == 0 && r.active_sieve_target is None && final(counts).failed
            == old(counts).failed + 1 && final(counts).created == old(counts).created && final(counts).deleted
            == old(counts).deleted,
{
}

/// A run is confirmed by the answers that agree, and any other answer ends it.
pub proof fn other_answers_end_the_run(line: &str, r: Result<(), Error>)
    requires
        call_ensures(confirm, (line,), r),
    ensures
        r is Ok <==> crate::sync::export::run::agrees(line@),
        r is Err ==> r->Err_0@ is PruneAborted,
{
}

/// The call that is made before scripts are removed names the account and leaves none
/// active.
pub proof fn no_script_stays_active(account: &str, r: JsonObject)
    requires
        call_ensures(deactivate_active_sieve_script, (account,), r),
    ensures
        JsonView::Object(r@).text_at("accountId"@) == Some(account@),
        JsonView::Object(r@).bool_at("onSuccessDeactivateScript"@) == Some(true),
{
    reveal_strlit("accountId");
    reveal_strlit("onSuccessDeactivateScript");
    assert("accountId"@.len() != "onSuccessDeactivateScript"@.len());
}

/// The summary of a run has the counters of every kind that was worked on, in order,
/// and what could not be recorded; a run that changed nothing sums up to nothing.
pub proof fn runs_are_summed_up(done: Run, retries: u64, sleeps: u64, dry_run: bool, r: Summary, i: int)
    requires
        call_ensures(run, (done, retries, sleeps, dry_run), r),
        done.wf(),
    ensures
        dry_run ==> r.per_type@.len() == 0,
        !dry_run ==> r.per_type@.len() == done.counts@.len() && r.unrecorded_failures@
            == done.unrecorded_failures@ && r.retries_observed == retries && r.retry_after_sleeps == sleeps,
        !dry_run && 0 <= i < done.counts@.len() ==> r.per_type@[i] == (done.work@[i], done.counts@[i]),
{
}

/// A pass begins with the rows that there are; one that changes nothing has none and
/// writes none.
pub proof fn passes_begin_with_the_rows(ty: ObjectType, dry_run: bool, rows: &Vec<i64>, r: Quarantine, n: i64)
    requires
        call_ensures(Quarantine::open, (ty, dry_run, rows), r),
    ensures
        r.enabled <==> !dry_run,
        r.ty == ty,
        r.write_error is None,
        !dry_run ==> (r.known@.contains(n) <==> rows@.contains(n)),
        dry_run ==> !r.known@.contains(n),
{
}

/// A row that was written is known from then on, and one that could not be is an error
/// that is kept; the first such error counts.
pub proof fn rows_are_known_once_they_are_written(
    q: &mut Quarantine,
    local: i64,
    outcome: Result<(), String>,
    n: i64,
)
    requires
        call_ensures(Quarantine::recorded, (q, local, outcome), ()),
    ensures
        outcome is Ok ==> final(q).known@.contains(local) && (n != local ==> (final(q).known@.contains(n) <==> old(q).known@.contains(n))) && final(q).write_error == old(q).write_error,
        outcome is Err ==> final(q).known@ == old(q).known@ && final(q).write_error is Some && (old(q).write_error
            is None ==> final(q).write_error->0@ == outcome->Err_0@) && (old(q).write_error is Some ==> final(q).write_error->0@ == old(q).write_error->0@),
        final(q).enabled == old(q).enabled,
{
}

/// The row of an object that is on the target is removed exactly where there is one and
/// the pass changes anything; it is not known from then on.
pub proof fn rows_of_arrived_objects_are_removed(q: &mut Quarantine, local: i64, r: bool, n: i64)
    requires
        call_ensures(Quarantine::resolve, (q, local), r),
    ensures
        r <==> old(q).enabled && old(q).known@.contains(local),
        old(q).enabled ==> !final(q).known@.contains(local) && (n != local ==> (final(q).known@.contains(n)
            <==> old(q).known@.contains(n))),
        !old(q).enabled ==> final(q).known@ == old(q).known@,
{
}

/// That rows are incomplete is reported, with the kind and the error.
pub proof fn incomplete_rows_are_reported(q: &Quarantine, r: Option<String>)
    requires
        call_ensures(Quarantine::finish, (q,), r),
    ensures
        r is Some <==> q.write_error is Some,
        r is Some ==> r->0@ == q.ty.jmap() + " failures could not be recorded in the archive: "@ + q.write_error->0@,
{
}

/// A blob that was uploaded is known by its id, and asking for it is noted; the others
/// stay as they were.
pub proof fn uploaded_blobs_are_known(u: &mut Uploader, local: i64, id: String, other: i64)
    requires
        call_ensures(Uploader::uploaded, (u, local, id), ()),
    ensures
        final(u).known(local) == Some(id@),
        other != local ==> final(u).known(other) == old(u).known(other),
        final(u).touched@ == old(u).touched@,
{
}

/// A blob is given out under the id it has, and every one that is asked for is noted.
pub proof fn blobs_are_given_out_by_id(u: &mut Uploader, local: i64, r: Option<String>, other: i64)
    requires
        call_ensures(Uploader::upload_with, (u, local), r),
    ensures
        text::opt_text(r) == old(u).known(local),
        final(u).known(other) == old(u).known(other),
        final(u).touched@ == old(u).touched@ + seq![local],
{
    assert(old(u).touched@.push(local) =~= old(u).touched@ + seq![local]);
}

/// Before a second attempt the blobs of an object are forgotten, and of no others; the
/// id that its only blob had is handed out.
pub proof fn second_attempts_begin_without_uploads(
    u: &mut Uploader,
    touched: &Vec<i64>,
    first: Option<String>,
    b: i64,
)
    requires
        call_ensures(before_retry, (u, touched), first),
    ensures
        touched@.contains(b) ==> final(u).known(b) is None,
        !touched@.contains(b) ==> final(u).known(b) == old(u).known(b),
        touched@.len() == 1 ==> text::opt_text(first) == old(u).known(touched@[0]),
        touched@.len() != 1 ==> first is None,
{
    assert(final(u).known(b) == if touched@.contains(b) {
        None
    } else {
        old(u).known(b)
    });
}

/// After a second attempt both ids of the only blob are handed out, where both are
/// known.
pub proof fn second_attempts_tell_both_ids(
    u: &mut Uploader,
    touched: &Vec<i64>,
    first: Option<String>,
    r: Option<BlobRetry>,
)
    requires
        call_ensures(after_retry, (u, touched, first), r),
    ensures
        touched@.len() == 1 && first is Some && old(u).known(touched@[0]) is Some <==> r is Some,
        r is Some ==> r->0.first@ == first->0@ && r->0.second@ == old(u).known(touched@[0])->0,
{
}

/// A script that the target has under its name is skipped and mapped to it, and is the
/// one to be active where it is active in the archive; any other is to be sent.
pub proof fn scripts_on_the_target_are_skipped(p: &mut SievePass, row: &SieveRow, r: Option<Verdict>)
    requires
        call_ensures(SievePass::settle_matched, (p, row), r),
    ensures
        row.name is None ==> r is None && final(p)@ == old(p)@,
        row.name is Some && !old(p)@.by_name.dom().contains(row.name->0@) ==> r is None && final(p)@ == old(p)@,
        row.name is Some && old(p)@.by_name.dom().contains(row.name->0@) && old(p)@.by_name[row.name->0@] is Str
            ==> r is Some && r->0@.local == row.local && r->0@.tally == Tally::Skipped && r->0@.entry is Resolve
            && r->0@.target == Some(old(p)@.by_name[row.name->0@]->Str_0) && final(p)@.by_name == old(p)@.by_name
            && final(p)@.active == if row.is_active {
            Some(old(p)@.by_name[row.name->0@]->Str_0)
        } else {
            old(p)@.active
        },
{
}

/// A script whose text could not be uploaded, and an object that could not be sent a
/// second time, count as failed, with rows that say why.
pub proof fn scripts_that_are_lost_are_told(
    row: &SieveRow,
    reads: Option<BlobReads>,
    why: String,
    stamp: &str,
    r: Verdict,
    ty: ObjectType,
    again: &str,
    s: Verdict,
)
    requires
        call_ensures(sieve::upload_failed, (row, reads, why, stamp), r),
        call_ensures(sieve::retry_failed, (ty, row.local, reads, again, stamp), s),
        reads is None,
    ensures
        r@.local == row.local && r@.tally == Tally::Failed && r@.entry is Record,
        r@.entry->0.error_type == "blobUploadFailed"@ && r@.entry->0.error_detail == why@ && r@.entry->0.local_id
            == row.local && r@.entry->0.client_id == "c"@ + text::integer_text(row.local as int),
        s@.local == row.local && s@.tally == Tally::Failed && s@.entry is Record,
        s@.entry->0.error_type == "buildFailed"@ && s@.entry->0.error_detail == "rebuilding after blobNotFound: "@
            + again@ && s@.entry->0.type_token == ty.archive(),
{
    reveal_strlit("blobUploadFailed");
    reveal_strlit("buildFailed");
}

/// An update that could not be sent, the first time or again, counts as failed, with a
/// row that names the object of the target and says why; what stands for the object
/// stays.
pub proof fn updates_that_are_lost_are_told(
    ty: ObjectType,
    local: i64,
    tid: &str,
    why: &str,
    reads: Option<BlobReads>,
    stamp: &str,
    r: Verdict,
    s: Verdict,
)
    requires
        call_ensures(update_failed, (ty, local, tid, why, reads, stamp), r),
        call_ensures(update_retry_failed, (ty, local, tid, why, reads, stamp), s),
        reads is None,
    ensures
        r@.local == local && r@.tally == Tally::Failed && r@.entry is Record && r@.target == Some(tid@),
        r@.entry->0.error_type == "updateFailed"@ && r@.entry->0.error_detail == "target "@ + tid@ + (": "@ + why@)
            && r@.entry->0.client_id == "u"@ + text::integer_text(local as int),
        s@.local == local && s@.tally == Tally::Failed && s@.entry is Record && s@.target == Some(tid@),
        s@.entry->0.error_type == "updateRetryFailed"@ && s@.entry->0.error_detail == "target "@ + tid@ + (": "@
            + why@),
{
    reveal_strlit("updateFailed");
    reveal_strlit("updateRetryFailed");
}

/// A run that changes nothing takes every object for created, and nothing for refused,
/// updated or removed.
pub proof fn dry_runs_take_objects_for_created(ty: ObjectType, cids: &Vec<String>, r: SetOutcome, i: int)
    requires
        call_ensures(synthesize_dry_run_outcome, (ty, cids), r),
    ensures
        r.created@.len() == cids@.len(),
        0 <= i < cids@.len() ==> r.created@[i].0@ == cids@[i]@ && r.created@[i].1@.text_at("id"@) is Some,
        r.not_created@.len() == 0 && r.updated@.len() == 0 && r.not_updated@.len() == 0 && r.destroyed@.len() == 0
            && r.not_destroyed@.len() == 0,
{
    let e = crate::sync::export::common::entries(r.created@);
    assert(e.len() == r.created@.len());
    if 0 <= i < cids@.len() {
        assert(e[i] == (r.created@[i].0@, r.created@[i].1@));
    }
}

/// A run works on its kinds one after the other. A pass that went through leaves its
/// plan and its counters; one that gave up leaves nothing to be removed and one more
/// failure.
pub proof fn runs_go_kind_by_kind(
    run: &Run,
    k: Option<ObjectType>,
    next: &mut Run,
    result: Result<Plan, Error>,
    counts: TypeCounts,
    unrecorded: Option<String>,
    dry_run: bool,
)
    requires
        call_ensures(Run::next_kind, (run,), k),
        run.wf(),
        call_ensures(Run::finish_kind, (next, result, counts, unrecorded, dry_run), ()),
        old(next).wf(),
        old(next).plans@.len() < old(next).work@.len(),
        counts.room(1),
    ensures
        k is None <==> run.plans@.len() == run.work@.len(),
        k is Some ==> k->0 == run.work@[run.plans@.len() as int],
        final(next).plans@.len() == old(next).plans@.len() + 1 && final(next).work == old(next).work,
        result is Ok ==> final(next).plans@.last() == result->Ok_0 && final(next).counts@.last() == counts,
        result is Err ==> final(next).plans@.last().prune_candidates@.len() == 0 && final(next).counts@.last().failed
            == counts.failed + 1,
        unrecorded is Some ==> final(next).unrecorded_failures@.len() == old(next).unrecorded_failures@.len() + 1,
        result is Ok && dry_run ==> final(next).dry_rows@.len() == old(next).dry_rows@.len() + 1 && final(
            next).dry_rows@.last().created == counts.created && final(next).dry_rows@.last().matched == counts.skipped,
{
}

/// A blob that is forgotten is not known; asking for what is known changes nothing, and
/// what was asked for is handed out once.
pub proof fn forgotten_blobs_are_not_known(
    u: &mut Uploader,
    local: i64,
    other: i64,
    v: &Uploader,
    c: Option<String>,
    t: &mut Uploader,
    touched: Vec<i64>,
)
    requires
        call_ensures(Uploader::invalidate, (u, local), ()),
        call_ensures(Uploader::cached, (v, local), c),
        call_ensures(Uploader::take_touched, (t,), touched),
    ensures
        final(u).known(local) is None,
        other != local ==> final(u).known(other) == old(u).known(other),
        text::opt_text(c) == v.known(local),
        touched@ == old(t).touched@ && final(t).touched@.len() == 0 && final(t).known(other) == old(t).known(other),
{
}

/// A blob that the archive lacks is told by its number, and one that a run which
/// changes nothing would upload gets an id of its own.
pub proof fn blobs_are_told_by_number(local: i64, e: JmapError, id: String)
    requires
        call_ensures(missing_blob, (local,), e),
        call_ensures(dry_run_blob, (local,), id),
    ensures
        e@ == JmapErrorView::Malformed("blob local id "@ + text::integer_text(local as int) + " missing"@),
        id@ == "dryrun-blob-"@ + text::integer_text(local as int),
{
}

/// Numbers that the archive reports are never shown below zero.
pub proof fn reported_numbers_are_not_negative(n: i64, a: u64, b: u64)
    requires
        call_ensures(count, (n,), a),
        call_ensures(bytes_or_none, (n,), b),
    ensures
        n >= 0 ==> a == n && b == n,
        n < 0 ==> a == 0 && b == 0,
{
}

} // verus!
