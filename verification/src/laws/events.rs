//! Exporting events and contacts.

use vstd::prelude::*;
use vstd::string::*;

use crate::json::{equal, JsonView};
use crate::sync::export::common::{entries, EntryView, SetOutcome, Tally};
use crate::sync::export::common;
use crate::sync::export::quarantine::BlobReads;
use crate::sync::export::uidtype::{
    calendars_for, calendars_of, choice, created_view, matched_object, pairing, patched, prune_view, refusals_view,
    update_end, update_patch, wanted_in, with_controls, with_uid, EventStepView, UidRow, UpdateStepView,
};
use crate::sync::export::common::Maps;
use crate::text;
use crate::types::ObjectType;

verus! {

/// The properties of an event that an archive holds and a target keeps: what the
/// event is about, when and where it is, who takes part, how it recurs and counts.
pub open spec fn carried(p: Seq<char>) -> bool {
    p == "title"@ || p == "description"@ || p == "descriptionContentType"@ || p == "start"@ || p == "duration"@
        || p == "timeZone"@ || p == "endTimeZone"@ || p == "showWithoutTime"@ || p == "locations"@ || p
        == "virtualLocations"@ || p == "mainLocationId"@ || p == "participants"@ || p
        == "organizerCalendarAddress"@ || p == "replyTo"@ || p == "requestStatus"@ || p == "sentBy"@ || p
        == "recurrenceRule"@ || p == "recurrenceOverrides"@ || p == "recurrenceId"@ || p
        == "recurrenceIdTimeZone"@ || p == "status"@ || p == "privacy"@ || p == "priority"@ || p
        == "freeBusyStatus"@ || p == "keywords"@ || p == "categories"@ || p == "color"@ || p == "links"@ || p
        == "relatedTo"@ || p == "locale"@ || p == "alerts"@ || p == "useDefaultAlerts"@ || p == "created"@ || p
        == "updated"@ || p == "sequence"@ || p == "prodId"@ || p == "calendarIds"@ || p == "isDraft"@ || p
        == "@type"@ || p == "mayInviteSelf"@ || p == "mayInviteOthers"@ || p == "hideAttendees"@
}

/// Whether two events agree on a property.
pub open spec fn agree(a: Map<Seq<char>, JsonView>, b: Map<Seq<char>, JsonView>, p: Seq<char>) -> bool {
    a.dom().contains(p) && b.dom().contains(p) && equal(a[p], b[p])
}

/// A difference reaches the target: where the archived event has a property that the
/// target lacks or has otherwise, the update binds it to the archived value. What the
/// event of the target has and the archived one lacks is taken away: switched off
/// where it says what invitees may do, else set to `null`.
pub proof fn updates_carry_every_difference(
    target: Map<Seq<char>, JsonView>,
    desired: Map<Seq<char>, JsonView>,
    p: Seq<char>,
)
    requires
        carried(p),
    ensures
        ({
            let patch = update_patch(JsonView::Object(target), JsonView::Object(desired));
            let off = p == "mayInviteSelf"@ || p == "mayInviteOthers"@ || p == "hideAttendees"@;
            let clear = if off {
                JsonView::Bool(false)
            } else {
                JsonView::Null
            };
            &&& desired.dom().contains(p) && !agree(target, desired, p) ==> patch.dom().contains(p) && patch[p]
                == desired[p]
            &&& agree(target, desired, p) ==> !patch.dom().contains(p)
            &&& !desired.dom().contains(p) && target.dom().contains(p) && !equal(target[p], clear)
                ==> patch.dom().contains(p) && patch[p] == clear
            &&& !desired.dom().contains(p) && !target.dom().contains(p) ==> !patch.dom().contains(p)
        }),
{
}

/// Once an update is applied, the target agrees with the archived event on every
/// property that the archived event has, and holds none that it lacks, but for
/// permissions that are switched off.
pub proof fn updated_events_agree_with_the_archive(
    target: Map<Seq<char>, JsonView>,
    desired: Map<Seq<char>, JsonView>,
    p: Seq<char>,
)
    requires
        carried(p),
        desired.dom().contains(p) ==> desired[p] != JsonView::Null,
        target.dom().contains(p) ==> !equal(target[p], JsonView::Null),
    ensures
        ({
            let now = patched(target, update_patch(JsonView::Object(target), JsonView::Object(desired)));
            &&& desired.dom().contains(p) ==> now.dom().contains(p) && equal(now[p], desired[p])
            &&& !desired.dom().contains(p) && now.dom().contains(p) ==> equal(now[p], JsonView::Bool(false)) && (p
                == "mayInviteSelf"@ || p == "mayInviteOthers"@ || p == "hideAttendees"@)
        }),
{
    let patch = update_patch(JsonView::Object(target), JsonView::Object(desired));
    let now = patched(target, patch);
    updates_carry_every_difference(target, desired, p);
    if desired.dom().contains(p) {
        if patch.dom().contains(p) {
            assert(now[p] == desired[p]);
        } else {
            assert(now[p] == target[p]);
        }
    } else if patch.dom().contains(p) {
        if patch[p] == JsonView::Null {
            assert(!now.dom().contains(p));
        }
    }
}

/// What a target makes itself and what identifies an event is never updated.
pub proof fn updates_leave_identity_alone(target: JsonView, desired: JsonView, p: Seq<char>)
    requires
        p == "id"@ || p == "uid"@ || p == "baseEventId"@ || p == "isOrigin"@ || p == "utcStart"@ || p == "utcEnd"@,
    ensures
        !update_patch(target, desired).dom().contains(p),
{
    lemma_identity_is_not_writable(p);
}

proof fn lemma_identity_is_not_writable(p: Seq<char>)
    requires
        p == "id"@ || p == "uid"@ || p == "baseEventId"@ || p == "isOrigin"@ || p == "utcStart"@ || p == "utcEnd"@,
    ensures
        !crate::sync::export::uidtype::writable(p),
{
    reveal_strlit("id");
    reveal_strlit("uid");
    reveal_strlit("baseEventId");
    reveal_strlit("isOrigin");
    reveal_strlit("utcStart");
    reveal_strlit("utcEnd");
    reveal_strlit("@type");
    reveal_strlit("alerts");
    reveal_strlit("calendarIds");
    reveal_strlit("categories");
    reveal_strlit("color");
    reveal_strlit("created");
    reveal_strlit("description");
    reveal_strlit("descriptionContentType");
    reveal_strlit("duration");
    reveal_strlit("endTimeZone");
    reveal_strlit("freeBusyStatus");
    reveal_strlit("hideAttendees");
    reveal_strlit("isDraft");
    reveal_strlit("keywords");
    reveal_strlit("links");
    reveal_strlit("locale");
    reveal_strlit("locations");
    reveal_strlit("mainLocationId");
    reveal_strlit("mayInviteOthers");
    reveal_strlit("mayInviteSelf");
    reveal_strlit("organizerCalendarAddress");
    reveal_strlit("participants");
    reveal_strlit("priority");
    reveal_strlit("privacy");
    reveal_strlit("prodId");
    reveal_strlit("recurrenceId");
    reveal_strlit("recurrenceIdTimeZone");
    reveal_strlit("recurrenceOverrides");
    reveal_strlit("recurrenceRule");
    reveal_strlit("relatedTo");
    reveal_strlit("replyTo");
    reveal_strlit("requestStatus");
    reveal_strlit("sentBy");
    reveal_strlit("sequence");
    reveal_strlit("showWithoutTime");
    reveal_strlit("start");
    reveal_strlit("status");
    reveal_strlit("timeZone");
    reveal_strlit("title");
    reveal_strlit("updated");
    reveal_strlit("useDefaultAlerts");
    reveal_strlit("virtualLocations");
    let first = p[0];
    let second = p[1];
    let third = p[2];
}

/// A matched event that differs from the archived one is sent with the difference, and
/// counts as updated in a dry run; one that agrees is skipped. A contact is left as it
/// is. An event that cannot be built is recorded with the reason.
pub proof fn matched_events_are_brought_in_line(
    local: i64,
    target: Map<Seq<char>, JsonView>,
    tid: Seq<char>,
    desired: Map<Seq<char>, JsonView>,
    why: Seq<char>,
    stamp: Seq<char>,
    p: Seq<char>,
)
    requires
        carried(p),
        desired.dom().contains(p),
        !agree(target, desired, p),
    ensures
        ({
            let t = JsonView::Object(target);
            let d = JsonView::Object(desired);
            let event = ObjectType::CalendarEvent;
            let card = ObjectType::ContactCard;
            &&& matched_object(event, local, t, tid, Ok(d), false, stamp) matches EventStepView::Send(patch)
                && patch.dom().contains(p) && patch[p] == desired[p]
            &&& matched_object(event, local, t, tid, Ok(d), true, stamp) matches EventStepView::Settled(v) && v.tally
                == Tally::Updated && v.entry is Keep && v.local == local && v.target == Some(tid)
            &&& matched_object(card, local, t, tid, Ok(d), false, stamp) matches EventStepView::Settled(v) && v.tally
                == Tally::Skipped && v.entry is Resolve && v.local == local && v.target == Some(tid)
            &&& matched_object(event, local, t, tid, Err(why), false, stamp) matches EventStepView::Settled(v)
                && v.tally == Tally::Failed && v.target == Some(tid) && (v.entry matches EntryView::Record(item)
                && item.local_id == local && item.error_type == "buildFailed"@ && item.error_detail == why
                && item.client_id == "u"@ + text::integer_text(local as int) && item.type_token == "calendarevent"@
                && item.failed_at == stamp)
        }),
{
    reveal_strlit("buildFailed");
    let patch = update_patch(JsonView::Object(target), JsonView::Object(desired));
    updates_carry_every_difference(target, desired, p);
    assert(patch.dom().contains(p));
    assert(patch != Map::<Seq<char>, JsonView>::empty());
}

proof fn lemma_with_uid_complete(targets: Seq<JsonView>, uid: Seq<char>, n: nat, j: int)
    requires
        0 <= j < n <= targets.len(),
        targets[j].text_at("uid"@) == Some(uid),
        targets[j].text_at("id"@) is Some,
    ensures
        with_uid(targets, uid, n).contains(j),
    decreases n,
{
    let rest = with_uid(targets, uid, (n - 1) as nat);
    let all = with_uid(targets, uid, n);
    if j == n - 1 {
        assert(all[all.len() - 1] == j);
    } else {
        lemma_with_uid_complete(targets, uid, (n - 1) as nat, j);
        let k = choose|k: int| 0 <= k < rest.len() && rest[k] == j;
        assert(all[k] == j);
    }
}

proof fn lemma_with_uid_sound(targets: Seq<JsonView>, uid: Seq<char>, n: nat, j: int)
    requires
        n <= targets.len(),
        with_uid(targets, uid, n).contains(j),
    ensures
        0 <= j < n,
        targets[j].text_at("uid"@) == Some(uid),
        targets[j].text_at("id"@) is Some,
    decreases n,
{
    if n > 0 {
        let rest = with_uid(targets, uid, (n - 1) as nat);
        let all = with_uid(targets, uid, n);
        let k = choose|k: int| 0 <= k < all.len() && all[k] == j;
        if k < rest.len() {
            assert(rest[k] == j);
            lemma_with_uid_sound(targets, uid, (n - 1) as nat, j);
        }
    }
}

proof fn lemma_available_found(
    candidates: Seq<int>,
    targets: Seq<JsonView>,
    matched: Seq<Seq<char>>,
    n: nat,
    k: int,
)
    requires
        n <= k < candidates.len(),
        crate::sync::export::uidtype::available(targets, matched, candidates[k]),
    ensures
        crate::sync::export::uidtype::available_from(candidates, targets, matched, n) is Some,
    decreases k - n,
{
    if n < k && !crate::sync::export::uidtype::available(targets, matched, candidates[n as int]) {
        lemma_available_found(candidates, targets, matched, n + 1, k);
    }
}

proof fn lemma_available_is_candidate(candidates: Seq<int>, targets: Seq<JsonView>, matched: Seq<Seq<char>>, n: nat)
    ensures
        crate::sync::export::uidtype::available_from(candidates, targets, matched, n) matches Some(j)
            ==> candidates.contains(j),
    decreases candidates.len() - n,
{
    if n < candidates.len() {
        assert(candidates.contains(candidates[n as int]));
        lemma_available_is_candidate(candidates, targets, matched, n + 1);
    }
}

proof fn lemma_preferred_found(
    candidates: Seq<int>,
    targets: Seq<JsonView>,
    matched: Seq<Seq<char>>,
    calendars: Set<Seq<char>>,
    n: nat,
    k: int,
)
    requires
        n <= k < candidates.len(),
        crate::sync::export::uidtype::available(targets, matched, candidates[k]),
        calendars_of(targets[candidates[k]]) == calendars,
    ensures
        crate::sync::export::uidtype::preferred_from(candidates, targets, matched, calendars, n) is Some,
    decreases k - n,
{
    let j = candidates[n as int];
    if n < k && !(crate::sync::export::uidtype::available(targets, matched, j) && calendars_of(targets[j])
        == calendars) {
        lemma_preferred_found(candidates, targets, matched, calendars, n + 1, k);
    }
}

proof fn lemma_preferred_is_right(
    candidates: Seq<int>,
    targets: Seq<JsonView>,
    matched: Seq<Seq<char>>,
    calendars: Set<Seq<char>>,
    n: nat,
)
    ensures
        crate::sync::export::uidtype::preferred_from(candidates, targets, matched, calendars, n) matches Some(j)
            ==> calendars_of(targets[j]) == calendars,
    decreases candidates.len() - n,
{
    if n < candidates.len() {
        lemma_preferred_is_right(candidates, targets, matched, calendars, n + 1);
    }
}

proof fn lemma_hits_grow(rows: Seq<UidRow>, targets: Seq<JsonView>, i: int, n: nat)
    requires
        0 <= i < n <= rows.len(),
    ensures
        pairing(rows, targets, n).0.len() == n,
        pairing(rows, targets, n).0[i] == choice(
            with_uid(targets, rows[i].uid@, targets.len()),
            targets,
            pairing(rows, targets, i as nat).1,
            wanted_in(rows[i]),
        ),
    decreases n,
{
    if n > 1 {
        lemma_hits_grow(
            rows,
            targets,
            if i < n - 1 {
                i
            } else {
                0
            },
            (n - 1) as nat,
        );
    }
}

/// An object of the archive is never created beside its counterpart: where the target
/// has one with the same uid that stands for nothing earlier, one is matched. One that
/// is in exactly the calendars that the event is wanted in is taken before any other.
pub proof fn free_counterparts_are_matched(rows: Seq<UidRow>, targets: Seq<JsonView>, i: int, j: int)
    requires
        0 <= i < rows.len(),
        0 <= j < targets.len(),
        targets[j].text_at("uid"@) == Some(rows[i].uid@),
        targets[j].text_at("id"@) matches Some(id) && !pairing(rows, targets, i as nat).1.contains(id),
    ensures
        ({
            let hit = pairing(rows, targets, rows.len()).0[i];
            &&& hit is Some
            &&& rows[i].calendars is Some && (forall|k: Seq<char>|
                #![trigger text::texts(rows[i].calendars->0@).contains(k)]
                text::texts(rows[i].calendars->0@).contains(k) <==> (targets[j].field("calendarIds"@) matches Some(ids)
                    && ids.bool_at(k) == Some(true))) ==> calendars_of(targets[hit->0]) == calendars_of(targets[j])
        }),
{
    let candidates = with_uid(targets, rows[i].uid@, targets.len());
    let matched = pairing(rows, targets, i as nat).1;
    lemma_hits_grow(rows, targets, i, rows.len());
    lemma_with_uid_complete(targets, rows[i].uid@, targets.len(), j);
    let k = choose|k: int| 0 <= k < candidates.len() && candidates[k] == j;
    lemma_available_found(candidates, targets, matched, 0, k);
    match rows[i].calendars {
        Some(c) => {
            let set = crate::sync::export::uidtype::as_set(text::texts(c@));
            if forall|k: Seq<char>|
                #![trigger text::texts(c@).contains(k)]
                text::texts(c@).contains(k) <==> (targets[j].field("calendarIds"@) matches Some(ids) && ids.bool_at(
                    k,
                ) == Some(true)) {
                assert(set =~= calendars_of(targets[j])) by {
                    assert forall|q: Seq<char>| set.contains(q) <==> calendars_of(targets[j]).contains(q) by {
                        assert(text::texts(c@).contains(q) <==> set.contains(q));
                    }
                }
                lemma_preferred_found(candidates, targets, matched, set, 0, k);
                lemma_preferred_is_right(candidates, targets, matched, set, 0);
            }
        },
        None => {},
    }
}

/// Only counterparts are taken: each id that the pairing takes is that of the
/// counterpart of some object.
pub proof fn only_counterparts_are_taken(rows: Seq<UidRow>, targets: Seq<JsonView>, n: nat, id: Seq<char>)
    requires
        n <= rows.len(),
        pairing(rows, targets, n).1.contains(id),
    ensures
        exists|i: int|
            0 <= i < n && (#[trigger] pairing(rows, targets, n).0[i] matches Some(j) && targets[j].text_at("id"@)
                == Some(id)),
    decreases n,
{
    if n > 0 {
        let (hits, matched) = pairing(rows, targets, n);
        let (before, had) = pairing(rows, targets, (n - 1) as nat);
        lemma_hits_grow(rows, targets, n - 1, n);
        if n > 1 {
            lemma_hits_grow(rows, targets, 0, (n - 1) as nat);
        }
        let k = choose|k: int| 0 <= k < matched.len() && matched[k] == id;
        if k < had.len() {
            assert(had[k] == id);
            only_counterparts_are_taken(rows, targets, (n - 1) as nat, id);
            let i = choose|i: int|
                0 <= i < n - 1 && (#[trigger] before[i] matches Some(j) && targets[j].text_at("id"@) == Some(id));
            assert(hits[i] == before[i]);
        } else {
            let candidates = with_uid(targets, rows[n - 1].uid@, targets.len());
            lemma_choice_is_candidate(candidates, targets, had, wanted_in(rows[n - 1]));
            let j = hits[n - 1]->0;
            lemma_with_uid_sound(targets, rows[n - 1].uid@, targets.len(), j);
            assert(targets[j].text_at("id"@) == Some(id));
        }
    }
}

proof fn lemma_preferred_is_candidate(
    candidates: Seq<int>,
    targets: Seq<JsonView>,
    matched: Seq<Seq<char>>,
    calendars: Set<Seq<char>>,
    n: nat,
)
    ensures
        crate::sync::export::uidtype::preferred_from(candidates, targets, matched, calendars, n) matches Some(j)
            ==> candidates.contains(j),
    decreases candidates.len() - n,
{
    if n < candidates.len() {
        assert(candidates.contains(candidates[n as int]));
        lemma_preferred_is_candidate(candidates, targets, matched, calendars, n + 1);
    }
}

proof fn lemma_choice_is_candidate(
    candidates: Seq<int>,
    targets: Seq<JsonView>,
    matched: Seq<Seq<char>>,
    calendars: Option<Set<Seq<char>>>,
)
    ensures
        choice(candidates, targets, matched, calendars) matches Some(j) ==> candidates.contains(j),
{
    match calendars {
        Some(c) => lemma_preferred_is_candidate(candidates, targets, matched, c, 0),
        None => {},
    }
    lemma_available_is_candidate(candidates, targets, matched, 0);
}

/// What is not matched may go, what is matched stays: each object of the target with
/// an id is offered for removal, as matched exactly where its id is taken.
pub proof fn unmatched_objects_are_offered_for_removal(
    targets: Seq<JsonView>,
    matched: Seq<Seq<char>>,
    n: nat,
    i: int,
    id: Seq<char>,
)
    requires
        0 <= i < n <= targets.len(),
        targets[i].text_at("id"@) == Some(id),
    ensures
        exists|k: int|
            0 <= k < prune_view(targets, matched, n).len() && #[trigger] prune_view(targets, matched, n)[k] == (
                id,
                matched.contains(id),
                false,
                true,
            ),
    decreases n,
{
    let all = prune_view(targets, matched, n);
    let rest = prune_view(targets, matched, (n - 1) as nat);
    if i == n - 1 {
        assert(all[all.len() - 1] == (id, matched.contains(id), false, true));
    } else {
        unmatched_objects_are_offered_for_removal(targets, matched, (n - 1) as nat, i, id);
        let k = choose|k: int| 0 <= k < rest.len() && #[trigger] rest[k] == (id, matched.contains(id), false, true);
        assert(all[k] == rest[k]);
    }
}

/// An update that the target confirms counts as updated and clears the row of the
/// event. One that it refuses is recorded under the event, with the type and the text
/// of the target's error.
pub proof fn updates_end_as_the_target_says(
    local: i64,
    tid: Seq<char>,
    outcome: SetOutcome,
    reads: Option<BlobReads>,
    retry: Option<Seq<char>>,
    stamp: Seq<char>,
)
    ensures
        ({
            let ty = ObjectType::CalendarEvent;
            let end = update_end(ty, local, tid, outcome, reads, retry, stamp);
            let confirmed = exists|k: int| 0 <= k < outcome.updated@.len() && (#[trigger] outcome.updated@[k])@ == tid;
            &&& confirmed ==> (end matches UpdateStepView::Settled(v) && v.tally == Tally::Updated && v.entry
                is Resolve && v.local == local && v.target == Some(tid))
            &&& !confirmed ==> (end matches UpdateStepView::Refused(item, probe) && item.local_id == local
                && item.type_token == "calendarevent"@ && item.client_id == "u"@ + text::integer_text(local as int)
                && item.failed_at == stamp)
            &&& !confirmed && outcome.not_updated@.len() == 1 && outcome.not_updated@[0].0@ == tid
                && outcome.not_updated@[0].1@.text_at("type"@) is Some
                && outcome.not_updated@[0].1@.text_at("type"@)->0.len() > 0 ==> (end
                matches UpdateStepView::Refused(item, probe) && item.error_type
                == outcome.not_updated@[0].1@.text_at("type"@)->0 && (reads is None ==> item.error_detail
                == crate::json::json_compact(outcome.not_updated@[0].1@)) && (probe is Some <==> item.error_type
                == "blobNotFound"@ && retry is Some) && item.target_blob_id == retry)
        }),
{
    let all = text::texts(outcome.updated@);
    if exists|k: int| 0 <= k < outcome.updated@.len() && (#[trigger] outcome.updated@[k])@ == tid {
        let k = choose|k: int| 0 <= k < outcome.updated@.len() && (#[trigger] outcome.updated@[k])@ == tid;
        assert(all[k] == tid);
        assert(all.contains(tid));
    } else {
        if all.contains(tid) {
            let k = choose|k: int| 0 <= k < all.len() && all[k] == tid;
            assert(outcome.updated@[k]@ == tid);
        }
        if outcome.not_updated@.len() == 1 {
            assert(entries(outcome.not_updated@)[0] == (outcome.not_updated@[0].0@, outcome.not_updated@[0].1@));
            reveal_with_fuel(common::lookup, 2);
        }
    }
}

/// An object that the target created counts as created, under its local number, and is
/// mapped to the id that the target gave it.
pub proof fn created_objects_are_mapped(made: Seq<(Seq<char>, JsonView)>, n: nat, i: int, local: i64, id: Seq<char>)
    requires
        0 <= i < n <= made.len(),
        made[i].0 == "c"@ + text::integer_text(local as int),
        made[i].1.text_at("id"@) == Some(id),
    ensures
        exists|k: int|
            0 <= k < created_view(made, n).len() && (#[trigger] created_view(made, n)[k]).local == local
                && created_view(made, n)[k].tally == Tally::Created && created_view(made, n)[k].entry is Resolve
                && created_view(made, n)[k].target == Some(id),
    decreases n,
{
    let all = created_view(made, n);
    let rest = created_view(made, (n - 1) as nat);
    if i == n - 1 {
        common::creation_ids_name_their_object(local);
        let v = all[all.len() - 1];
        assert(v.local == local && v.tally == Tally::Created && v.target == Some(id));
    } else {
        created_objects_are_mapped(made, (n - 1) as nat, i, local, id);
        let k = choose|k: int|
            0 <= k < rest.len() && (#[trigger] rest[k]).local == local && rest[k].tally == Tally::Created
                && rest[k].entry is Resolve && rest[k].target == Some(id);
        assert(all[k] == rest[k]);
    }
}

/// An object that the target refused to create gets a row, with the type of the
/// target's error.
pub proof fn refused_objects_get_a_row(
    ty: ObjectType,
    refused: Seq<(Seq<char>, JsonView)>,
    reads: Option<BlobReads>,
    retry: Option<Seq<char>>,
    stamp: Seq<char>,
    n: nat,
    i: int,
    local: i64,
    kind: Seq<char>,
)
    requires
        0 <= i < n <= refused.len(),
        refused[i].0 == "c"@ + text::integer_text(local as int),
        refused[i].1.text_at("type"@) == Some(kind),
        kind.len() > 0,
    ensures
        ({
            let rows = refusals_view(ty, refused, reads, retry, stamp, n).0;
            exists|k: int|
                0 <= k < rows.len() && (#[trigger] rows[k]).0.local_id == local && rows[k].0.error_type == kind
                    && rows[k].0.client_id == refused[i].0 && rows[k].0.failed_at == stamp && (rows[k].1 is Some
                    <==> retry is Some && kind == "blobNotFound"@)
        }),
    decreases n,
{
    let rows = refusals_view(ty, refused, reads, retry, stamp, n).0;
    let rest = refusals_view(ty, refused, reads, retry, stamp, (n - 1) as nat).0;
    if i == n - 1 {
        common::creation_ids_name_their_object(local);
        let r = rows[rows.len() - 1];
        assert(r.0.local_id == local && r.0.error_type == kind);
    } else {
        refused_objects_get_a_row(ty, refused, reads, retry, stamp, (n - 1) as nat, i, local, kind);
        let k = choose|k: int|
            0 <= k < rest.len() && (#[trigger] rest[k]).0.local_id == local && rest[k].0.error_type == kind
                && rest[k].0.client_id == refused[i].0 && rest[k].0.failed_at == stamp && (rest[k].1 is Some
                <==> retry is Some && kind == "blobNotFound"@);
        assert(rows[k] == rest[k]);
    }
}

/// Controls that were fetched for an event are those it is compared with; everything
/// else of the event stays as it was listed.
pub proof fn fetched_controls_are_taken_over(
    target: Map<Seq<char>, JsonView>,
    control: Map<Seq<char>, JsonView>,
    id: Seq<char>,
    p: Seq<char>,
)
    requires
        target.dom().contains("id"@),
        target["id"@] == JsonView::Str(id),
        control.dom().contains("id"@),
        control["id"@] == JsonView::Str(id),
    ensures
        ({
            let merged = with_controls(JsonView::Object(target), seq![JsonView::Object(control)]);
            let asked = p == "useDefaultAlerts"@ || p == "mayInviteSelf"@ || p == "mayInviteOthers"@ || p
                == "hideAttendees"@;
            &&& asked && control.dom().contains(p) ==> merged.field(p) == Some(control[p])
            &&& !asked || !control.dom().contains(p) ==> merged.field(p) == JsonView::Object(target).field(p)
            &&& with_controls(JsonView::Object(target), Seq::empty()) == JsonView::Object(target)
        }),
{
    reveal_with_fuel(crate::sync::export::uidtype::last_with_id, 2);
    reveal_strlit("useDefaultAlerts");
    reveal_strlit("mayInviteSelf");
    reveal_strlit("mayInviteOthers");
    reveal_strlit("hideAttendees");
    assert("mayInviteSelf"@[0] != "hideAttendees"@[0]);
    assert(JsonView::Object(target).text_at("id"@) == Some(id));
    assert(JsonView::Object(control).text_at("id"@) == Some(id));
    assert(seq![JsonView::Object(control)][0].text_at("id"@) == Some(id));
}

/// The calendars that an event is wanted in are the counterparts of all its local
/// calendars, in their order; where one has none, nothing is known.
pub proof fn wanted_calendars_are_counterparts(maps: Maps, ids: Seq<i64>, i: int)
    ensures
        ({
            let listed = Seq::new(
                ids.len(),
                |k: int| JsonView::Number(crate::json::NumberView::Integer(ids[k] as int)),
            );
            let found = calendars_for(maps, JsonView::Array(listed));
            &&& 0 <= i < ids.len() && maps.stands_for(ObjectType::Calendar, ids[i]) is None ==> found is None
            &&& (forall|k: int|
                #![trigger ids[k]]
                0 <= k < ids.len() ==> maps.stands_for(ObjectType::Calendar, ids[k]) is Some) ==> (found
                matches Some(c) && c.len() == ids.len() && (0 <= i < ids.len() ==> Some(c[i]) == maps.stands_for(
                ObjectType::Calendar,
                ids[i],
            )))
        }),
{
    let listed = Seq::new(ids.len(), |k: int| JsonView::Number(crate::json::NumberView::Integer(ids[k] as int)));
    lemma_counterparts(maps, ids, listed, ids.len(), i);
}

proof fn lemma_counterparts(maps: Maps, ids: Seq<i64>, listed: Seq<JsonView>, n: nat, i: int)
    requires
        n <= ids.len(),
        listed == Seq::new(
            ids.len(),
            |k: int| JsonView::Number(crate::json::NumberView::Integer(ids[k] as int)),
        ),
    ensures
        ({
            let found = crate::sync::export::uidtype::counterparts(maps, listed, n);
            &&& 0 <= i < n && maps.stands_for(ObjectType::Calendar, ids[i]) is None ==> found is None
            &&& (forall|k: int|
                #![trigger ids[k]]
                0 <= k < n ==> maps.stands_for(ObjectType::Calendar, ids[k]) is Some) ==> (found matches Some(c)
                && c.len() == n && (0 <= i < n ==> Some(c[i]) == maps.stands_for(ObjectType::Calendar, ids[i])))
        }),
    decreases n,
{
    if n > 0 {
        lemma_counterparts(maps, ids, listed, (n - 1) as nat, i);
        assert(listed[n - 1] == JsonView::Number(crate::json::NumberView::Integer(ids[n - 1] as int)));
        assert(crate::json::signed_of(crate::json::NumberView::Integer(ids[n - 1] as int)) == Some(ids[n - 1]));
    }
}

/// No refusal is lost: each is a row of an object or is counted among those that name
/// none.
pub proof fn refused_objects_are_all_counted(
    ty: ObjectType,
    refused: Seq<(Seq<char>, JsonView)>,
    reads: Option<BlobReads>,
    retry: Option<Seq<char>>,
    stamp: Seq<char>,
    n: nat,
)
    requires
        n <= refused.len(),
    ensures
        ({
            let (rows, strays) = refusals_view(ty, refused, reads, retry, stamp, n);
            rows.len() + strays == n
        }),
    decreases n,
{
    if n > 0 {
        refused_objects_are_all_counted(ty, refused, reads, retry, stamp, (n - 1) as nat);
    }
}

} // verus!
