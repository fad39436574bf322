//! Contacts and calendar events: objects that carry a uid.

use vstd::prelude::*;
use vstd::string::*;

use crate::jmap::blobxfer::BlobLookup;
use crate::json::{equal, json_parse, signed_of, views, Json, JsonObject, JsonView};
use crate::sync::export::common::{
    arrived, created_object, entries, failed, failure, find_entry, jid, lookup, on_target,
    make_update_id, parse_creation_id, update_id, verdicts, Entry, EntryView, Maps, SetOutcome, Tally, Verdict,
    VerdictView,
};
use crate::sync::export::common;
use crate::sync::export::quarantine::{
    lookup_text, probe_of, probed, probed_view, reads_ok, record_refusal, record_update_refusal,
    refusal_error, refusal_view, second_of, BlobReads, BlobRetry, Refusal,
};
use crate::sync::prune::TargetObj;
use crate::text;
use crate::types::ObjectType;

verus! {

/// The properties of an event that a target accepts in an update. What a target
/// derives or owns itself is not among them.
pub open spec fn writable(p: Seq<char>) -> bool {
    ||| p == "@type"@
    ||| p == "alerts"@
    ||| p == "calendarIds"@
    ||| p == "categories"@
    ||| p == "color"@
    ||| p == "created"@
    ||| p == "description"@
    ||| p == "descriptionContentType"@
    ||| p == "duration"@
    ||| p == "endTimeZone"@
    ||| p == "freeBusyStatus"@
    ||| p == "hideAttendees"@
    ||| p == "isDraft"@
    ||| p == "keywords"@
    ||| p == "links"@
    ||| p == "locale"@
    ||| p == "locations"@
    ||| p == "mainLocationId"@
    ||| p == "mayInviteOthers"@
    ||| p == "mayInviteSelf"@
    ||| p == "organizerCalendarAddress"@
    ||| p == "participants"@
    ||| p == "priority"@
    ||| p == "privacy"@
    ||| p == "prodId"@
    ||| p == "recurrenceId"@
    ||| p == "recurrenceIdTimeZone"@
    ||| p == "recurrenceOverrides"@
    ||| p == "recurrenceRule"@
    ||| p == "relatedTo"@
    ||| p == "replyTo"@
    ||| p == "requestStatus"@
    ||| p == "sentBy"@
    ||| p == "sequence"@
    ||| p == "showWithoutTime"@
    ||| p == "start"@
    ||| p == "status"@
    ||| p == "timeZone"@
    ||| p == "title"@
    ||| p == "updated"@
    ||| p == "useDefaultAlerts"@
    ||| p == "virtualLocations"@
}

/// See [`writable`].
fn calendar_event_property_is_writable(property: &str) -> (r: bool)
    ensures
        r == writable(property@),
{
    text::same(property, "@type")
        || text::same(property, "alerts")
        || text::same(property, "calendarIds")
        || text::same(property, "categories")
        || text::same(property, "color")
        || text::same(property, "created")
        || text::same(property, "description")
        || text::same(property, "descriptionContentType")
        || text::same(property, "duration")
        || text::same(property, "endTimeZone")
        || text::same(property, "freeBusyStatus")
        || text::same(property, "hideAttendees")
        || text::same(property, "isDraft")
        || text::same(property, "keywords")
        || text::same(property, "links")
        || text::same(property, "locale")
        || text::same(property, "locations")
        || text::same(property, "mainLocationId")
        || text::same(property, "mayInviteOthers")
        || text::same(property, "mayInviteSelf")
        || text::same(property, "organizerCalendarAddress")
        || text::same(property, "participants")
        || text::same(property, "priority")
        || text::same(property, "privacy")
        || text::same(property, "prodId")
        || text::same(property, "recurrenceId")
        || text::same(property, "recurrenceIdTimeZone")
        || text::same(property, "recurrenceOverrides")
        || text::same(property, "recurrenceRule")
        || text::same(property, "relatedTo")
        || text::same(property, "replyTo")
        || text::same(property, "requestStatus")
        || text::same(property, "sentBy")
        || text::same(property, "sequence")
        || text::same(property, "showWithoutTime")
        || text::same(property, "start")
        || text::same(property, "status")
        || text::same(property, "timeZone")
        || text::same(property, "title")
        || text::same(property, "updated")
        || text::same(property, "useDefaultAlerts")
        || text::same(property, "virtualLocations")
}

/// What clears a property.
pub open spec fn cleared(p: Seq<char>) -> JsonView {
    if p == "mayInviteSelf"@ || p == "mayInviteOthers"@ || p == "hideAttendees"@ {
        JsonView::Bool(false)
    } else {
        JsonView::Null
    }
}

fn clear_value(property: &str) -> (r: Json)
    ensures
        r@ == cleared(property@),
{
    if text::same(property, "mayInviteSelf") || text::same(property, "mayInviteOthers") || text::same(
        property,
        "hideAttendees",
    ) {
        Json::Bool(false)
    } else {
        Json::Null
    }
}

/// Whether a property is to be set to what is wanted.
pub open spec fn to_set(target: JsonView, desired: Map<Seq<char>, JsonView>, p: Seq<char>) -> bool {
    &&& writable(p)
    &&& desired.dom().contains(p)
    &&& !(target.field(p) matches Some(t) && equal(t, desired[p]))
}

/// Whether a property is to be cleared, because it is not wanted.
pub open spec fn to_clear(target: JsonView, desired: Map<Seq<char>, JsonView>, p: Seq<char>) -> bool {
    &&& writable(p)
    &&& !desired.dom().contains(p)
    &&& target.field(p) matches Some(t) && !equal(t, cleared(p))
}

/// The update that brings an event of the target in line.
pub open spec fn update_patch(target: JsonView, desired: JsonView) -> Map<Seq<char>, JsonView> {
    match desired {
        JsonView::Object(d) => Map::new(
            |p: Seq<char>| to_set(target, d, p) || to_clear(target, d, p),
            |p: Seq<char>|
                if d.dom().contains(p) {
                    d[p]
                } else {
                    cleared(p)
                },
        ),
        _ => Map::empty(),
    }
}

/// See [`update_patch`].
pub fn calendar_event_update_patch(target: &Json, desired: &Json) -> (r: JsonObject)
    ensures
        r@ == update_patch(target@, desired@),
{
    let d = match desired {
        Json::Object(o) => o,
        _ => {
            return JsonObject::new();
        },
    };
    let ghost want = update_patch(target@, desired@);
    let ghost dm = d@;
    let mut out = JsonObject::new();
    let n: usize = d.len();
    let mut i: usize = 0;
    while i < n
        invariant
            n == d.keys().len(),
            i <= n,
            dm == d@,
            desired@ == JsonView::Object(dm),
            want == update_patch(target@, desired@),
            forall|k: Seq<char>|
                #![trigger d@.dom().contains(k)]
                #![trigger d.keys().contains(k)]
                d@.dom().contains(k) <==> d.keys().contains(k),
            forall|k: Seq<char>| #[trigger] out@.dom().contains(k) ==> want.dom().contains(k) && out@[k] == want[k],
            forall|j: int|
                0 <= j < i && want.dom().contains(#[trigger] d.keys()[j]) ==> out@.dom().contains(d.keys()[j]),
        decreases n - i,
    {
        let name = d.key_at(i);
        let value = d.value_at(i);
        let differs = match target.get(name) {
            Some(t) => !t.equals(value),
            None => true,
        };
        if differs && calendar_event_property_is_writable(name) {
            out.insert(name.to_owned(), value.copy());
        }
        i += 1;
    }
    let ghost set = out@;
    match target {
        Json::Object(t) => {
            let m: usize = t.len();
            let mut k: usize = 0;
            while k < m
                invariant
                    m == t.keys().len(),
                    k <= m,
                    dm == d@,
                    desired@ == JsonView::Object(dm),
                    target@ == JsonView::Object(t@),
                    want == update_patch(target@, desired@),
                    forall|q: Seq<char>| #[trigger]
                        out@.dom().contains(q) ==> want.dom().contains(q) && out@[q] == want[q],
                    forall|q: Seq<char>| #[trigger] set.dom().contains(q) ==> out@.dom().contains(q),
                    forall|j: int|
                        0 <= j < k && to_clear(target@, dm, #[trigger] t.keys()[j]) ==> out@.dom().contains(
                            t.keys()[j],
                        ),
                decreases m - k,
            {
                let name = t.key_at(k);
                let value = t.value_at(k);
                assert(target@.field(name@) == Some(value@));
                if !d.contains_key(name) && calendar_event_property_is_writable(name) {
                    let clear = clear_value(name);
                    if !value.equals(&clear) {
                        assert(to_clear(target@, dm, name@));
                        out.insert(name.to_owned(), clear);
                    }
                }
                k += 1;
            }
            assert forall|q: Seq<char>| to_clear(target@, dm, q) implies out@.dom().contains(q) by {
                assert(t@.dom().contains(q));
                assert(t.keys().contains(q));
                let j = choose|j: int| 0 <= j < t.keys().len() && t.keys()[j] == q;
                assert(out@.dom().contains(t.keys()[j]));
            }
        },
        _ => {},
    }
    assert forall|q: Seq<char>| want.dom().contains(q) implies out@.dom().contains(q) by {
        if to_set(target@, dm, q) {
            assert(d.keys().contains(q));
            let j = choose|j: int| 0 <= j < d.keys().len() && d.keys()[j] == q;
            assert(set.dom().contains(d.keys()[j]));
        }
    }
    assert(out@ =~= want);
    out
}

/// Nothing that a target owns enters an update.
pub proof fn updates_hold_writable_properties_only(target: JsonView, desired: JsonView, p: Seq<char>)
    requires
        update_patch(target, desired).dom().contains(p),
    ensures
        writable(p),
{
}

/// An update converges: once a target has stored what it was sent, `null` included,
/// there is nothing left to update.
pub proof fn an_update_converges(target: Map<Seq<char>, JsonView>, desired: Map<Seq<char>, JsonView>)
    ensures
        ({
            let d = JsonView::Object(desired);
            let applied = target.union_prefer_right(update_patch(JsonView::Object(target), d));
            update_patch(JsonView::Object(applied), d) == Map::<Seq<char>, JsonView>::empty()
        }),
{
    let d = JsonView::Object(desired);
    let patch = update_patch(JsonView::Object(target), d);
    let applied = target.union_prefer_right(patch);
    let again = update_patch(JsonView::Object(applied), d);
    assert forall|p: Seq<char>| !again.dom().contains(p) by {
        if writable(p) {
            if desired.dom().contains(p) {
                if patch.dom().contains(p) {
                    assert(applied[p] == desired[p]);
                } else {
                    assert(applied[p] == target[p]);
                }
            } else if patch.dom().contains(p) {
                assert(applied[p] == cleared(p));
            }
        }
    }
    assert(again =~= Map::<Seq<char>, JsonView>::empty());
}

/// An object after an update, on a target that takes `null` for the removal of a
/// property.
pub open spec fn patched(
    target: Map<Seq<char>, JsonView>,
    patch: Map<Seq<char>, JsonView>,
) -> Map<Seq<char>, JsonView> {
    let gone = Set::new(|p: Seq<char>| patch.dom().contains(p) && patch[p] == JsonView::Null);
    target.union_prefer_right(patch).remove_keys(gone)
}

/// An update converges on a target that takes `null` for removal too, where no
/// property that can be written is wanted to be `null` (but one that is so already).
pub proof fn an_update_with_removals_converges(
    target: Map<Seq<char>, JsonView>,
    desired: Map<Seq<char>, JsonView>,
)
    requires
        forall|p: Seq<char>|
            writable(p) && #[trigger] desired.dom().contains(p) && desired[p] == JsonView::Null ==> JsonView::Object(
                target,
            ).field(p) == Some(JsonView::Null),
    ensures
        ({
            let d = JsonView::Object(desired);
            let applied = patched(target, update_patch(JsonView::Object(target), d));
            update_patch(JsonView::Object(applied), d) == Map::<Seq<char>, JsonView>::empty()
        }),
{
    let d = JsonView::Object(desired);
    let patch = update_patch(JsonView::Object(target), d);
    let applied = patched(target, patch);
    let again = update_patch(JsonView::Object(applied), d);
    assert forall|p: Seq<char>| !again.dom().contains(p) by {
        if writable(p) {
            if desired.dom().contains(p) {
                if patch.dom().contains(p) {
                    assert(applied[p] == desired[p]);
                } else {
                    assert(applied[p] == target[p]);
                }
            } else if patch.dom().contains(p) {
                if cleared(p) == JsonView::Null {
                    assert(!applied.dom().contains(p));
                } else {
                    assert(applied[p] == cleared(p));
                }
            }
        }
    }
    assert(again =~= Map::<Seq<char>, JsonView>::empty());
}

/// The calendars that an event of the target is in.
pub open spec fn calendars_of(t: JsonView) -> Set<Seq<char>> {
    Set::new(
        |k: Seq<char>|
            match t.field("calendarIds"@) {
                Some(c) => c.bool_at(k) == Some(true),
                None => false,
            },
    )
}

/// The texts of a list, as a set.
pub open spec fn as_set(v: Seq<Seq<char>>) -> Set<Seq<char>> {
    Set::new(|k: Seq<char>| v.contains(k))
}

/// See [`calendars_of`].
pub fn target_calendar_ids(target: &Json) -> (r: Vec<String>)
    ensures
        as_set(text::texts(r@)) == calendars_of(target@),
{
    let mut out: Vec<String> = Vec::new();
    match target.get("calendarIds") {
        Some(Json::Object(ids)) => {
            let ghost c = JsonView::Object(ids@);
            let n: usize = ids.len();
            let mut i: usize = 0;
            while i < n
                invariant
                    n == ids.keys().len(),
                    i <= n,
                    c == JsonView::Object(ids@),
                    target@.field("calendarIds"@) == Some(c),
                    forall|k: Seq<char>|
                        #![trigger ids@.dom().contains(k)]
                        #![trigger ids.keys().contains(k)]
                        ids@.dom().contains(k) <==> ids.keys().contains(k),
                    forall|q: int| 0 <= q < out@.len() ==> c.bool_at((#[trigger] out@[q])@) == Some(true),
                    forall|j: int|
                        0 <= j < i && c.bool_at(#[trigger] ids.keys()[j]) == Some(true) ==> text::texts(
                            out@,
                        ).contains(ids.keys()[j]),
                decreases n - i,
            {
                let name = ids.key_at(i);
                let value = ids.value_at(i);
                let ghost was = text::texts(out@);
                match value.as_bool() {
                    Some(true) => {
                        out.push(name.to_owned());
                        assert(text::texts(out@)[was.len() as int] == name@);
                    },
                    _ => {},
                }
                assert forall|j: int| 0 <= j < i + 1 && c.bool_at(#[trigger] ids.keys()[j]) == Some(
                    true,
                ) implies text::texts(out@).contains(ids.keys()[j]) by {
                    if j < i {
                        let q = choose|q: int| 0 <= q < was.len() && was[q] == ids.keys()[j];
                        assert(text::texts(out@)[q] == ids.keys()[j]);
                    }
                }
                i += 1;
            }
            assert forall|k: Seq<char>| calendars_of(target@).contains(k) implies text::texts(out@).contains(
                k,
            ) by {
                assert(ids@.dom().contains(k));
                assert(ids.keys().contains(k));
                let j = choose|j: int| 0 <= j < ids.keys().len() && ids.keys()[j] == k;
                assert(text::texts(out@).contains(ids.keys()[j]));
            }
            assert forall|k: Seq<char>| text::texts(out@).contains(k) implies calendars_of(target@).contains(
                k,
            ) by {
                let q = choose|q: int| 0 <= q < text::texts(out@).len() && text::texts(out@)[q] == k;
                assert(c.bool_at(out@[q]@) == Some(true));
            }
        },
        _ => {
            assert(text::texts(out@) =~= Seq::<Seq<char>>::empty());
        },
    }
    assert(as_set(text::texts(out@)) =~= calendars_of(target@));
    out
}

fn contained(a: &Vec<String>, b: &Vec<String>) -> (r: bool)
    ensures
        r == as_set(text::texts(a@)).subset_of(as_set(text::texts(b@))),
{
    let mut i: usize = 0;
    while i < a.len()
        invariant
            i <= a.len(),
            forall|j: int| 0 <= j < i ==> text::texts(b@).contains((#[trigger] a@[j])@),
        decreases a.len() - i,
    {
        if !text::listed(b, a[i].as_str()) {
            assert(text::texts(a@)[i as int] == a@[i as int]@);
            assert(as_set(text::texts(a@)).contains(a@[i as int]@));
            return false;
        }
        i += 1;
    }
    assert forall|k: Seq<char>| as_set(text::texts(a@)).contains(k) implies as_set(text::texts(b@)).contains(k) by {
        let q = choose|q: int| 0 <= q < text::texts(a@).len() && text::texts(a@)[q] == k;
        assert(a@[q]@ == k);
    }
    true
}

fn same_set(a: &Vec<String>, b: &Vec<String>) -> (r: bool)
    ensures
        r == (as_set(text::texts(a@)) == as_set(text::texts(b@))),
{
    let r = contained(a, b) && contained(b, a);
    proof {
        if r {
            assert(as_set(text::texts(a@)) =~= as_set(text::texts(b@)));
        }
    }
    r
}

/// Whether an object of the target is still free.
pub open spec fn available(targets: Seq<JsonView>, matched: Seq<Seq<char>>, j: int) -> bool {
    0 <= j < targets.len() && (targets[j].text_at("id"@) matches Some(id) && !matched.contains(id))
}

/// The first free candidate, from place `n` on, that is in exactly some
/// calendars.
pub open spec fn preferred_from(
    candidates: Seq<int>,
    targets: Seq<JsonView>,
    matched: Seq<Seq<char>>,
    calendars: Set<Seq<char>>,
    n: nat,
) -> Option<int>
    decreases candidates.len() - n,
{
    if n >= candidates.len() {
        None
    } else {
        let j = candidates[n as int];
        if available(targets, matched, j) && calendars_of(targets[j]) == calendars {
            Some(j)
        } else {
            preferred_from(candidates, targets, matched, calendars, n + 1)
        }
    }
}

/// The first free candidate, from place `n` on.
pub open spec fn available_from(candidates: Seq<int>, targets: Seq<JsonView>, matched: Seq<Seq<char>>, n: nat) -> Option<int>
    decreases candidates.len() - n,
{
    if n >= candidates.len() {
        None
    } else if available(targets, matched, candidates[n as int]) {
        Some(candidates[n as int])
    } else {
        available_from(candidates, targets, matched, n + 1)
    }
}

/// The candidate that stands for an object: the first free one in the calendars
/// that it is wanted in, else the first free one.
pub open spec fn choice(
    candidates: Seq<int>,
    targets: Seq<JsonView>,
    matched: Seq<Seq<char>>,
    calendars: Option<Set<Seq<char>>>,
) -> Option<int> {
    let liked = match calendars {
        Some(c) => preferred_from(candidates, targets, matched, c, 0),
        None => None,
    };
    match liked {
        Some(j) => Some(j),
        None => available_from(candidates, targets, matched, 0),
    }
}

/// The set of an optional list.
pub open spec fn opt_set(p: Option<&Vec<String>>) -> Option<Set<Seq<char>>> {
    match p {
        Some(v) => Some(as_set(text::texts(v@))),
        None => None,
    }
}

/// Places as integers.
pub open spec fn places(v: Seq<usize>) -> Seq<int> {
    Seq::new(v.len(), |i: int| v[i] as int)
}

fn is_available(targets: &Vec<Json>, matched: &Vec<String>, j: usize) -> (r: bool)
    ensures
        r == available(views(targets@), text::texts(matched@), j as int),
{
    if j >= targets.len() {
        return false;
    }
    assert(views(targets@)[j as int] == targets@[j as int]@);
    match targets[j].str_at("id") {
        Some(id) => !text::listed(matched, id),
        None => false,
    }
}

/// See [`choice`].
pub fn choose_target(
    candidates: &Vec<usize>,
    targets: &Vec<Json>,
    matched: &Vec<String>,
    preferred_calendars: Option<&Vec<String>>,
) -> (r: Option<usize>)
    ensures
        match r {
            Some(j) => choice(
                places(candidates@),
                views(targets@),
                text::texts(matched@),
                opt_set(preferred_calendars),
            ) == Some(j as int) && available(views(targets@), text::texts(matched@), j as int),
            None => choice(
                places(candidates@),
                views(targets@),
                text::texts(matched@),
                opt_set(preferred_calendars),
            ) is None,
        },
{
    let ghost c = places(candidates@);
    let ghost t = views(targets@);
    let ghost m = text::texts(matched@);
    match preferred_calendars {
        Some(wanted) => {
            let ghost set = as_set(text::texts(wanted@));
            let mut i: usize = 0;
            while i < candidates.len()
                invariant
                    i <= candidates.len(),
                    c == places(candidates@),
                    t == views(targets@),
                    m == text::texts(matched@),
                    set == as_set(text::texts(wanted@)),
                    opt_set(preferred_calendars) == Some(set),
                    preferred_from(c, t, m, set, 0) == preferred_from(c, t, m, set, i as nat),
                decreases candidates.len() - i,
            {
                let j: usize = candidates[i];
                assert(c[i as int] == j);
                if is_available(targets, matched, j) {
                    assert(t[j as int] == targets@[j as int]@);
                    let ids = target_calendar_ids(&targets[j]);
                    if same_set(&ids, wanted) {
                        return Some(j);
                    }
                }
                i += 1;
            }
        },
        None => {},
    }
    let mut i: usize = 0;
    while i < candidates.len()
        invariant
            i <= candidates.len(),
            c == places(candidates@),
            t == views(targets@),
            m == text::texts(matched@),
            choice(c, t, m, opt_set(preferred_calendars)) == available_from(c, t, m, 0),
            available_from(c, t, m, 0) == available_from(c, t, m, i as nat),
        decreases candidates.len() - i,
    {
        let j: usize = candidates[i];
        assert(c[i as int] == j);
        if is_available(targets, matched, j) {
            return Some(j);
        }
        i += 1;
    }
    None
}

/// The objects of the target, among the first `n`, with a uid and an id.
pub open spec fn with_uid(targets: Seq<JsonView>, uid: Seq<char>, n: nat) -> Seq<int>
    decreases n,
{
    if n == 0 || n > targets.len() {
        Seq::empty()
    } else {
        let rest = with_uid(targets, uid, (n - 1) as nat);
        if targets[n - 1].text_at("uid"@) == Some(uid) && targets[n - 1].text_at("id"@) is Some {
            rest.push(n - 1)
        } else {
            rest
        }
    }
}

fn candidates_for(targets: &Vec<Json>, uid: &str) -> (r: Vec<usize>)
    ensures
        places(r@) == with_uid(views(targets@), uid@, targets@.len()),
{
    let ghost all = views(targets@);
    let mut out: Vec<usize> = Vec::new();
    assert(places(out@) =~= Seq::<int>::empty());
    let mut i: usize = 0;
    while i < targets.len()
        invariant
            i <= targets.len(),
            all == views(targets@),
            places(out@) == with_uid(all, uid@, i as nat),
        decreases targets.len() - i,
    {
        assert(all[i as int] == targets@[i as int]@);
        let ghost was = places(out@);
        if targets[i].str_at("id").is_some() {
            match targets[i].str_at("uid") {
                Some(u) => if text::same(u, uid) {
                    out.push(i);
                    assert(places(out@) =~= was.push(i as int));
                },
                None => {},
            }
        }
        i += 1;
    }
    out
}

/// An object of the archive: its id and uid, and the calendars of the target
/// that it is wanted in, as far as they are known.
pub struct UidRow {
    pub local: i64,
    pub uid: String,
    pub calendars: Option<Vec<String>>,
}

/// The calendars that an object is wanted in.
pub open spec fn wanted_in(r: UidRow) -> Option<Set<Seq<char>>> {
    match r.calendars {
        Some(v) => Some(as_set(text::texts(v@))),
        None => None,
    }
}

/// The counterparts of the first `n` objects, and the ids of those that are
/// taken.
pub open spec fn pairing(rows: Seq<UidRow>, targets: Seq<JsonView>, n: nat) -> (Seq<Option<int>>, Seq<Seq<char>>)
    decreases n,
{
    if n == 0 || n > rows.len() {
        (Seq::empty(), Seq::empty())
    } else {
        let (hits, matched) = pairing(rows, targets, (n - 1) as nat);
        let row = rows[n - 1];
        match choice(with_uid(targets, row.uid@, targets.len()), targets, matched, wanted_in(row)) {
            Some(j) => (hits.push(Some(j)), matched.push(targets[j].text_at("id"@)->0)),
            None => (hits.push(None), matched),
        }
    }
}

/// The counterparts of the objects of an archive, and the ids of those taken.
pub struct UidPlan {
    pub hits: Vec<Option<usize>>,
    pub matched: Vec<String>,
}

/// The views of counterparts.
pub open spec fn hits_view(h: Seq<Option<usize>>) -> Seq<Option<int>> {
    Seq::new(
        h.len(),
        |i: int|
            match h[i] {
                Some(j) => Some(j as int),
                None => None,
            },
    )
}

/// Finds, for each object of the archive, the object of the target that stands
/// for it; see [`pairing`].
pub fn reconcile(rows: &Vec<UidRow>, targets: &Vec<Json>) -> (r: UidPlan)
    ensures
        (hits_view(r.hits@), text::texts(r.matched@)) == pairing(rows@, views(targets@), rows@.len()),
{
    let ghost t = views(targets@);
    let mut plan = UidPlan { hits: Vec::new(), matched: Vec::new() };
    assert(hits_view(plan.hits@) =~= Seq::<Option<int>>::empty());
    assert(text::texts(plan.matched@) =~= Seq::<Seq<char>>::empty());
    let mut i: usize = 0;
    while i < rows.len()
        invariant
            i <= rows.len(),
            t == views(targets@),
            (hits_view(plan.hits@), text::texts(plan.matched@)) == pairing(rows@, t, i as nat),
        decreases rows.len() - i,
    {
        let row = &rows[i];
        let ghost was = (hits_view(plan.hits@), text::texts(plan.matched@));
        let candidates = candidates_for(targets, row.uid.as_str());
        let wanted = match &row.calendars {
            Some(v) => Some(v),
            None => None,
        };
        assert(opt_set(wanted) == wanted_in(*row));
        match choose_target(&candidates, targets, &plan.matched, wanted) {
            Some(j) => {
                assert(t[j as int] == targets@[j as int]@);
                let id: String = match jid(&targets[j]) {
                    Some(id) => id,
                    None => String::new(),
                };
                plan.hits.push(Some(j));
                assert(hits_view(plan.hits@) =~= was.0.push(Some(j as int)));
                plan.matched.push(id);
                assert(text::texts(plan.matched@) =~= was.1.push(id@));
            },
            None => {
                plan.hits.push(None);
                assert(hits_view(plan.hits@) =~= was.0.push(None));
            },
        }
        i += 1;
    }
    plan
}

proof fn lemma_choice_free(
    candidates: Seq<int>,
    targets: Seq<JsonView>,
    matched: Seq<Seq<char>>,
    calendars: Option<Set<Seq<char>>>,
)
    ensures
        choice(candidates, targets, matched, calendars) matches Some(j) ==> available(targets, matched, j)
            && candidates.contains(j),
{
    if calendars is Some {
        lemma_preferred(candidates, targets, matched, calendars->0, 0);
    }
    lemma_available(candidates, targets, matched, 0);
}

proof fn lemma_preferred(
    candidates: Seq<int>,
    targets: Seq<JsonView>,
    matched: Seq<Seq<char>>,
    calendars: Set<Seq<char>>,
    n: nat,
)
    ensures
        preferred_from(candidates, targets, matched, calendars, n) matches Some(j) ==> available(
            targets,
            matched,
            j,
        ) && candidates.contains(j) && calendars_of(targets[j]) == calendars,
    decreases candidates.len() - n,
{
    if n < candidates.len() {
        lemma_preferred(candidates, targets, matched, calendars, n + 1);
    }
}

proof fn lemma_available(candidates: Seq<int>, targets: Seq<JsonView>, matched: Seq<Seq<char>>, n: nat)
    ensures
        available_from(candidates, targets, matched, n) matches Some(j) ==> available(targets, matched, j)
            && candidates.contains(j),
    decreases candidates.len() - n,
{
    if n < candidates.len() {
        lemma_available(candidates, targets, matched, n + 1);
    }
}

proof fn lemma_with_uid(targets: Seq<JsonView>, uid: Seq<char>, n: nat, j: int)
    requires
        n <= targets.len(),
        with_uid(targets, uid, n).contains(j),
    ensures
        0 <= j < n,
        targets[j].text_at("uid"@) == Some(uid),
    decreases n,
{
    if n > 0 {
        let rest = with_uid(targets, uid, (n - 1) as nat);
        let q = choose|q: int| 0 <= q < with_uid(targets, uid, n).len() && with_uid(targets, uid, n)[q] == j;
        if q < rest.len() {
            assert(rest[q] == j);
            lemma_with_uid(targets, uid, (n - 1) as nat, j);
        }
    }
}

/// Objects are paired one to one and by uid: no two objects of the archive share
/// a counterpart, and a counterpart has the same uid.
pub proof fn objects_are_paired_one_to_one(rows: Seq<UidRow>, targets: Seq<JsonView>, n: nat)
    requires
        n <= rows.len(),
    ensures
        ({
            let (hits, matched) = pairing(rows, targets, n);
            &&& hits.len() == n
            &&& forall|a: int| #![trigger hits[a]]
                0 <= a < n && hits[a] is Some ==> 0 <= hits[a]->0 < targets.len() && targets[hits[a]->0].text_at(
                    "uid"@,
                ) == Some(rows[a].uid@) && (targets[hits[a]->0].text_at("id"@) matches Some(id)
                    && matched.contains(id))
            &&& forall|a: int, b: int| #![trigger hits[a], hits[b]]
                0 <= a < b < n && hits[a] is Some && hits[b] is Some ==> targets[hits[a]->0].text_at("id"@)
                    != targets[hits[b]->0].text_at("id"@)
        }),
    decreases n,
{
    if n > 0 {
        objects_are_paired_one_to_one(rows, targets, (n - 1) as nat);
        let (old_hits, old_matched) = pairing(rows, targets, (n - 1) as nat);
        let (hits, matched) = pairing(rows, targets, n);
        let row = rows[n - 1];
        let c = with_uid(targets, row.uid@, targets.len());
        lemma_choice_free(c, targets, old_matched, wanted_in(row));
        assert forall|a: int| 0 <= a < n - 1 implies hits[a] == old_hits[a] by {}
        match choice(c, targets, old_matched, wanted_in(row)) {
            Some(j) => {
                lemma_with_uid(targets, row.uid@, targets.len(), j);
                let id = targets[j].text_at("id"@)->0;
                assert(matched[old_matched.len() as int] == id);
                assert forall|a: int| #![trigger hits[a]] 0 <= a < n && hits[a] is Some implies 0 <= hits[a]->0
                    < targets.len() && targets[hits[a]->0].text_at("uid"@) == Some(rows[a].uid@) && (
                targets[hits[a]->0].text_at("id"@) matches Some(x) && matched.contains(x)) by {
                    if a < n - 1 {
                        assert(old_hits[a] == hits[a]);
                        let x = targets[hits[a]->0].text_at("id"@)->0;
                        let w = choose|w: int| 0 <= w < old_matched.len() && old_matched[w] == x;
                        assert(matched[w] == x);
                    }
                }
                assert forall|a: int, b: int| #![trigger hits[a], hits[b]] 0 <= a < b < n && hits[a] is Some
                    && hits[b] is Some implies targets[hits[a]->0].text_at("id"@) != targets[hits[b]->0].text_at(
                    "id"@,
                ) by {
                    assert(old_hits[a] == hits[a]);
                    if b < n - 1 {
                        assert(old_hits[b] == hits[b]);
                    }
                }
            },
            None => {
                assert forall|a: int| #![trigger hits[a]] 0 <= a < n && hits[a] is Some implies 0 <= hits[a]->0
                    < targets.len() && targets[hits[a]->0].text_at("uid"@) == Some(rows[a].uid@) && (
                targets[hits[a]->0].text_at("id"@) matches Some(x) && matched.contains(x)) by {
                    assert(old_hits[a] == hits[a]);
                }
                assert forall|a: int, b: int| #![trigger hits[a], hits[b]] 0 <= a < b < n && hits[a] is Some
                    && hits[b] is Some implies targets[hits[a]->0].text_at("id"@) != targets[hits[b]->0].text_at(
                    "id"@,
                ) by {
                    assert(old_hits[a] == hits[a]);
                    assert(old_hits[b] == hits[b]);
                }
            },
        }
    }
}

/// What comes after an event of the archive was matched.
pub enum EventStep {
    Settled(Verdict),
    /// The update to send.
    Send(JsonObject),
}

/// The view of an [`EventStep`].
pub enum EventStepView {
    Settled(VerdictView),
    Send(Map<Seq<char>, JsonView>),
}

impl View for EventStep {
    type V = EventStepView;

    open spec fn view(&self) -> EventStepView {
        match self {
            EventStep::Settled(v) => EventStepView::Settled(v@),
            EventStep::Send(p) => EventStepView::Send(p@),
        }
    }
}

/// What to do with a matched object. A contact is left as it is; an event is
/// brought in line with the archive.
pub open spec fn matched_object(
    ty: ObjectType,
    local: i64,
    target: JsonView,
    tid: Seq<char>,
    wire: Result<JsonView, Seq<char>>,
    dry_run: bool,
    stamp: Seq<char>,
) -> EventStepView {
    if ty == ObjectType::ContactCard {
        EventStepView::Settled(on_target(local, Tally::Skipped, Some(tid)))
    } else {
        match wire {
            Err(e) => EventStepView::Settled(
                common::lost(ty, local, update_id(local), None, "buildFailed"@, e, stamp, Some(tid)),
            ),
            Ok(w) => {
                let patch = update_patch(target, w);
                if patch == Map::<Seq<char>, JsonView>::empty() {
                    EventStepView::Settled(on_target(local, Tally::Skipped, Some(tid)))
                } else if dry_run {
                    EventStepView::Settled(
                        VerdictView {
                            local,
                            tally: Tally::Updated,
                            entry: EntryView::Keep,
                            target: Some(tid),
                        },
                    )
                } else {
                    EventStepView::Send(patch)
                }
            },
        }
    }
}

/// A dry run sends no update.
pub proof fn a_dry_run_updates_nothing(
    ty: ObjectType,
    local: i64,
    target: JsonView,
    tid: Seq<char>,
    wire: Result<JsonView, Seq<char>>,
    stamp: Seq<char>,
)
    ensures
        matched_object(ty, local, target, tid, wire, true, stamp) is Settled,
{
}

/// The view of a built object, or of why it was not built.
pub open spec fn wire_view(w: Result<Json, String>) -> Result<JsonView, Seq<char>> {
    match w {
        Ok(j) => Ok(j@),
        Err(e) => Err(e@),
    }
}

/// See [`matched_object`].
pub fn settle_matched(
    ty: ObjectType,
    local: i64,
    target: &Json,
    tid: &str,
    wire: Result<Json, String>,
    dry_run: bool,
    stamp: &str,
) -> (r: EventStep)
    ensures
        r@ == matched_object(ty, local, target@, tid@, wire_view(wire), dry_run, stamp@),
{
    match ty {
        ObjectType::ContactCard => {
            return EventStep::Settled(arrived(local, Tally::Skipped, Some(tid.to_owned())));
        },
        _ => {},
    }
    match wire {
        Err(e) => EventStep::Settled(
            common::lose(
                ty,
                local,
                make_update_id(local).as_str(),
                None,
                "buildFailed",
                e,
                stamp,
                Some(tid.to_owned()),
            ),
        ),
        Ok(w) => {
            let patch = calendar_event_update_patch(target, &w);
            if patch.is_empty() {
                EventStep::Settled(arrived(local, Tally::Skipped, Some(tid.to_owned())))
            } else if dry_run {
                EventStep::Settled(
                    Verdict {
                        local,
                        tally: Tally::Updated,
                        entry: Entry::Keep,
                        target: Some(tid.to_owned()),
                    },
                )
            } else {
                EventStep::Send(patch)
            }
        },
    }
}

/// What the answer to an update comes to.
pub enum UpdateStep {
    Settled(Verdict),
    /// Refused: the blob that the refusal names is asked for before the row is
    /// written.
    Refused(Refusal),
}

/// The view of an [`UpdateStep`].
pub enum UpdateStepView {
    Settled(VerdictView),
    Refused(crate::db::export_failures::FailedView, Option<Seq<char>>),
}

impl View for UpdateStep {
    type V = UpdateStepView;

    open spec fn view(&self) -> UpdateStepView {
        match self {
            UpdateStep::Settled(v) => UpdateStepView::Settled(v@),
            UpdateStep::Refused(r) => UpdateStepView::Refused(r.item@, text::opt_text(r.probe)),
        }
    }
}

/// The end of an update that was answered.
pub open spec fn update_end(
    ty: ObjectType,
    local: i64,
    tid: Seq<char>,
    outcome: SetOutcome,
    reads: Option<BlobReads>,
    retry: Option<Seq<char>>,
    stamp: Seq<char>,
) -> UpdateStepView {
    if text::texts(outcome.updated@).contains(tid) {
        UpdateStepView::Settled(on_target(local, Tally::Updated, Some(tid)))
    } else {
        let (item, probe) = refusal_view(
            ty,
            local,
            update_id(local),
            reads,
            refusal_error(
                ty,
                ("updated"@, "notUpdated"@),
                tid,
                lookup(entries(outcome.not_updated@), tid, 0),
            ),
            retry,
            stamp,
        );
        UpdateStepView::Refused(item, probe)
    }
}

/// See [`update_end`].
pub fn finish_update(
    ty: ObjectType,
    local: i64,
    tid: &str,
    outcome: &SetOutcome,
    reads: Option<BlobReads>,
    retry: Option<&BlobRetry>,
    stamp: &str,
) -> (r: UpdateStep)
    requires
        reads_ok(reads),
    ensures
        r@ == update_end(ty, local, tid@, *outcome, reads, second_of(retry), stamp@),
{
    if text::listed(&outcome.updated, tid) {
        UpdateStep::Settled(arrived(local, Tally::Updated, Some(tid.to_owned())))
    } else {
        UpdateStep::Refused(
            record_update_refusal(
                ty,
                local,
                tid,
                reads,
                find_entry(&outcome.not_updated, tid),
                retry,
                stamp,
            ),
        )
    }
}

/// Settles an event whose update could not be sent.
pub fn update_failed(
    ty: ObjectType,
    local: i64,
    tid: &str,
    why: &str,
    reads: Option<BlobReads>,
    stamp: &str,
) -> (r: Verdict)
    requires
        reads_ok(reads),
    ensures
        r@ == common::lost(
            ty,
            local,
            update_id(local),
            reads,
            "updateFailed"@,
            "target "@ + tid@ + (": "@ + why@),
            stamp@,
            Some(tid@),
        ),
{
    let detail = text::joined3("target ", tid, text::joined(": ", why).as_str());
    common::lose(
        ty,
        local,
        make_update_id(local).as_str(),
        reads,
        "updateFailed",
        detail,
        stamp,
        Some(tid.to_owned()),
    )
}

/// Settles an event whose update could not be sent a second time.
pub fn update_retry_failed(
    ty: ObjectType,
    local: i64,
    tid: &str,
    why: &str,
    reads: Option<BlobReads>,
    stamp: &str,
) -> (r: Verdict)
    requires
        reads_ok(reads),
    ensures
        r@ == common::lost(
            ty,
            local,
            update_id(local),
            reads,
            "updateRetryFailed"@,
            "target "@ + tid@ + (": "@ + why@),
            stamp@,
            Some(tid@),
        ),
{
    let detail = text::joined3("target ", tid, text::joined(": ", why).as_str());
    common::lose(
        ty,
        local,
        make_update_id(local).as_str(),
        reads,
        "updateRetryFailed",
        detail,
        stamp,
        Some(tid.to_owned()),
    )
}

/// What settles a refused object, once its blob was asked for where that was due.
pub open spec fn refused_view(
    item: crate::db::export_failures::FailedView,
    probe: Option<Seq<char>>,
    lookup: Option<Result<BlobLookup, Seq<char>>>,
    target: Option<Seq<char>>,
) -> VerdictView {
    match (probe, lookup) {
        (Some(b), Some(l)) => failed(item.local_id, probed_view(item, probe_of(l, b)), target),
        _ => failed(item.local_id, item, target),
    }
}

/// The view of an optional lookup.
pub open spec fn opt_lookup(l: Option<Result<BlobLookup, String>>) -> Option<Result<BlobLookup, Seq<char>>> {
    match l {
        Some(x) => Some(lookup_text(x)),
        None => None,
    }
}

/// See [`refused_view`].
pub fn settle_refusal(
    refusal: Refusal,
    lookup: Option<Result<BlobLookup, String>>,
    target: Option<String>,
) -> (r: Verdict)
    requires
        refusal.probe is Some <==> lookup is Some,
    ensures
        r@ == refused_view(
            refusal.item@,
            text::opt_text(refusal.probe),
            opt_lookup(lookup),
            text::opt_text(target),
        ),
        r@.accounted(),
{
    let local: i64 = refusal.item.local_id;
    match (refusal.probe, lookup) {
        (Some(b), Some(l)) => failure(local, probed(refusal.item, l, b.as_str()), target),
        _ => failure(local, refusal.item, target),
    }
}

/// What the answer to the creation of an object comes to.
pub struct CreateResult {
    pub verdicts: Vec<Verdict>,
    pub refusals: Vec<Refusal>,
    /// Refusals of objects that were never sent: counted as failed, without a
    /// row.
    pub strays: usize,
}

/// The objects that were created, among the first `n`.
pub open spec fn created_view(made: Seq<(Seq<char>, JsonView)>, n: nat) -> Seq<VerdictView>
    decreases n,
{
    if n == 0 || n > made.len() {
        Seq::empty()
    } else {
        let r = created_view(made, (n - 1) as nat);
        match (created_object(made[n - 1].0), made[n - 1].1.text_at("id"@)) {
            (Some(local), Some(id)) => r.push(on_target(local as i64, Tally::Created, Some(id))),
            _ => r,
        }
    }
}

/// A refused object with the blob to ask for.
pub type RefusedView = (crate::db::export_failures::FailedView, Option<Seq<char>>);

/// The objects that were refused, among the first `n`, and how many of the
/// refusals name no object.
pub open spec fn refusals_view(
    ty: ObjectType,
    refused: Seq<(Seq<char>, JsonView)>,
    reads: Option<BlobReads>,
    retry: Option<Seq<char>>,
    stamp: Seq<char>,
    n: nat,
) -> (Seq<RefusedView>, nat)
    decreases n,
{
    if n == 0 || n > refused.len() {
        (Seq::empty(), 0)
    } else {
        let (r, strays) = refusals_view(ty, refused, reads, retry, stamp, (n - 1) as nat);
        let (cid, err) = refused[n - 1];
        match created_object(cid) {
            Some(local) => (
                r.push(
                    refusal_view(
                        ty,
                        local as i64,
                        cid,
                        reads,
                        refusal_error(ty, ("created"@, "notCreated"@), cid, Some(err)),
                        retry,
                        stamp,
                    ),
                ),
                strays,
            ),
            None => (r, strays + 1),
        }
    }
}

/// The views of refusals.
pub open spec fn refusal_views(r: Seq<Refusal>) -> Seq<RefusedView> {
    Seq::new(r.len(), |i: int| (r[i].item@, text::opt_text(r[i].probe)))
}

fn copy_reads(reads: &Option<BlobReads>) -> (r: Option<BlobReads>)
    ensures
        r == *reads,
{
    match reads {
        Some(b) => Some(b.copy()),
        None => None,
    }
}

/// Settles the object that was sent to be created. `reads` is of its only blob,
/// where it has one.
pub fn after_create(
    ty: ObjectType,
    outcome: &SetOutcome,
    reads: &Option<BlobReads>,
    retry: Option<&BlobRetry>,
    stamp: &str,
) -> (r: CreateResult)
    requires
        reads_ok(*reads),
    ensures
        verdicts(r.verdicts@) == created_view(entries(outcome.created@), outcome.created@.len()),
        (refusal_views(r.refusals@), r.strays as nat) == refusals_view(
            ty,
            entries(outcome.not_created@),
            *reads,
            second_of(retry),
            stamp@,
            outcome.not_created@.len(),
        ),
{
    let mut r = CreateResult { verdicts: Vec::new(), refusals: Vec::new(), strays: 0 };
    let ghost made = entries(outcome.created@);
    assert(verdicts(r.verdicts@) =~= Seq::<VerdictView>::empty());
    assert(refusal_views(r.refusals@) =~= Seq::<RefusedView>::empty());
    let mut i: usize = 0;
    while i < outcome.created.len()
        invariant
            i <= outcome.created.len(),
            made == entries(outcome.created@),
            r.strays == 0,
            refusal_views(r.refusals@) =~= Seq::<RefusedView>::empty(),
            verdicts(r.verdicts@) == created_view(made, i as nat),
        decreases outcome.created.len() - i,
    {
        let entry = &outcome.created[i];
        assert(made[i as int] == (entry.0@, entry.1@));
        let ghost was = verdicts(r.verdicts@);
        match (parse_creation_id(entry.0.as_str()), jid(&entry.1)) {
            (Some(local), Some(id)) => {
                r.verdicts.push(arrived(local, Tally::Created, Some(id)));
                assert(verdicts(r.verdicts@) =~= was.push(on_target(local, Tally::Created, Some(id@))));
            },
            _ => {},
        }
        i += 1;
    }
    let ghost done = verdicts(r.verdicts@);
    let ghost refused = entries(outcome.not_created@);
    let mut k: usize = 0;
    while k < outcome.not_created.len()
        invariant
            reads_ok(*reads),
            k <= outcome.not_created.len(),
            refused == entries(outcome.not_created@),
            r.strays <= k,
            verdicts(r.verdicts@) == done,
            (refusal_views(r.refusals@), r.strays as nat) == refusals_view(
                ty,
                refused,
                *reads,
                second_of(retry),
                stamp@,
                k as nat,
            ),
        decreases outcome.not_created.len() - k,
    {
        let entry = &outcome.not_created[k];
        assert(refused[k as int] == (entry.0@, entry.1@));
        let ghost was = refusal_views(r.refusals@);
        match parse_creation_id(entry.0.as_str()) {
            Some(local) => {
                let refusal = record_refusal(
                    ty,
                    local,
                    entry.0.as_str(),
                    copy_reads(reads),
                    Some(&entry.1),
                    retry,
                    stamp,
                );
                let ghost seen = (refusal.item@, text::opt_text(refusal.probe));
                r.refusals.push(refusal);
                assert(refusal_views(r.refusals@) =~= was.push(seen));
            },
            None => {
                r.strays = r.strays + 1;
            },
        }
        k += 1;
    }
    r
}

/// The controls of events, which the target hands out only where they are asked
/// for.
pub fn control_properties() -> (r: Vec<&'static str>)
    ensures
        text::strs(r@) == seq![
            "useDefaultAlerts"@,
            "mayInviteSelf"@,
            "mayInviteOthers"@,
            "hideAttendees"@,
        ],
{
    let r: Vec<&'static str> = vec![
        "useDefaultAlerts",
        "mayInviteSelf",
        "mayInviteOthers",
        "hideAttendees",
    ];
    assert(text::strs(r@) =~= seq![
            "useDefaultAlerts"@,
            "mayInviteSelf"@,
            "mayInviteOthers"@,
            "hideAttendees"@,
    ]);
    r
}

/// The last of some objects with an id.
pub open spec fn last_with_id(list: Seq<JsonView>, id: Seq<char>, n: nat) -> Option<JsonView>
    decreases n,
{
    if n == 0 || n > list.len() {
        None
    } else if list[n - 1].text_at("id"@) == Some(id) {
        Some(list[n - 1])
    } else {
        last_with_id(list, id, (n - 1) as nat)
    }
}

/// Members with one taken over from another object, where that has it.
pub open spec fn taken_over(m: Map<Seq<char>, JsonView>, from: JsonView, k: Seq<char>) -> Map<Seq<char>, JsonView> {
    match from.field(k) {
        Some(v) => m.insert(k, v),
        None => m,
    }
}

/// An event of the target with the controls that were fetched for it.
pub open spec fn with_controls(target: JsonView, controls: Seq<JsonView>) -> JsonView {
    match (target, target.text_at("id"@)) {
        (JsonView::Object(m), Some(id)) => match last_with_id(controls, id, controls.len()) {
            Some(c) => {
                let m = taken_over(m, c, "useDefaultAlerts"@);
                let m = taken_over(m, c, "mayInviteSelf"@);
                let m = taken_over(m, c, "mayInviteOthers"@);
                JsonView::Object(taken_over(m, c, "hideAttendees"@))
            },
            None => target,
        },
        _ => target,
    }
}

fn take_over(o: &mut JsonObject, from: &Json, key: &str)
    ensures
        final(o)@ == taken_over(old(o)@, from@, key@),
{
    match from.get(key) {
        Some(v) => {
            o.insert(key.to_owned(), v.copy());
        },
        None => {},
    }
}

fn find_last<'a>(list: &'a Vec<Json>, id: &str) -> (r: Option<&'a Json>)
    ensures
        match r {
            Some(v) => last_with_id(views(list@), id@, list@.len()) == Some(v@),
            None => last_with_id(views(list@), id@, list@.len()) is None,
        },
{
    let ghost all = views(list@);
    let mut n: usize = list.len();
    while n > 0
        invariant
            n <= list.len(),
            all == views(list@),
            last_with_id(all, id@, list@.len()) == last_with_id(all, id@, n as nat),
        decreases n,
    {
        n -= 1;
        assert(all[n as int] == list@[n as int]@);
        match list[n].str_at("id") {
            Some(t) => if text::same(t, id) {
                return Some(&list[n]);
            },
            None => {},
        }
    }
    None
}

fn merged(target: &Json, controls: &Vec<Json>) -> (r: Json)
    ensures
        r@ == with_controls(target@, views(controls@)),
{
    match target {
        Json::Object(o) => match target.str_at("id") {
            Some(id) => match find_last(controls, id) {
                Some(c) => {
                    let mut m = o.copy();
                    take_over(&mut m, c, "useDefaultAlerts");
                    take_over(&mut m, c, "mayInviteSelf");
                    take_over(&mut m, c, "mayInviteOthers");
                    take_over(&mut m, c, "hideAttendees");
                    Json::Object(m)
                },
                None => target.copy(),
            },
            None => target.copy(),
        },
        _ => target.copy(),
    }
}

/// The events of the target with their controls; see [`with_controls`].
pub fn merge_calendar_event_controls(targets: &Vec<Json>, controls: &Vec<Json>) -> (r: Vec<Json>)
    ensures
        views(r@) == Seq::new(targets@.len(), |i: int| with_controls(targets@[i]@, views(controls@))),
{
    let mut out: Vec<Json> = Vec::new();
    let mut i: usize = 0;
    while i < targets.len()
        invariant
            i <= targets.len(),
            out.len() == i,
            forall|j: int|
                0 <= j < i ==> (#[trigger] out@[j])@ == with_controls(targets@[j]@, views(controls@)),
        decreases targets.len() - i,
    {
        out.push(merged(&targets[i], controls));
        i += 1;
    }
    assert(views(out@) =~= Seq::new(
        targets@.len(),
        |i: int| with_controls(targets@[i]@, views(controls@)),
    ));
    out
}

/// The calendars of the target for the first `n` of some local ids; none where
/// one is no id or has no counterpart.
pub open spec fn counterparts(maps: Maps, ids: Seq<JsonView>, n: nat) -> Option<Seq<Seq<char>>>
    decreases n,
{
    if n == 0 || n > ids.len() {
        Some(Seq::empty())
    } else {
        match (counterparts(maps, ids, (n - 1) as nat), ids[n - 1]) {
            (Some(rest), JsonView::Number(v)) => match signed_of(v) {
                Some(local) => match maps.stands_for(ObjectType::Calendar, local) {
                    Some(id) => Some(rest.push(id)),
                    None => None,
                },
                None => None,
            },
            _ => None,
        }
    }
}

proof fn lemma_counterparts_stuck(maps: Maps, ids: Seq<JsonView>, n: nat, k: nat)
    requires
        n <= k <= ids.len(),
        counterparts(maps, ids, n) is None,
    ensures
        counterparts(maps, ids, k) is None,
    decreases k,
{
    if n < k {
        lemma_counterparts_stuck(maps, ids, n, (k - 1) as nat);
    }
}

/// The texts of an optional list.
pub open spec fn opt_list(v: Option<Vec<String>>) -> Option<Seq<Seq<char>>> {
    match v {
        Some(l) => Some(text::texts(l@)),
        None => None,
    }
}

/// The calendars that a list of local ids stands for on the target.
pub open spec fn calendars_for(maps: Maps, value: JsonView) -> Option<Seq<Seq<char>>> {
    match value {
        JsonView::Array(ids) => counterparts(maps, ids, ids.len()),
        _ => None,
    }
}

/// See [`calendars_for`].
pub fn resolve_calendars(value: &Json, maps: &Maps) -> (r: Option<Vec<String>>)
    ensures
        opt_list(r) == calendars_for(*maps, value@),
{
    match value {
        Json::Array(ids) => {
            let ghost all = views(ids@);
            assert(value@->Array_0 =~= all);
            let mut out: Vec<String> = Vec::new();
            assert(text::texts(out@) =~= Seq::<Seq<char>>::empty());
            let mut i: usize = 0;
            while i < ids.len()
                invariant
                    i <= ids.len(),
                    all == views(ids@),
                    value@ == JsonView::Array(all),
                    counterparts(*maps, all, i as nat) == Some(text::texts(out@)),
                decreases ids.len() - i,
            {
                assert(all[i as int] == ids@[i as int]@);
                let ghost was = text::texts(out@);
                let found = match ids[i].as_i64() {
                    Some(local) => maps.target(ObjectType::Calendar, local),
                    None => None,
                };
                match found {
                    Some(id) => {
                        out.push(id);
                        assert(text::texts(out@) =~= was.push(id@));
                    },
                    None => {
                        proof {
                            lemma_counterparts_stuck(*maps, all, (i + 1) as nat, all.len());
                        }
                        return None;
                    },
                }
                i += 1;
            }
            Some(out)
        },
        _ => None,
    }
}

/// The calendars of the target that an event is wanted in, from the text of its
/// local calendar ids.
pub fn desired_calendar_ids(raw: &str, maps: &Maps) -> (r: Option<Vec<String>>)
    ensures
        opt_list(r) == match json_parse(raw.spec_bytes()) {
            Some(v) => calendars_for(*maps, v),
            None => None,
        },
{
    match Json::parse(raw.as_bytes()) {
        Some(v) => resolve_calendars(&v, maps),
        None => None,
    }
}

/// The uid of an archived event; empty where it has none.
pub open spec fn uid_in(v: JsonView) -> Seq<char> {
    match v.text_at("uid"@) {
        Some(u) => u,
        None => Seq::empty(),
    }
}

/// See [`uid_in`].
pub fn read_uid(v: &Json) -> (r: String)
    ensures
        r@ == uid_in(v@),
{
    match v.str_at("uid") {
        Some(u) => u.to_owned(),
        None => String::new(),
    }
}

/// The uid of an event, from its archived text.
pub fn event_uid(data: &str) -> (r: String)
    ensures
        r@ == match json_parse(data.spec_bytes()) {
            Some(v) => uid_in(v),
            None => Seq::empty(),
        },
{
    match Json::parse(data.as_bytes()) {
        Some(v) => read_uid(&v),
        None => String::new(),
    }
}

/// The objects of the target with an id, among the first `n`, for pruning: none
/// is protected.
pub open spec fn prune_view(targets: Seq<JsonView>, matched: Seq<Seq<char>>, n: nat) -> Seq<
    (Seq<char>, bool, bool, bool),
>
    decreases n,
{
    if n == 0 || n > targets.len() {
        Seq::empty()
    } else {
        let rest = prune_view(targets, matched, (n - 1) as nat);
        match targets[n - 1].text_at("id"@) {
            Some(id) => rest.push((id, matched.contains(id), false, true)),
            None => rest,
        }
    }
}

/// See [`prune_view`].
pub fn prune_objects(targets: &Vec<Json>, matched: &Vec<String>) -> (r: Vec<TargetObj>)
    ensures
        crate::sync::export::flat::obj_views(r@) == prune_view(
            views(targets@),
            text::texts(matched@),
            targets@.len(),
        ),
{
    let ghost all = views(targets@);
    let mut out: Vec<TargetObj> = Vec::new();
    assert(crate::sync::export::flat::obj_views(out@) =~= Seq::<(Seq<char>, bool, bool, bool)>::empty());
    let mut i: usize = 0;
    while i < targets.len()
        invariant
            i <= targets.len(),
            all == views(targets@),
            crate::sync::export::flat::obj_views(out@) == prune_view(all, text::texts(matched@), i as nat),
        decreases targets.len() - i,
    {
        assert(all[i as int] == targets@[i as int]@);
        match jid(&targets[i]) {
            Some(id) => {
                let ghost was = crate::sync::export::flat::obj_views(out@);
                let known = text::listed(matched, id.as_str());
                out.push(TargetObj { id, matched: known, protected: false, may_delete: true });
                assert(crate::sync::export::flat::obj_views(out@) =~= was.push((id@, known, false, true)));
            },
            None => {},
        }
        i += 1;
    }
    out
}

/// Every matched object is accounted for: it counts as failed exactly where a
/// row tells why.
pub proof fn matched_objects_are_accounted_for(
    ty: ObjectType,
    local: i64,
    target: JsonView,
    tid: Seq<char>,
    wire: Result<JsonView, Seq<char>>,
    dry_run: bool,
    stamp: Seq<char>,
)
    ensures
        matched_object(ty, local, target, tid, wire, dry_run, stamp) matches EventStepView::Settled(v)
            ==> v.accounted() && v.local == local && v.target == Some(tid),
{
}

/// An event that is as wanted is not sent again.
pub proof fn an_event_in_line_is_left_alone(
    local: i64,
    target: JsonView,
    tid: Seq<char>,
    desired: JsonView,
    dry_run: bool,
    stamp: Seq<char>,
)
    requires
        update_patch(target, desired) == Map::<Seq<char>, JsonView>::empty(),
    ensures
        matched_object(ObjectType::CalendarEvent, local, target, tid, Ok(desired), dry_run, stamp)
            == EventStepView::Settled(on_target(local, Tally::Skipped, Some(tid))),
{
}

} // verus!
