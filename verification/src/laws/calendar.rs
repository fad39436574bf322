//! Converting events of Microsoft Graph.

use vstd::prelude::*;
use vstd::string::*;

use crate::exchange::moment;
use crate::exchange_graph::calendar_map::{
    address_line, attendee, card_people, card_place, card_stamps, card_standing, card_start, card_subject, card_time,
    civil_days, clock_text, color_hex, converted, duration_text, entered_zone, key_text, keywords_of, local_datetime,
    location, location_name, locations, naive_seconds, named_date, numbered, overrides_of, participant, put,
    recurrence_zone, recurs, shifted, whole_seconds_utc, width_of, EventType, Members,
};
use crate::exchange::moment::Moment;
use crate::exchange_graph::error::GraphErrorView;
use crate::json::{JsonView, NumberView};
use crate::text;

verus! {

/// The names of the properties of a card: how long each is, and how it begins.
proof fn lemma_names()
    ensures
        "@type"@.len() == 5 && "@type"@[0] == '@',
        "uid"@.len() == 3 && "uid"@[0] == 'u',
        "title"@.len() == 5 && "title"@[0] == 't',
        "description"@.len() == 11 && "description"@[0] == 'd',
        "start"@.len() == 5 && "start"@[0] == 's',
        "duration"@.len() == 8 && "duration"@[0] == 'd',
        "showWithoutTime"@.len() == 15 && "showWithoutTime"@[0] == 's',
        "timeZone"@.len() == 8 && "timeZone"@[0] == 't',
        "status"@.len() == 6 && "status"@[0] == 's',
        "privacy"@.len() == 7 && "privacy"@[0] == 'p',
        "priority"@.len() == 8 && "priority"@[0] == 'p',
        "freeBusyStatus"@.len() == 14 && "freeBusyStatus"@[0] == 'f',
        "keywords"@.len() == 8 && "keywords"@[0] == 'k',
        "locations"@.len() == 9 && "locations"@[0] == 'l',
        "recurrenceRule"@.len() == 14 && "recurrenceRule"@[0] == 'r',
        "organizerCalendarAddress"@.len() == 24 && "organizerCalendarAddress"@[0] == 'o',
        "participants"@.len() == 12 && "participants"@[0] == 'p',
        "created"@.len() == 7 && "created"@[0] == 'c',
        "updated"@.len() == 7 && "updated"@[0] == 'u',
        "alerts"@.len() == 6 && "alerts"@[0] == 'a',
        "recurrenceOverrides"@.len() == 19 && "recurrenceOverrides"@[0] == 'r',
{
    reveal_strlit("@type");
    reveal_strlit("uid");
    reveal_strlit("title");
    reveal_strlit("description");
    reveal_strlit("start");
    reveal_strlit("duration");
    reveal_strlit("showWithoutTime");
    reveal_strlit("timeZone");
    reveal_strlit("status");
    reveal_strlit("privacy");
    reveal_strlit("priority");
    reveal_strlit("freeBusyStatus");
    reveal_strlit("keywords");
    reveal_strlit("locations");
    reveal_strlit("recurrenceRule");
    reveal_strlit("organizerCalendarAddress");
    reveal_strlit("participants");
    reveal_strlit("created");
    reveal_strlit("updated");
    reveal_strlit("alerts");
    reveal_strlit("recurrenceOverrides");
}

/// What an object says under a key.
pub open spec fn says(m: Members, k: Seq<char>) -> Option<JsonView> {
    if m.dom().contains(k) {
        Some(m[k])
    } else {
        None
    }
}

/// A text under a key, where there is one that is not empty.
pub open spec fn told(g: JsonView, k: Seq<char>, t: Seq<char>) -> bool {
    g.text_at(k) == Some(t) && t.len() > 0
}

#[verifier::rlimit(40)]
proof fn lemma_past_time(m: Members, g: JsonView, fallback: Option<Seq<char>>, k: Seq<char>)
    requires
        k != "start"@ && k != "duration"@ && k != "showWithoutTime"@ && k != "timeZone"@,
    ensures
        says(card_time(m, g, fallback), k) == says(m, k),
{
}

#[verifier::rlimit(40)]
proof fn lemma_past_standing(m: Members, g: JsonView, k: Seq<char>)
    requires
        k != "status"@ && k != "privacy"@ && k != "priority"@ && k != "freeBusyStatus"@ && k != "keywords"@,
    ensures
        says(card_standing(m, g), k) == says(m, k),
{
}

/// Everything that is written after the standing of an event.
spec fn after_standing(
    m: Members,
    g: JsonView,
    rule: Option<JsonView>,
    excluded: Option<JsonView>,
) -> Members {
    put(card_stamps(card_people(put(card_place(m, g), "recurrenceRule"@, rule), g), g), "recurrenceOverrides"@, excluded)
}

#[verifier::rlimit(40)]
proof fn lemma_past_rest(m: Members, g: JsonView, rule: Option<JsonView>, excluded: Option<JsonView>, k: Seq<char>)
    requires
        k != "locations"@ && k != "recurrenceRule"@ && k != "organizerCalendarAddress"@ && k != "participants"@,
        k != "created"@ && k != "updated"@ && k != "alerts"@ && k != "recurrenceOverrides"@,
    ensures
        says(after_standing(m, g, rule, excluded), k) == says(m, k),
{
    let a = put(card_place(m, g), "recurrenceRule"@, rule);
    assert(says(a, k) == says(m, k));
    let b = card_people(a, g);
    assert(says(b, k) == says(a, k));
    let c = card_stamps(b, g);
    assert(says(c, k) == says(b, k));
}

/// The card of a converted event, in the order in which it is written.
#[verifier::rlimit(40)]
proof fn lemma_card(g: JsonView, fallback: Option<Seq<char>>, rule: Result<Members, GraphErrorView>)
    requires
        converted(g, fallback, rule) is Ok,
    ensures
        ({
            let e = converted(g, fallback, rule)->Ok_0;
            let r = if recurs(g) {
                Some(JsonView::Object(rule->Ok_0))
            } else {
                None
            };
            e.data == JsonView::Object(
                after_standing(
                    card_standing(card_time(card_subject(g, e.uid), g, fallback), g),
                    g,
                    r,
                    overrides_of(g, fallback)->Ok_0,
                ),
            )
        }),
{
}

/// An event is converted under its own uid, or else under its id: its title, its
/// description, and what marks it.
#[verifier::rlimit(40)]
pub proof fn events_keep_what_they_are_about(
    g: JsonView,
    fallback: Option<Seq<char>>,
    rule: Result<Members, GraphErrorView>,
    body: JsonView,
    t: Seq<char>,
)
    requires
        converted(g, fallback, rule) is Ok,
    ensures
        ({
            let e = converted(g, fallback, rule)->Ok_0;
            let m = e.data->Object_0;
            &&& e.data is Object
            &&& says(m, "@type"@) == Some(JsonView::Str("Event"@))
            &&& says(m, "uid"@) == Some(JsonView::Str(e.uid))
            &&& g.text_at("iCalUId"@) == Some(t) ==> e.uid == t
            &&& g.text_at("iCalUId"@) is None ==> g.text_at("id"@) == Some(e.uid)
            &&& told(g, "subject"@, t) ==> says(m, "title"@) == Some(JsonView::Str(t))
            &&& g.text_at("subject"@) is None ==> says(m, "title"@) is None
            &&& g.field("body"@) == Some(body) && told(body, "content"@, t) ==> says(m, "description"@) == Some(
                JsonView::Str(t),
            )
            &&& g.field("body"@) is None ==> says(m, "description"@) is None
            &&& e.is_draft <==> g.bool_at("isDraft"@) == Some(true)
            &&& !e.use_default_alerts
            &&& e.series_master_id == g.text_at("seriesMasterId"@)
            &&& e.original_start == g.text_at("originalStart"@)
            &&& g.text_at("type"@) == Some("seriesMaster"@) ==> e.event_type == EventType::SeriesMaster
            &&& g.text_at("type"@) == Some("occurrence"@) ==> e.event_type == EventType::Occurrence
            &&& g.text_at("type"@) == Some("exception"@) ==> e.event_type == EventType::Exception
            &&& g.text_at("type"@) is None || g.text_at("type"@) == Some("singleInstance"@) ==> e.event_type
                == EventType::SingleInstance
        }),
{
    lemma_names();
    lemma_card(g, fallback, rule);
    let e = converted(g, fallback, rule)->Ok_0;
    let r = if recurs(g) {
        Some(JsonView::Object(rule->Ok_0))
    } else {
        None
    };
    let x = overrides_of(g, fallback)->Ok_0;
    let m0 = card_subject(g, e.uid);
    let m1 = card_time(m0, g, fallback);
    let m2 = card_standing(m1, g);
    lemma_past_time(m0, g, fallback, "@type"@);
    lemma_past_standing(m1, g, "@type"@);
    lemma_past_rest(m2, g, r, x, "@type"@);
    lemma_past_time(m0, g, fallback, "uid"@);
    lemma_past_standing(m1, g, "uid"@);
    lemma_past_rest(m2, g, r, x, "uid"@);
    lemma_past_time(m0, g, fallback, "title"@);
    lemma_past_standing(m1, g, "title"@);
    lemma_past_rest(m2, g, r, x, "title"@);
    lemma_past_time(m0, g, fallback, "description"@);
    lemma_past_standing(m1, g, "description"@);
    lemma_past_rest(m2, g, r, x, "description"@);
    reveal_strlit("seriesMaster");
    reveal_strlit("occurrence");
    reveal_strlit("exception");
    reveal_strlit("singleInstance");
    assert("seriesMaster"@.len() == 12 && "occurrence"@.len() == 10 && "exception"@.len() == 9 && "singleInstance"@.len()
        == 14);
}

/// An event without a uid and without an id cannot be converted; one that recurs takes
/// the rule of its recurrence, or fails as that does; one that does not recur has none.
#[verifier::rlimit(40)]
pub proof fn recurrences_are_carried(
    g: JsonView,
    fallback: Option<Seq<char>>,
    rule: Members,
    e: GraphErrorView,
    recurrence: JsonView,
)
    ensures
        g.text_at("iCalUId"@) is None && g.text_at("id"@) is None ==> converted(g, fallback, Ok(rule)) is Err,
        g.field("recurrence"@) == Some(recurrence) && !(recurrence is Null) ==> converted(g, fallback, Err(e)) is Err,
        g.field("recurrence"@) == Some(recurrence) && !(recurrence is Null) && converted(g, fallback, Ok(rule)) is Ok
            ==> says(converted(g, fallback, Ok(rule))->Ok_0.data->Object_0, "recurrenceRule"@) == Some(
            JsonView::Object(rule),
        ),
        g.field("recurrence"@) is None && converted(g, fallback, Ok(rule)) is Ok ==> says(
            converted(g, fallback, Ok(rule))->Ok_0.data->Object_0,
            "recurrenceRule"@,
        ) is None,
        g.field("cancelledOccurrences"@) is None && converted(g, fallback, Ok(rule)) is Ok ==> says(
            converted(g, fallback, Ok(rule))->Ok_0.data->Object_0,
            "recurrenceOverrides"@,
        ) is None,
        (g.text_at("iCalUId"@) is Some || g.text_at("id"@) is Some) && g.field("recurrence"@) is None && g.field(
            "cancelledOccurrences"@,
        ) is None ==> converted(g, fallback, Err(e)) is Ok,
{
    lemma_names();
}

/// When an event is. An event of whole days says so, keeps its date and names no zone;
/// any other names the zone it was entered in, UTC where none is known, and begins at
/// the time that clocks in that zone show. What follows a full stop in the source's
/// time, a fraction of a second, is left out.
#[verifier::rlimit(40)]
pub proof fn events_keep_their_time(
    g: JsonView,
    fallback: Option<Seq<char>>,
    rule: Result<Members, GraphErrorView>,
    slot: JsonView,
    start: Seq<char>,
    zone: Seq<char>,
)
    requires
        converted(g, fallback, rule) is Ok,
        g.field("start"@) == Some(slot),
        slot.text_at("dateTime"@) == Some(start),
        !start.contains('.'),
    ensures
        ({
            let m = converted(g, fallback, rule)->Ok_0.data->Object_0;
            let whole = g.bool_at("isAllDay"@) == Some(true);
            let known = entered_zone(g, fallback) == Some(zone) && zone != "Etc/UTC"@;
            &&& whole ==> says(m, "showWithoutTime"@) == Some(JsonView::Bool(true)) && says(m, "timeZone"@) is None
                && says(m, "start"@) == Some(JsonView::Str(start))
            &&& !whole ==> says(m, "showWithoutTime"@) is None
            &&& !whole && known ==> says(m, "timeZone"@) == Some(JsonView::Str(zone))
            &&& !whole && entered_zone(g, fallback) is None || !whole && entered_zone(g, fallback) == Some("Etc/UTC"@)
                ==> says(m, "timeZone"@) == Some(JsonView::Str("Etc/UTC"@)) && says(m, "start"@) == Some(
                JsonView::Str(start),
            )
            &&& !whole && known && shifted(start, zone) is Some ==> says(m, "start"@) == Some(
                JsonView::Str(shifted(start, zone)->0),
            )
            &&& !whole && known && shifted(start, zone) is None ==> says(m, "start"@) == Some(JsonView::Str(start))
        }),
{
    lemma_names();
    lemma_until_none(start, '.');
    lemma_card(g, fallback, rule);
    let e = converted(g, fallback, rule)->Ok_0;
    let r = if recurs(g) {
        Some(JsonView::Object(rule->Ok_0))
    } else {
        None
    };
    let x = overrides_of(g, fallback)->Ok_0;
    let m0 = card_subject(g, e.uid);
    let m1 = card_time(m0, g, fallback);
    let m2 = card_standing(m1, g);
    assert(says(m0, "start"@) is None && says(m0, "timeZone"@) is None && says(m0, "showWithoutTime"@) is None);
    lemma_past_standing(m1, g, "start"@);
    lemma_past_rest(m2, g, r, x, "start"@);
    lemma_past_standing(m1, g, "timeZone"@);
    lemma_past_rest(m2, g, r, x, "timeZone"@);
    lemma_past_standing(m1, g, "showWithoutTime"@);
    lemma_past_rest(m2, g, r, x, "showWithoutTime"@);
    assert(says(m1, "start"@) == match card_start(g, fallback) {
        Some(t) => Some(JsonView::Str(t)),
        None => None,
    });
}

proof fn lemma_until_none(s: Seq<char>, c: char)
    requires
        !s.contains(c),
    ensures
        text::until(s, c) == s,
{
    s.index_of_first_ensures(c);
}

proof fn lemma_until(a: Seq<char>, b: Seq<char>, c: char)
    requires
        !a.contains(c),
    ensures
        text::until(a + seq![c] + b, c) == a,
        text::split_first(a + seq![c] + b, c) == Some((a, b)),
{
    let s = a + seq![c] + b;
    assert(s[a.len() as int] == c);
    assert(s.contains(c));
    s.index_of_first_ensures(c);
    let i = s.index_of_first(c)->0;
    if i < a.len() {
        assert(s[i] == a[i]);
        assert(a.contains(a[i]));
    }
    if i > a.len() {
        assert(s[a.len() as int] != c);
    }
    assert(s.take(i) =~= a);
    assert(s.skip(i + 1) =~= b);
}

/// A fraction of a second is left out of a start and of an end.
pub proof fn fractions_are_left_out(slot: JsonView, whole: Seq<char>, fraction: Seq<char>)
    requires
        slot.text_at("dateTime"@) == Some(whole + seq!['.'] + fraction),
        !whole.contains('.'),
    ensures
        local_datetime(Some(slot)) == Some(whole),
        local_datetime(None) is None,
{
    lemma_until(whole, fraction, '.');
}

/// The zone that an event was entered in is the first that is known of: the one it
/// names itself, the one of its start, the calendar's. A series recurs in the zone
/// that its recurrence names, else in the one it was entered in.
pub proof fn zones_go_by_precedence(g: JsonView, fallback: Seq<char>, slot: JsonView, own: Seq<char>, begin: Seq<char>)
    ensures
        g.text_at("originalStartTimeZone"@) == Some(own) && crate::exchange::tz::iana_name(own) is Some ==> entered_zone(
            g,
            Some(fallback),
        ) == crate::exchange::tz::iana_name(own),
        g.text_at("originalStartTimeZone"@) is None && g.field("start"@) == Some(slot) && slot.text_at("timeZone"@)
            == Some(begin) && crate::exchange::tz::iana_name(begin) is Some ==> entered_zone(g, Some(fallback))
            == crate::exchange::tz::iana_name(begin),
        g.text_at("originalStartTimeZone"@) is None && g.field("start"@) is None ==> entered_zone(g, Some(fallback))
            == crate::exchange::tz::iana_name(fallback),
        g.text_at("originalStartTimeZone"@) is None && g.field("start"@) is None ==> entered_zone(g, None) is None,
        g.field("recurrence"@) is None ==> recurrence_zone(g, Some(fallback)) == entered_zone(g, Some(fallback)),
{
}

/// A series recurs in the zone that its recurrence names.
pub proof fn series_recur_in_their_zone(g: JsonView, fallback: Option<Seq<char>>, r: JsonView, range: JsonView, z: Seq<char>)
    requires
        g.field("recurrence"@) == Some(r),
        r.field("range"@) == Some(range),
        range.text_at("recurrenceTimeZone"@) == Some(z),
        crate::exchange::tz::iana_name(z) is Some,
    ensures
        recurrence_zone(g, fallback) == crate::exchange::tz::iana_name(z),
{
}

/// A time in UTC is shown in a zone by way of the zone's clocks; there is none where
/// the zone or the time is not known.
pub proof fn times_are_moved_by_the_zone(utc: Seq<char>, zone: Seq<char>, at: Moment, local: Moment)
    ensures
        moment::is_zone(zone) && moment::moment_parse(utc, "%Y-%m-%dT%H:%M:%S"@) == Some(at) && moment::zone_local(zone, at)
            == Some(local) ==> shifted(utc, zone) == moment::moment_text(local, "%Y-%m-%dT%H:%M:%S"@),
        !moment::is_zone(zone) ==> shifted(utc, zone) is None,
        moment::moment_parse(utc, "%Y-%m-%dT%H:%M:%S"@) is None ==> shifted(utc, zone) is None,
{
}

/// How an event counts: cancelled where the source says so, how private and how
/// important it is, whether its time is free, and its categories.
#[verifier::rlimit(40)]
pub proof fn events_keep_their_standing(
    g: JsonView,
    fallback: Option<Seq<char>>,
    rule: Result<Members, GraphErrorView>,
    t: Seq<char>,
    cats: Seq<JsonView>,
    i: int,
)
    requires
        converted(g, fallback, rule) is Ok,
    ensures
        ({
            let m = converted(g, fallback, rule)->Ok_0.data->Object_0;
            &&& g.bool_at("isCancelled"@) == Some(true) ==> says(m, "status"@) == Some(JsonView::Str("cancelled"@))
            &&& g.bool_at("isCancelled"@) != Some(true) ==> says(m, "status"@) == Some(JsonView::Str("confirmed"@))
            &&& g.text_at("sensitivity"@) == Some("private"@) ==> says(m, "privacy"@) == Some(JsonView::Str("private"@))
            &&& g.text_at("sensitivity"@) == Some("confidential"@) ==> says(m, "privacy"@) == Some(
                JsonView::Str("secret"@),
            )
            &&& g.text_at("sensitivity"@) == Some(t) && t != "private"@ && t != "confidential"@ ==> says(m, "privacy"@)
                == Some(JsonView::Str("public"@))
            &&& g.text_at("sensitivity"@) is None ==> says(m, "privacy"@) is None
            &&& g.text_at("importance"@) == Some("high"@) ==> says(m, "priority"@) == Some(
                JsonView::Number(NumberView::Integer(1)),
            )
            &&& g.text_at("importance"@) == Some("low"@) ==> says(m, "priority"@) == Some(
                JsonView::Number(NumberView::Integer(9)),
            )
            &&& g.text_at("importance"@) == Some(t) && t != "high"@ && t != "low"@ ==> says(m, "priority"@) == Some(
                JsonView::Number(NumberView::Integer(5)),
            )
            &&& g.text_at("importance"@) is None ==> says(m, "priority"@) is None
            &&& g.text_at("showAs"@) == Some("free"@) ==> says(m, "freeBusyStatus"@) == Some(JsonView::Str("free"@))
            &&& g.text_at("showAs"@) == Some(t) && t != "free"@ ==> says(m, "freeBusyStatus"@) == Some(
                JsonView::Str("busy"@),
            )
            &&& g.text_at("showAs"@) is None ==> says(m, "freeBusyStatus"@) is None
            &&& g.array_at("categories"@) == Some(cats) && 0 <= i < cats.len() && cats[i] == JsonView::Str(t) ==> (says(
                m,
                "keywords"@,
            ) matches Some(JsonView::Object(words)) && says(words, t) == Some(JsonView::Bool(true)))
            &&& g.array_at("categories"@) == Some(cats) && says(m, "keywords"@) is Some ==> (says(m, "keywords"@)
                matches Some(JsonView::Object(words)) && (words.dom().contains(t) ==> cats.contains(JsonView::Str(t))))
            &&& g.array_at("categories"@) is None ==> says(m, "keywords"@) is None
        }),
{
    lemma_names();
    reveal_strlit("private");
    reveal_strlit("confidential");
    reveal_strlit("high");
    reveal_strlit("low");
    assert("private"@.len() != "confidential"@.len());
    assert("high"@.len() != "low"@.len());
    lemma_card(g, fallback, rule);
    let e = converted(g, fallback, rule)->Ok_0;
    let r = if recurs(g) {
        Some(JsonView::Object(rule->Ok_0))
    } else {
        None
    };
    let x = overrides_of(g, fallback)->Ok_0;
    let m0 = card_subject(g, e.uid);
    let m1 = card_time(m0, g, fallback);
    let m2 = card_standing(m1, g);
    lemma_standing_absent(g, e.uid, fallback);
    lemma_past_rest(m2, g, r, x, "status"@);
    lemma_past_rest(m2, g, r, x, "privacy"@);
    lemma_past_rest(m2, g, r, x, "priority"@);
    lemma_past_rest(m2, g, r, x, "freeBusyStatus"@);
    lemma_past_rest(m2, g, r, x, "keywords"@);
    let m = after_standing(m2, g, r, x);
    match keywords_of(g) {
        Some(JsonView::Object(words)) => {
            assert(says(m, "keywords"@) == Some(JsonView::Object(words)));
        },
        _ => {},
    }
    let words = crate::exchange_graph::calendar_map::keywords(cats);
    assert(crate::exchange_graph::calendar_map::texts_among(cats).contains(t) == cats.contains(JsonView::Str(t)));
    assert(words.dom().contains(t) == cats.contains(JsonView::Str(t)));
    if g.array_at("categories"@) == Some(cats) && 0 <= i < cats.len() && cats[i] == JsonView::Str(t) {
        assert(cats.contains(JsonView::Str(t)));
        assert(cats[i] is Str);
        lemma_keywords(g, cats, i);
        assert(says(m2, "keywords"@) == Some(JsonView::Object(words)));
    }
}

proof fn lemma_keywords(g: JsonView, cats: Seq<JsonView>, i: int)
    requires
        g.array_at("categories"@) == Some(cats),
        0 <= i < cats.len(),
        cats[i] is Str,
    ensures
        keywords_of(g) == Some(JsonView::Object(crate::exchange_graph::calendar_map::keywords(cats))),
{
    assert(exists|k: int| 0 <= k < cats.len() && #[trigger] cats[k] is Str);
}

proof fn lemma_standing_absent(g: JsonView, uid: Seq<char>, fallback: Option<Seq<char>>)
    ensures
        ({
            let m = card_time(card_subject(g, uid), g, fallback);
            &&& says(m, "privacy"@) is None
            &&& says(m, "priority"@) is None
            &&& says(m, "freeBusyStatus"@) is None
            &&& says(m, "keywords"@) is None
        }),
{
    lemma_names();
    let m = card_subject(g, uid);
    lemma_past_time(m, g, fallback, "privacy"@);
    lemma_past_time(m, g, fallback, "priority"@);
    lemma_past_time(m, g, fallback, "freeBusyStatus"@);
    lemma_past_time(m, g, fallback, "keywords"@);
}

proof fn lemma_begins(a: Seq<char>, b: Seq<char>)
    ensures
        text::begins(a + b, a),
        text::begins(a, a),
{
    assert((a + b).take(a.len() as int) =~= a);
    assert(a.take(a.len() as int) =~= a);
}

/// A place keeps its name: a location that is shown under a name has a name that
/// begins with it, and has just that name where no address is given; an address that
/// says something else follows it. A location without a name that is shown is named by
/// its address.
pub proof fn places_keep_their_names(loc: JsonView, shown: Seq<char>, address: JsonView)
    ensures
        ({
            let name = location_name(loc);
            let line = address_line(address);
            let bare = loc.text_at("displayName"@) is None;
            &&& told(loc, "displayName"@, shown) ==> name is Some && text::begins(name->0, shown)
            &&& told(loc, "displayName"@, shown) && loc.field("address"@) is None ==> name == Some(shown)
            &&& told(loc, "displayName"@, shown) && loc.field("address"@) == Some(address) && (line.len() == 0 || line
                == shown) ==> name == Some(shown)
            &&& told(loc, "displayName"@, shown) && loc.field("address"@) == Some(address) && line.len() > 0 && line
                != shown ==> name == Some(shown + ", "@ + line)
            &&& bare && loc.field("address"@) == Some(address) && line.len() > 0 ==> name == Some(line)
            &&& bare && loc.field("address"@) is None ==> name is None
            &&& says(location(loc), "@type"@) == Some(JsonView::Str("Location"@))
            &&& name is Some ==> says(location(loc), "name"@) == Some(JsonView::Str(name->0))
            &&& name is None ==> says(location(loc), "name"@) is None
        }),
{
    lemma_names();
    reveal_strlit("name");
    assert("name"@.len() == 4);
    lemma_begins(shown, ", "@ + address_line(address));
    assert(shown + ", "@ + address_line(address) =~= shown + (", "@ + address_line(address)));
    match loc.field("address"@) {
        Some(a) => {
            lemma_begins(shown, ", "@ + address_line(a));
            assert(shown + ", "@ + address_line(a) =~= shown + (", "@ + address_line(a)));
        },
        None => {},
    }
}

/// An address is written in one line: street, city, state, postal code, country, as far
/// as they are given.
pub proof fn addresses_are_written_in_order(
    a: JsonView,
    street: Seq<char>,
    city: Seq<char>,
    state: Seq<char>,
    code: Seq<char>,
    country: Seq<char>,
)
    ensures
        told(a, "street"@, street) && told(a, "city"@, city) && told(a, "state"@, state) && told(a, "postalCode"@, code)
            && told(a, "countryOrRegion"@, country) ==> address_line(a) == street + ", "@ + city + ", "@ + state + ", "@
            + code + ", "@ + country,
        told(a, "street"@, street) && told(a, "city"@, city) && a.text_at("state"@) is None && a.text_at("postalCode"@)
            is None && a.text_at("countryOrRegion"@) is None ==> address_line(a) == street + ", "@ + city,
        a.text_at("street"@) is None && told(a, "city"@, city) && a.text_at("state"@) is None && a.text_at(
            "postalCode"@,
        ) is None && told(a, "countryOrRegion"@, country) ==> address_line(a) == city + ", "@ + country,
        a.text_at("street"@) is None && a.text_at("city"@) is None && told(a, "state"@, state) && told(
            a,
            "postalCode"@,
            code,
        ) && a.text_at("countryOrRegion"@) is None ==> address_line(a) == state + ", "@ + code,
        a.text_at("street"@) is None && a.text_at("city"@) is None && a.text_at("state"@) is None && a.text_at(
            "postalCode"@,
        ) is None && a.text_at("countryOrRegion"@) is None ==> address_line(a).len() == 0,
{
    reveal_with_fuel(text::join_text, 6);
    let none = Seq::<Seq<char>>::empty();
    let p1 = none.push(street);
    let p2 = p1.push(city);
    let p3 = p2.push(state);
    let p4 = p3.push(code);
    let p5 = p4.push(country);
    assert(p5.drop_last() =~= p4 && p4.drop_last() =~= p3 && p3.drop_last() =~= p2 && p2.drop_last() =~= p1);
    let q = none.push(city);
    assert(q.push(country).drop_last() =~= q);
    let r = none.push(state);
    assert(r.push(code).drop_last() =~= r);
}

proof fn lemma_location_kept(locs: Seq<JsonView>, n: nat, i: nat)
    requires
        1 <= i <= n <= locs.len(),
    ensures
        says(locations(locs, n), numbered("loc-"@, i, width_of(locs.len()))) == Some(
            JsonView::Object(location(locs[i - 1])),
        ),
    decreases n,
{
    if i < n {
        lemma_location_kept(locs, (n - 1) as nat, i);
        lemma_numbered_differ("loc-"@, i, n, locs.len());
    }
}

proof fn lemma_numbered_differ(prefix: Seq<char>, i: nat, j: nat, n: nat)
    requires
        1 <= i < j <= n,
    ensures
        numbered(prefix, i, width_of(n)) != numbered(prefix, j, width_of(n)),
{
    crate::exchange_graph::calendar_map::numbered_keys_keep_the_order(prefix, i, j, n);
    lemma_not_before_itself(numbered(prefix, i, width_of(n)));
}

proof fn lemma_not_before_itself(a: Seq<char>)
    ensures
        !crate::json::before(a, a),
    decreases a.len(),
{
    if a.len() > 0 {
        lemma_not_before_itself(a.drop_first());
    }
}

/// An event keeps its places: each location of the source is a location of the card,
/// under its number.
#[verifier::rlimit(40)]
pub proof fn events_keep_their_places(
    g: JsonView,
    fallback: Option<Seq<char>>,
    rule: Result<Members, GraphErrorView>,
    locs: Seq<JsonView>,
    i: nat,
)
    requires
        converted(g, fallback, rule) is Ok,
        g.array_at("locations"@) == Some(locs),
        1 <= i <= locs.len(),
    ensures
        ({
            let m = converted(g, fallback, rule)->Ok_0.data->Object_0;
            let key = "loc-"@ + text::padded_text(i, text::decimal_text(locs.len()).len());
            says(m, "locations"@) matches Some(JsonView::Object(places)) && says(places, key) == Some(
                JsonView::Object(location(locs[i - 1])),
            )
        }),
{
    lemma_names();
    lemma_location_kept(locs, locs.len(), i);
}

/// A participant is known by name and address, and plays the parts given; nothing is
/// made up.
pub proof fn participants_are_known_by_address(
    email: JsonView,
    roles: Seq<Seq<char>>,
    status: Option<Seq<char>>,
    reply: Option<bool>,
    address: Seq<char>,
    name: Seq<char>,
    r: Seq<char>,
)
    ensures
        ({
            let p = participant(email, roles, status, reply);
            &&& says(p, "@type"@) == Some(JsonView::Str("Participant"@))
            &&& email.text_at("address"@) == Some(address) ==> says(p, "calendarAddress"@) == Some(
                JsonView::Str("mailto:"@ + address),
            ) && says(p, "email"@) == Some(JsonView::Str(address))
            &&& email.text_at("address"@) is None ==> says(p, "calendarAddress"@) is None && says(p, "email"@) is None
            &&& told(email, "name"@, name) ==> says(p, "name"@) == Some(JsonView::Str(name))
            &&& email.text_at("name"@) is None ==> says(p, "name"@) is None
            &&& says(p, "roles"@) matches Some(JsonView::Object(parts)) && (roles.contains(r) <==> parts.dom().contains(
                r,
            )) && (roles.contains(r) ==> parts[r] == JsonView::Bool(true))
            &&& status is Some ==> says(p, "participationStatus"@) == Some(JsonView::Str(status->0))
            &&& status is None ==> says(p, "participationStatus"@) is None
            &&& reply is Some ==> says(p, "expectReply"@) == Some(JsonView::Bool(reply->0))
            &&& reply is None ==> says(p, "expectReply"@) is None
        }),
{
    reveal_strlit("@type");
    reveal_strlit("calendarAddress");
    reveal_strlit("email");
    reveal_strlit("name");
    reveal_strlit("roles");
    reveal_strlit("participationStatus");
    reveal_strlit("expectReply");
    assert("@type"@.len() == 5 && "@type"@[0] == '@');
    assert("calendarAddress"@.len() == 15);
    assert("email"@.len() == 5 && "email"@[0] == 'e');
    assert("name"@.len() == 4);
    assert("roles"@.len() == 5 && "roles"@[0] == 'r');
    assert("participationStatus"@.len() == 19);
    assert("expectReply"@.len() == 11);
}

/// An attendee takes part as the source says: as required unless optional or a
/// resource, with the answer given, and is expected to reply.
pub proof fn attendees_answer_as_they_did(a: JsonView, email: JsonView, s: JsonView, t: Seq<char>)
    ensures
        ({
            let p = attendee(a, email);
            let kind = a.text_at("type"@);
            let answered = a.field("status"@) == Some(s);
            let says_so = s.text_at("response"@);
            let part = says(p, "participationStatus"@);
            &&& says(p, "expectReply"@) == Some(JsonView::Bool(true))
            &&& email.text_at("address"@) == Some(t) ==> says(p, "email"@) == Some(JsonView::Str(t))
            &&& says(p, "roles"@) matches Some(JsonView::Object(roles)) && (kind == Some("optional"@) ==> roles.dom()
                == set!["optional"@]) && (kind == Some("resource"@) ==> roles.dom() == set!["informational"@]) && (kind
                == Some("required"@) || kind is None ==> roles.dom() == set!["required"@])
            &&& answered && (says_so == Some("accepted"@) || says_so == Some("organizer"@)) ==> part == Some(
                JsonView::Str("accepted"@),
            )
            &&& answered && says_so == Some("declined"@) ==> part == Some(JsonView::Str("declined"@))
            &&& answered && says_so == Some("tentativelyAccepted"@) ==> part == Some(JsonView::Str("tentative"@))
            &&& answered && (says_so == Some("notResponded"@) || says_so == Some("none"@)) ==> part == Some(
                JsonView::Str("needs-action"@),
            )
            &&& a.field("status"@) is None ==> part is None
        }),
{
    reveal_strlit("optional");
    reveal_strlit("resource");
    reveal_strlit("required");
    reveal_strlit("informational");
    reveal_strlit("accepted");
    reveal_strlit("organizer");
    reveal_strlit("declined");
    reveal_strlit("tentativelyAccepted");
    reveal_strlit("notResponded");
    reveal_strlit("none");
    assert("optional"@[0] == 'o' && "resource"@[2] == 's' && "required"@[2] == 'q' && "resource"@[0] == 'r'
        && "required"@[0] == 'r');
    assert("optional"@.len() == 8 && "resource"@.len() == 8 && "required"@.len() == 8 && "informational"@.len() == 13);
    assert("accepted"@.len() == 8 && "organizer"@.len() == 9 && "declined"@.len() == 8 && "tentativelyAccepted"@.len()
        == 19 && "notResponded"@.len() == 12 && "none"@.len() == 4);
    assert("accepted"@[0] == 'a' && "declined"@[0] == 'd');
    let kind = a.text_at("type"@);
    let role = match kind {
        Some(t) => crate::exchange_graph::calendar_map::role_of(t),
        None => "required"@,
    };
    let status = match a.field("status"@) {
        Some(s) => match s.text_at("response"@) {
            Some(r) => crate::exchange_graph::calendar_map::status_of(r),
            None => None,
        },
        None => None,
    };
    participants_are_known_by_address(email, seq![role], status, Some(true), t, t, role);
    let roles = says(attendee(a, email), "roles"@)->0->Object_0;
    assert(seq![role][0] == role);
    assert(roles.dom() =~= set![role]) by {
        assert forall|k: Seq<char>| roles.dom().contains(k) <==> k == role by {
            participants_are_known_by_address(email, seq![role], status, Some(true), t, t, k);
            if seq![role].contains(k) {
                let i = choose|i: int| 0 <= i < seq![role].len() && seq![role][i] == k;
            }
        }
    }
}

proof fn lemma_attendee_kept(base: Members, list: Seq<JsonView>, n: nat, i: nat, email: JsonView)
    requires
        1 <= i <= n <= list.len(),
        list[i - 1].field("emailAddress"@) == Some(email),
    ensures
        says(
            crate::exchange_graph::calendar_map::with_attendees(base, list, n),
            numbered("att-"@, i, width_of(list.len())),
        ) == Some(JsonView::Object(attendee(list[i - 1], email))),
    decreases n,
{
    if i < n {
        lemma_attendee_kept(base, list, (n - 1) as nat, i, email);
        lemma_numbered_differ("att-"@, i, n, list.len());
    }
}

proof fn lemma_base_kept(base: Members, list: Seq<JsonView>, n: nat)
    requires
        n <= list.len(),
    ensures
        says(crate::exchange_graph::calendar_map::with_attendees(base, list, n), "organizer"@) == says(
            base,
            "organizer"@,
        ),
    decreases n,
{
    if n > 0 {
        lemma_base_kept(base, list, (n - 1) as nat);
        reveal_strlit("organizer");
        reveal_strlit("att-");
        let key = numbered("att-"@, n, width_of(list.len()));
        assert(key[0] == 'a');
        assert("organizer"@[0] == 'o');
    }
}

/// An event keeps the people who take part: its organizer, as owner and chair, and each
/// attendee with an address, under a number.
#[verifier::rlimit(40)]
pub proof fn events_keep_their_people(
    g: JsonView,
    fallback: Option<Seq<char>>,
    rule: Result<Members, GraphErrorView>,
    o: JsonView,
    who: JsonView,
    address: Seq<char>,
    list: Seq<JsonView>,
    i: nat,
    email: JsonView,
)
    requires
        converted(g, fallback, rule) is Ok,
    ensures
        ({
            let m = converted(g, fallback, rule)->Ok_0.data->Object_0;
            let led = g.field("organizer"@) == Some(o) && o.field("emailAddress"@) == Some(who);
            let key = "att-"@ + text::padded_text(i, text::decimal_text(list.len()).len());
            &&& led && told(who, "address"@, address) ==> says(m, "organizerCalendarAddress"@) == Some(
                JsonView::Str("mailto:"@ + address),
            )
            &&& led ==> (says(m, "participants"@) matches Some(JsonView::Object(people)) && says(people, "organizer"@)
                == Some(JsonView::Object(participant(who, seq!["owner"@, "chair"@], None, None))))
            &&& g.field("organizer"@) is None ==> says(m, "organizerCalendarAddress"@) is None
            &&& g.array_at("attendees"@) == Some(list) && 1 <= i <= list.len() && list[i - 1].field("emailAddress"@)
                == Some(email) ==> (says(m, "participants"@) matches Some(JsonView::Object(people)) && says(people, key)
                == Some(JsonView::Object(attendee(list[i - 1], email))))
            &&& g.field("organizer"@) is None && g.array_at("attendees"@) is None ==> says(m, "participants"@) is None
        }),
{
    lemma_names();
    if g.array_at("attendees"@) == Some(list) && 1 <= i <= list.len() && list[i - 1].field("emailAddress"@) == Some(
        email,
    ) {
        let base = crate::exchange_graph::calendar_map::put(
            Map::empty(),
            "organizer"@,
            match crate::exchange_graph::calendar_map::organizer_email(g) {
                Some(org) => Some(JsonView::Object(participant(org, seq!["owner"@, "chair"@], None, None))),
                None => None,
            },
        );
        lemma_attendee_kept(base, list, list.len(), i, email);
        assert(list[i - 1].field("emailAddress"@) is Some);
    }
    match g.array_at("attendees"@) {
        Some(a) => {
            let base = crate::exchange_graph::calendar_map::put(
                Map::empty(),
                "organizer"@,
                match crate::exchange_graph::calendar_map::organizer_email(g) {
                    Some(org) => Some(JsonView::Object(participant(org, seq!["owner"@, "chair"@], None, None))),
                    None => None,
                },
            );
            lemma_base_kept(base, a, a.len());
        },
        None => {},
    }
}

proof fn lemma_trimmed(s: Seq<char>, c: char)
    requires
        s.len() == 0 || s.last() != c,
    ensures
        text::trimmed_end(s, c) == s,
        text::trimmed_end(s + seq![c], c) == s,
{
    reveal_with_fuel(text::trimmed_end, 2);
    assert((s + seq![c]).drop_last() =~= s);
}

/// A time stamp keeps its seconds and its mark of UTC, and loses a fraction of a second.
pub proof fn stamps_lose_their_fraction(base: Seq<char>, fraction: Seq<char>)
    requires
        base.len() > 0,
        base.last() != 'Z',
        !base.contains('.'),
        fraction.len() == 0 || fraction.last() != 'Z',
    ensures
        whole_seconds_utc(base) == base,
        whole_seconds_utc(base + seq!['Z']) == base + seq!['Z'],
        whole_seconds_utc(base + seq!['.'] + fraction) == base,
        whole_seconds_utc(base + seq!['.'] + fraction + seq!['Z']) == base + seq!['Z'],
{
    reveal_strlit("Z");
    assert("Z"@ =~= seq!['Z']);
    lemma_trimmed(base, 'Z');
    lemma_until_none(base, '.');
    let long = base + seq!['.'] + fraction;
    assert(long.last() == if fraction.len() == 0 {
        '.'
    } else {
        fraction.last()
    });
    lemma_trimmed(long, 'Z');
    lemma_until(base, fraction, '.');
    assert((long + seq!['Z']).last() == 'Z');
    assert((base + seq!['Z']).last() == 'Z');
}

/// When an event was made and changed is kept, as is its reminder: so many minutes
/// before the start.
#[verifier::rlimit(40)]
pub proof fn events_keep_their_stamps(
    g: JsonView,
    fallback: Option<Seq<char>>,
    rule: Result<Members, GraphErrorView>,
    t: Seq<char>,
    mins: i64,
)
    requires
        converted(g, fallback, rule) is Ok,
        mins >= 0,
    ensures
        ({
            let m = converted(g, fallback, rule)->Ok_0.data->Object_0;
            &&& g.text_at("createdDateTime"@) == Some(t) ==> says(m, "created"@) == Some(
                JsonView::Str(whole_seconds_utc(t)),
            )
            &&& g.text_at("lastModifiedDateTime"@) == Some(t) ==> says(m, "updated"@) == Some(
                JsonView::Str(whole_seconds_utc(t)),
            )
            &&& g.text_at("createdDateTime"@) is None ==> says(m, "created"@) is None
            &&& g.text_at("lastModifiedDateTime"@) is None ==> says(m, "updated"@) is None
            &&& g.bool_at("isReminderOn"@) != Some(true) ==> says(m, "alerts"@) is None
            &&& g.bool_at("isReminderOn"@) == Some(true) && g.field("reminderMinutesBeforeStart"@) == Some(
                JsonView::Number(NumberView::Integer(mins as int)),
            ) ==> {
                let alerts = says(m, "alerts"@)->0->Object_0;
                let a = says(alerts, "alert-1"@)->0->Object_0;
                let trigger = says(a, "trigger"@)->0->Object_0;
                &&& says(m, "alerts"@) == Some(JsonView::Object(alerts))
                &&& says(alerts, "alert-1"@) == Some(JsonView::Object(a))
                &&& says(a, "@type"@) == Some(JsonView::Str("Alert"@))
                &&& says(a, "trigger"@) == Some(JsonView::Object(trigger))
                &&& says(trigger, "@type"@) == Some(JsonView::Str("OffsetTrigger"@))
                &&& says(trigger, "relativeTo"@) == Some(JsonView::Str("start"@))
                &&& says(trigger, "offset"@) == Some(JsonView::Str("-PT"@ + text::decimal_text(mins as nat) + "M"@))
            }
        }),
{
    lemma_names();
    reveal_strlit("trigger");
    reveal_strlit("relativeTo");
    reveal_strlit("offset");
    assert("trigger"@.len() == 7 && "relativeTo"@.len() == 10 && "offset"@.len() == 6);
    assert(crate::json::signed_of(NumberView::Integer(mins as int)) == Some(mins));
}

/// A span is written in hours, minutes and seconds, without those that are none but at
/// least one of them.
pub proof fn spans_are_written_in_parts(h: nat, m: nat, s: nat)
    requires
        m < 60,
        s < 60,
    ensures
        ({
            let t = duration_text(h * 3600 + m * 60 + s);
            let hours = text::decimal_text(h) + "H"@;
            let minutes = text::decimal_text(m) + "M"@;
            let seconds = text::decimal_text(s) + "S"@;
            &&& h > 0 && m > 0 && s > 0 ==> t == "PT"@ + hours + minutes + seconds
            &&& h > 0 && m > 0 && s == 0 ==> t == "PT"@ + hours + minutes
            &&& h > 0 && m == 0 && s > 0 ==> t == "PT"@ + hours + minutes + seconds
            &&& h > 0 && m == 0 && s == 0 ==> t == "PT"@ + hours
            &&& h == 0 && m > 0 && s > 0 ==> t == "PT"@ + minutes + seconds
            &&& h == 0 && m > 0 && s == 0 ==> t == "PT"@ + minutes
            &&& h == 0 && m == 0 ==> t == "PT"@ + seconds
        }),
{
    let total = h * 3600 + m * 60 + s;
    assert(total / 3600 == h);
    assert(total % 3600 == m * 60 + s);
    assert((total % 3600) / 60 == m);
    assert(total % 60 == s);
    let e = Seq::<char>::empty();
    assert(duration_text(total) =~= "PT"@ + (if h > 0 {
        text::decimal_text(h) + "H"@
    } else {
        e
    }) + (if m > 0 || (h > 0 && s > 0) {
        text::decimal_text(m) + "M"@
    } else {
        e
    }) + (if s > 0 || (h == 0 && m == 0) {
        text::decimal_text(s) + "S"@
    } else {
        e
    }));
    let hours = text::decimal_text(h) + "H"@;
    let minutes = text::decimal_text(m) + "M"@;
    let seconds = text::decimal_text(s) + "S"@;
    assert("PT"@ + e =~= "PT"@);
    assert("PT"@ + hours + e =~= "PT"@ + hours);
    assert("PT"@ + hours + minutes + e =~= "PT"@ + hours + minutes);
    assert("PT"@ + minutes + e =~= "PT"@ + minutes);
}

/// An event lasts from its start to its end: a card says for how long where the end is
/// later.
#[verifier::rlimit(40)]
pub proof fn events_keep_their_length(
    g: JsonView,
    fallback: Option<Seq<char>>,
    rule: Result<Members, GraphErrorView>,
    s: Seq<char>,
    e: Seq<char>,
)
    requires
        converted(g, fallback, rule) is Ok,
        local_datetime(g.field("start"@)) == Some(s),
        local_datetime(g.field("end"@)) == Some(e),
        naive_seconds(s) is Some,
        naive_seconds(e) is Some,
    ensures
        ({
            let m = converted(g, fallback, rule)->Ok_0.data->Object_0;
            let span = naive_seconds(e)->0 - naive_seconds(s)->0;
            &&& span > 0 ==> says(m, "duration"@) == Some(JsonView::Str(duration_text(span as nat)))
            &&& span <= 0 ==> says(m, "duration"@) is None
        }),
{
    lemma_names();
    lemma_card(g, fallback, rule);
    let c = converted(g, fallback, rule)->Ok_0;
    let r = if recurs(g) {
        Some(JsonView::Object(rule->Ok_0))
    } else {
        None
    };
    let x = overrides_of(g, fallback)->Ok_0;
    let m0 = card_subject(g, c.uid);
    let m1 = card_time(m0, g, fallback);
    let m2 = card_standing(m1, g);
    assert(says(m0, "duration"@) is None);
    lemma_past_standing(m1, g, "duration"@);
    lemma_past_rest(m2, g, r, x, "duration"@);
    lemma_duration(m0, g, fallback, s, e);
}

#[verifier::rlimit(40)]
proof fn lemma_duration(m: Members, g: JsonView, fallback: Option<Seq<char>>, s: Seq<char>, e: Seq<char>)
    requires
        says(m, "duration"@) is None,
        local_datetime(g.field("start"@)) == Some(s),
        local_datetime(g.field("end"@)) == Some(e),
        naive_seconds(s) is Some,
        naive_seconds(e) is Some,
    ensures
        ({
            let span = naive_seconds(e)->0 - naive_seconds(s)->0;
            &&& span > 0 ==> says(card_time(m, g, fallback), "duration"@) == Some(
                JsonView::Str(duration_text(span as nat)),
            )
            &&& span <= 0 ==> says(card_time(m, g, fallback), "duration"@) is None
        }),
{
    lemma_names();
}

proof fn lemma_two_pieces(a: Seq<char>, b: Seq<char>, c: char)
    requires
        !a.contains(c),
        !b.contains(c),
    ensures
        text::pieces(a + seq![c] + b, c) == seq![a, b],
{
    lemma_until(a, b, c);
    b.index_of_first_ensures(c);
    reveal_with_fuel(text::pieces, 2);
    assert(text::pieces(b, c) =~= seq![b]);
    assert(text::pieces(a + seq![c] + b, c) =~= seq![a] + seq![b]);
    assert(seq![a] + seq![b] =~= seq![a, b]);
}

proof fn lemma_three_pieces(a: Seq<char>, b: Seq<char>, d: Seq<char>, c: char)
    requires
        !a.contains(c),
        !b.contains(c),
        !d.contains(c),
    ensures
        text::pieces(a + seq![c] + (b + seq![c] + d), c) == seq![a, b, d],
{
    let rest = b + seq![c] + d;
    lemma_until(a, rest, c);
    lemma_two_pieces(b, d, c);
    assert(text::pieces(a + seq![c] + rest, c) =~= seq![a] + seq![b, d]);
    assert(seq![a] + seq![b, d] =~= seq![a, b, d]);
}

/// Whether a text is free of what separates the parts of a date and time.
pub open spec fn plain_part(t: Seq<char>) -> bool {
    !t.contains('-') && !t.contains('T') && !t.contains(':') && !t.contains('.') && !t.contains('Z')
}

proof fn lemma_absent3(a: Seq<char>, x: char, b: Seq<char>, c: char)
    requires
        !a.contains(c),
        !b.contains(c),
        x != c,
    ensures
        !(a + seq![x] + b).contains(c),
{
    let s = a + seq![x] + b;
    if s.contains(c) {
        let i = choose|i: int| 0 <= i < s.len() && s[i] == c;
        if i < a.len() {
            assert(a[i] == c);
        } else if i > a.len() {
            assert(b[i - a.len() - 1] == c);
        }
    }
}

/// A date and time is counted in seconds: its days, hours, minutes and seconds.
pub proof fn times_are_counted_in_seconds(
    y: Seq<char>,
    mo: Seq<char>,
    d: Seq<char>,
    h: Seq<char>,
    mi: Seq<char>,
    s: Seq<char>,
)
    requires
        plain_part(y) && plain_part(mo) && plain_part(d) && plain_part(h) && plain_part(mi) && plain_part(s),
        text::i64_value(y) is Some && text::i64_value(mo) is Some && text::i64_value(d) is Some,
        text::i64_value(h) is Some && text::i64_value(mi) is Some && text::i64_value(s) is Some,
        s.len() > 0,
    ensures
        naive_seconds(
            y + seq!['-'] + (mo + seq!['-'] + d) + seq!['T'] + (h + seq![':'] + (mi + seq![':'] + s)),
        ) == Some(
            civil_days(text::i64_value(y)->0, text::i64_value(mo)->0, text::i64_value(d)->0) * 86400
                + text::i64_value(h)->0 * 3600 + text::i64_value(mi)->0 * 60 + text::i64_value(s)->0,
        ),
{
    let md = mo + seq!['-'] + d;
    let date = y + seq!['-'] + md;
    let ms = mi + seq![':'] + s;
    let time = h + seq![':'] + ms;
    lemma_absent3(mo, '-', d, 'T');
    lemma_absent3(y, '-', md, 'T');
    lemma_until(date, time, 'T');
    lemma_three_pieces(y, mo, d, '-');
    lemma_absent3(mi, ':', s, '.');
    lemma_absent3(h, ':', ms, '.');
    lemma_until_none(time, '.');
    assert(s.contains(s.last()));
    assert(time.last() == s.last());
    lemma_trimmed(time, 'Z');
    lemma_three_pieces(h, mi, s, ':');
}

/// A cancelled occurrence is found by its name: Graph names it by the series and the
/// date.
pub proof fn occurrences_are_named_by_date(g: JsonView, master: Seq<char>, date: Seq<char>, other: Seq<char>)
    requires
        !date.contains('.'),
        told(g, "id"@, master),
    ensures
        g.text_at("type"@) == Some("seriesMaster"@) ==> named_date(g, "OID."@ + master + seq!['.'] + date) == Ok::<
            Seq<char>,
            GraphErrorView,
        >(date),
        g.text_at("type"@) == Some("seriesMaster"@) && other != master ==> named_date(
            g,
            "OID."@ + other + seq!['.'] + date,
        ) is Err,
        g.text_at("type"@) is None ==> named_date(g, "OID."@ + master + seq!['.'] + date) is Err,
        named_date(g, date) is Err,
{
    lemma_occurrence(master, date);
    lemma_occurrence(other, date);
    reveal_strlit("OID.");
    if text::begins(date, "OID."@) {
        assert(date.take(4)[3] == '.');
        assert(date[3] == '.');
        assert(date.contains(date[3]));
    }
}

proof fn lemma_occurrence(master: Seq<char>, date: Seq<char>)
    requires
        !date.contains('.'),
    ensures
        ({
            let id = "OID."@ + master + seq!['.'] + date;
            &&& text::begins(id, "OID."@)
            &&& text::split_last(id.skip("OID."@.len() as int), '.') == Some((master, date))
        }),
{
    let id = "OID."@ + master + seq!['.'] + date;
    assert(id.take("OID."@.len() as int) =~= "OID."@);
    let rest = master + seq!['.'] + date;
    assert(id.skip("OID."@.len() as int) =~= rest);
    assert(rest[master.len() as int] == '.');
    assert(rest.contains('.'));
    rest.index_of_last_ensures('.');
    let i = rest.index_of_last('.')->0;
    if i > master.len() {
        assert(date[i - master.len() - 1] == '.');
    }
    if i < master.len() {
        assert(rest[master.len() as int] != '.');
    }
    assert(rest.take(i) =~= master);
    assert(rest.skip(i + 1) =~= date);
}

/// An excluded occurrence is keyed by its date, with midnight for whole days and else
/// with the time of day at which the series begins.
pub proof fn exclusions_are_keyed_by_local_time(day: Seq<char>, h: nat, m: nat, s: nat, at: Moment)
    requires
        h < 24,
        m < 60,
        s < 60,
        at.seconds as int % 86400 == h * 3600 + m * 60 + s,
        at.nanos < 1_000_000_000,
    ensures
        key_text(day, None) == day + "T00:00:00"@,
        key_text(day, Some(at)) == day + "T"@ + text::padded_text(h, 2) + ":"@ + text::padded_text(m, 2) + ":"@
            + text::padded_text(s, 2),
{
    reveal_strlit("T00:00:00");
    reveal_strlit("T");
    reveal_strlit("00:00:00");
    assert("T"@ + "00:00:00"@ =~= "T00:00:00"@);
    assert(day + "T"@ + "00:00:00"@ =~= day + ("T"@ + "00:00:00"@));
    let d = at.seconds as int % 86400;
    assert(d / 3600 == h);
    assert((d % 3600) / 60 == m);
    assert(d % 60 == s);
    let clock = text::padded_text(h, 2) + ":"@ + text::padded_text(m, 2) + ":"@ + text::padded_text(s, 2);
    assert(clock_text(at) == clock);
    assert(day + "T"@ + clock =~= day + "T"@ + text::padded_text(h, 2) + ":"@ + text::padded_text(m, 2) + ":"@
        + text::padded_text(s, 2));
}

/// Graph's colours stand for those they name.
pub proof fn colours_are_those_named()
    ensures
        color_hex("lightBlue"@) == Some("#A6CEE3"@),
        color_hex("lightGreen"@) == Some("#B2DF8A"@),
        color_hex("lightOrange"@) == Some("#FDBF6F"@),
        color_hex("lightGray"@) == Some("#CCCCCC"@),
        color_hex("lightYellow"@) == Some("#FFFF99"@),
        color_hex("lightTeal"@) == Some("#A0E7E5"@),
        color_hex("lightPink"@) == Some("#FB9A99"@),
        color_hex("lightBrown"@) == Some("#B15928"@),
        color_hex("lightRed"@) == Some("#FB9A99"@),
        color_hex("auto"@) is None,
{
    reveal_strlit("lightBlue");
    reveal_strlit("lightGreen");
    reveal_strlit("lightOrange");
    reveal_strlit("lightGray");
    reveal_strlit("lightYellow");
    reveal_strlit("lightTeal");
    reveal_strlit("lightPink");
    reveal_strlit("lightBrown");
    reveal_strlit("lightRed");
    reveal_strlit("auto");
    assert("lightBlue"@[6] == 'l' && "lightGray"@[6] == 'r' && "lightTeal"@[6] == 'e' && "lightPink"@[6] == 'i');
    assert("lightGreen"@[6] == 'r' && "lightBrown"@[6] == 'r' && "lightGreen"@[5] == 'G' && "lightBrown"@[5] == 'B');
    assert("lightBlue"@[5] == 'B' && "lightGray"@[5] == 'G' && "lightTeal"@[5] == 'T' && "lightPink"@[5] == 'P');
    assert("lightOrange"@[5] == 'O' && "lightYellow"@[5] == 'Y');
    assert("lightBlue"@.len() == 9 && "lightGray"@.len() == 9 && "lightTeal"@.len() == 9 && "lightPink"@.len() == 9);
    assert("lightGreen"@.len() == 10 && "lightBrown"@.len() == 10 && "lightRed"@.len() == 8 && "auto"@.len() == 4);
    assert("lightOrange"@.len() == 11 && "lightYellow"@.len() == 11);
}

} // verus!
