use serde_json::Value;
use vandelay::exchange_graph::calendar_map::{
    classify_event_type, convert_event, days_from_civil, duration_iso8601, graph_calendar_color_to_hex, occurrence_date,
    occurrence_key, shown_start, windows_or_iana_to_iana, ConvertedEvent, EventType,
};
use vandelay::exchange::moment::Moment;
use vandelay::exchange_graph::error::GraphError;
use vandelay::json::{Json, JsonObject};

fn value(text: &str) -> Value {
    serde_json::from_str(text).expect("a JSON text")
}

fn json(text: &str) -> Json {
    Json::parse(text.as_bytes()).expect("a JSON text")
}

fn daily() -> Result<JsonObject, GraphError> {
    let mut rule = JsonObject::new();
    rule.insert("@type".to_owned(), Json::text("RecurrenceRule"));
    rule.insert("frequency".to_owned(), Json::text("daily"));
    Ok(rule)
}

fn convert(v: &Value, zone: Option<&str>) -> Result<ConvertedEvent, GraphError> {
    convert_event(&Json::from_value(v.clone()), zone, daily())
}

fn converted(v: &Value, zone: Option<&str>) -> Value {
    convert(v, zone).expect("the event converts").data.to_value()
}

fn sample() -> Value {
    value(
        r#"{
            "id": "AAA",
            "iCalUId": "uid-1",
            "type": "singleInstance",
            "subject": "Sync up",
            "body": {"contentType": "text", "content": "Agenda"},
            "start": {"dateTime": "2026-05-27T10:00:00.0000000", "timeZone": "UTC"},
            "end": {"dateTime": "2026-05-27T11:00:00.0000000", "timeZone": "UTC"},
            "isAllDay": false,
            "isCancelled": false,
            "sensitivity": "private",
            "importance": "high",
            "showAs": "busy",
            "categories": ["Red", "Internal"],
            "createdDateTime": "2026-05-01T08:00:00Z",
            "lastModifiedDateTime": "2026-05-02T08:00:00Z",
            "isReminderOn": true,
            "reminderMinutesBeforeStart": 15,
            "isDraft": false,
            "organizer": {"emailAddress": {"name": "Alice", "address": "alice@x.com"}},
            "attendees": [
                {"emailAddress": {"name": "Bob", "address": "bob@x.com"}, "type": "required"}
            ]
        }"#,
    )
}

#[test]
fn classify_event_type_dispatch() {
    assert_eq!(
        classify_event_type(&json(r#"{"type": "seriesMaster"}"#)),
        EventType::SeriesMaster
    );
    assert_eq!(
        classify_event_type(&json(r#"{"type": "occurrence"}"#)),
        EventType::Occurrence
    );
    assert_eq!(
        classify_event_type(&json(r#"{"type": "exception"}"#)),
        EventType::Exception
    );
    assert_eq!(classify_event_type(&json("{}")), EventType::SingleInstance);
}

#[test]
fn single_instance_converts_to_event_value() {
    let conv = convert(&sample(), Some("UTC")).unwrap();
    assert_eq!(conv.uid, "uid-1");
    let data = conv.data.to_value();
    assert_eq!(data["@type"], "Event");
    assert_eq!(data["title"], "Sync up");
    assert_eq!(data["description"], "Agenda");
    assert_eq!(data["start"], "2026-05-27T10:00:00");
    assert_eq!(data["duration"], "PT1H");
    assert_eq!(data["status"], "confirmed");
    assert_eq!(data["privacy"], "private");
    assert_eq!(data["priority"], 1);
    assert_eq!(data["freeBusyStatus"], "busy");
    let kws = data["keywords"].as_object().unwrap();
    assert!(kws.contains_key("Red"));
    assert!(kws.contains_key("Internal"));
    assert!(data.get("categories").is_none());
    assert!(data.get("version").is_none());
    assert_eq!(data["timeZone"], "Etc/UTC");
    let alerts = data["alerts"].as_object().unwrap();
    assert_eq!(alerts["alert-1"]["trigger"]["offset"], "-PT15M");
}

#[test]
fn cancelled_event_status_is_cancelled() {
    let mut v = sample();
    v["isCancelled"] = Value::Bool(true);
    assert_eq!(converted(&v, None)["status"], "cancelled");
}

#[test]
fn all_day_sets_show_without_time() {
    let mut v = sample();
    v["isAllDay"] = Value::Bool(true);
    assert_eq!(converted(&v, None)["showWithoutTime"], true);
}

#[test]
fn priority_mapping_covers_three_levels() {
    assert_eq!(converted(&sample(), None)["priority"], 1);
    let mut v = sample();
    v["importance"] = Value::from("normal");
    assert_eq!(converted(&v, None)["priority"], 5);
    v["importance"] = Value::from("low");
    assert_eq!(converted(&v, None)["priority"], 9);
}

#[test]
fn duration_handles_subhour() {
    assert_eq!(
        duration_iso8601("2026-05-27T10:00:00", "2026-05-27T10:30:00").as_deref(),
        Some("PT30M")
    );
}

#[test]
fn duration_handles_multi_day() {
    assert_eq!(
        duration_iso8601("2026-05-27T10:00:00", "2026-05-28T11:30:45").as_deref(),
        Some("PT25H30M45S")
    );
}

#[test]
fn windows_tz_fallback_returns_iana() {
    assert_eq!(
        windows_or_iana_to_iana("Pacific Standard Time").as_deref(),
        Some("America/Los_Angeles")
    );
    assert_eq!(
        windows_or_iana_to_iana("America/New_York").as_deref(),
        Some("America/New_York")
    );
    assert!(windows_or_iana_to_iana("Made Up Zone").is_none());
}

#[test]
fn organizer_and_attendees_become_participants() {
    let data = converted(&sample(), None);
    let participants = data["participants"].as_object().unwrap();
    assert!(participants.contains_key("organizer"));
    assert_eq!(participants["organizer"]["email"], "alice@x.com");
    assert_eq!(
        participants["organizer"]["calendarAddress"],
        "mailto:alice@x.com"
    );
    assert_eq!(participants["organizer"]["roles"]["owner"], true);
    assert_eq!(participants["organizer"]["roles"]["chair"], true);
    assert!(participants.contains_key("att-1"));
    assert_eq!(participants["att-1"]["email"], "bob@x.com");
    assert_eq!(participants["att-1"]["roles"]["required"], true);
}

#[test]
fn optional_attendee_keeps_role_and_uses_status_when_present() {
    let mut v = sample();
    v["attendees"] = value(
        r#"[{
            "emailAddress": {"name": "Carol", "address": "carol@x.com"},
            "type": "optional",
            "status": {"response": "tentativelyAccepted"}
        }]"#,
    );
    let data = converted(&v, None);
    let p = &data["participants"]["att-1"];
    assert_eq!(p["roles"]["optional"], true);
    assert!(p["roles"].get("required").is_none());
    assert_eq!(p["participationStatus"], "tentative");
}

#[test]
fn many_attendees_zero_pad_keys_for_stable_sort() {
    let mut v = sample();
    let mut atts = Vec::new();
    for i in 1..=11 {
        atts.push(value(&format!(
            r#"{{"emailAddress": {{"address": "u{i}@x.com"}}, "type": "required"}}"#
        )));
    }
    v["attendees"] = Value::Array(atts);
    let data = converted(&v, None);
    let map = data["participants"].as_object().unwrap();
    assert!(map.contains_key("att-01"));
    assert!(map.contains_key("att-11"));
}

#[test]
fn original_start_time_zone_is_preserved() {
    let mut v = sample();
    v["originalStartTimeZone"] = Value::from("Pacific Standard Time");
    v["start"]["timeZone"] = Value::from("UTC");
    let data = converted(&v, None);
    assert_eq!(data["timeZone"], "America/Los_Angeles");
    assert_eq!(data["start"], "2026-05-27T03:00:00");
}

#[test]
fn utc_times_are_converted_into_the_original_zone() {
    let mut v = sample();
    v["originalStartTimeZone"] = Value::from("Europe/Paris");
    v["start"]["dateTime"] = Value::from("2025-03-12T07:30:00.0000000");
    v["start"]["timeZone"] = Value::from("UTC");
    v["end"]["dateTime"] = Value::from("2025-03-12T08:00:00.0000000");
    v["end"]["timeZone"] = Value::from("UTC");
    let data = converted(&v, None);
    assert_eq!(data["start"], "2025-03-12T08:30:00");
    assert_eq!(data["timeZone"], "Europe/Paris");
    assert_eq!(data["duration"], "PT30M");
}

#[test]
fn summer_event_shifts_by_two_hours_in_paris() {
    let mut v = sample();
    v["originalStartTimeZone"] = Value::from("Romance Standard Time");
    v["start"]["dateTime"] = Value::from("2025-07-15T06:30:00.0000000");
    v["start"]["timeZone"] = Value::from("UTC");
    v["end"]["dateTime"] = Value::from("2025-07-15T07:30:00.0000000");
    v["end"]["timeZone"] = Value::from("UTC");
    let data = converted(&v, None);
    assert_eq!(data["start"], "2025-07-15T08:30:00");
    assert_eq!(data["timeZone"], "Europe/Paris");
}

#[test]
fn unresolvable_microsoft_zone_falls_back_to_utc() {
    let mut v = sample();
    v["originalStartTimeZone"] = Value::from("tzone://Microsoft/Custom");
    v["start"]["dateTime"] = Value::from("2025-03-12T07:30:00.0000000");
    v["start"]["timeZone"] = Value::from("UTC");
    let data = converted(&v, None);
    assert_eq!(data["start"], "2025-03-12T07:30:00");
    assert_eq!(data["timeZone"], "Etc/UTC");
}

#[test]
fn all_day_keeps_date_and_omits_timezone() {
    let mut v = sample();
    v["isAllDay"] = Value::Bool(true);
    v["originalStartTimeZone"] = Value::from("Europe/Paris");
    v["start"]["dateTime"] = Value::from("2025-03-12T00:00:00.0000000");
    v["start"]["timeZone"] = Value::from("UTC");
    let data = converted(&v, None);
    assert_eq!(data["start"], "2025-03-12T00:00:00");
    assert_eq!(data["showWithoutTime"], true);
    assert!(data.get("timeZone").is_none());
}

#[test]
fn duration_h_and_s_no_minutes_includes_zero_m() {
    assert_eq!(
        duration_iso8601("2026-05-27T10:00:00", "2026-05-27T11:00:05").as_deref(),
        Some("PT1H0M5S")
    );
}

#[test]
fn fractional_seconds_are_stripped_from_timestamps() {
    let mut v = sample();
    v["createdDateTime"] = Value::from("2026-05-01T08:00:00.0000000Z");
    v["lastModifiedDateTime"] = Value::from("2026-05-02T08:00:00.123Z");
    let data = converted(&v, None);
    assert_eq!(data["created"], "2026-05-01T08:00:00Z");
    assert_eq!(data["updated"], "2026-05-02T08:00:00Z");
}

#[test]
fn organizer_calendar_address_is_set_alongside_participants() {
    let data = converted(&sample(), None);
    assert_eq!(data["organizerCalendarAddress"], "mailto:alice@x.com");
}

#[test]
fn recurrence_emits_singular_recurrence_rule_object() {
    let mut v = sample();
    v["recurrence"] = value(
        r#"{
            "pattern": {"type": "daily", "interval": 1},
            "range": {"type": "noEnd"}
        }"#,
    );
    let data = converted(&v, None);
    assert!(data.get("recurrenceRules").is_none());
    let rule = &data["recurrenceRule"];
    assert!(rule.is_object());
    assert_eq!(rule["@type"], "RecurrenceRule");
    assert_eq!(rule["frequency"], "daily");
}

#[test]
fn cancelled_occurrence_id_becomes_a_local_datetime_override_key() {
    let mut v = sample();
    v["type"] = Value::from("seriesMaster");
    v["recurrence"] = value(
        r#"{
            "pattern": {"type": "daily", "interval": 1},
            "range": {
                "type": "noEnd",
                "startDate": "2025-01-15",
                "recurrenceTimeZone": "Romance Standard Time"
            }
        }"#,
    );
    v["originalStartTimeZone"] = Value::from("Romance Standard Time");
    v["start"] = value(r#"{"dateTime": "2025-01-15T08:30:00.0000000", "timeZone": "UTC"}"#);
    v["end"] = value(r#"{"dateTime": "2025-01-15T09:00:00.0000000", "timeZone": "UTC"}"#);
    v["cancelledOccurrences"] = value(r#"["OID.AAA.2025-07-15"]"#);

    let data = converted(&v, None);
    let overrides = data["recurrenceOverrides"].as_object().unwrap();
    assert_eq!(
        overrides.get("2025-07-15T09:30:00"),
        Some(&value(r#"{"excluded": true}"#)),
        "the cancellation keeps the master's 09:30 recurrence wall time across DST"
    );
    assert!(
        !overrides.contains_key("OID.AAA.2025-07-15"),
        "Graph's opaque occurrenceId is not a valid JSCalendar key"
    );
}

#[test]
fn malformed_cancelled_occurrence_fails_closed() {
    let mut v = sample();
    v["type"] = Value::from("seriesMaster");
    v["recurrence"] = value(
        r#"{
            "pattern": {"type": "daily", "interval": 1},
            "range": {
                "type": "noEnd",
                "startDate": "2026-05-27",
                "recurrenceTimeZone": "UTC"
            }
        }"#,
    );
    v["cancelledOccurrences"] = value(r#"["OID.OTHER.not-a-date"]"#);
    assert!(matches!(convert(&v, None), Err(GraphError::Malformed(_))));
}

#[test]
fn location_with_address_only_uses_name_property() {
    let mut v = sample();
    v["locations"] = value(
        r#"[{"address": {"street": "1 Infinite Loop", "city": "Cupertino"}}]"#,
    );
    let data = converted(&v, None);
    let locs = data["locations"].as_object().unwrap();
    let only = locs.values().next().unwrap();
    assert_eq!(only["@type"], "Location");
    assert_eq!(only["name"], "1 Infinite Loop, Cupertino");
    assert!(only.get("description").is_none());
}

#[test]
fn durations_across_the_ends_of_months_and_years() {
    assert_eq!(
        duration_iso8601("2024-02-28T23:00:00", "2024-03-01T00:00:00").as_deref(),
        Some("PT25H")
    );
    assert_eq!(
        duration_iso8601("2023-12-31T23:59:59", "2024-01-01T00:00:00").as_deref(),
        Some("PT1S")
    );
    assert_eq!(duration_iso8601("not a time", "2024-01-01T00:00:00"), None);
}

#[test]
fn named_colors_have_hexadecimal_values() {
    assert_eq!(graph_calendar_color_to_hex("lightBlue"), Some("#A6CEE3"));
    assert_eq!(graph_calendar_color_to_hex("nosuchcolor"), None);
}

#[test]
fn a_rule_that_cannot_be_converted_ends_the_conversion() {
    let mut v = sample();
    v["recurrence"] = value(r#"{"pattern": {"type": "daily"}, "range": {"type": "noEnd"}}"#);
    let r = convert_event(
        &Json::from_value(v),
        None,
        Err(GraphError::Malformed("no such pattern".to_owned())),
    );
    assert!(matches!(r, Err(GraphError::Malformed(_))));
}

#[test]
fn names_of_occurrences_end_in_their_date() {
    let master = json(r#"{"type": "seriesMaster", "id": "M.1"}"#);
    assert_eq!(occurrence_date(&master, "OID.M.1.2026-01-02").unwrap(), "2026-01-02");
    let refused = |id: &str| match occurrence_date(&master, id) {
        Err(GraphError::Malformed(m)) => m,
        other => panic!("got {other:?}"),
    };
    assert_eq!(refused("X.M.1"), "cancelled occurrence id \"X.M.1\" does not start with OID.");
    assert_eq!(refused("OID.M"), "cancelled occurrence id \"OID.M\" has no start-date suffix");
    assert_eq!(
        refused("OID.N.2026-01-02"),
        "cancelled occurrence id \"OID.N.2026-01-02\" belongs to series \"N\", not \"M.1\""
    );
    assert!(occurrence_date(&json(r#"{"type": "occurrence", "id": "M"}"#), "OID.M.2026-01-02").is_err());
    assert!(occurrence_date(&json(r#"{"type": "seriesMaster", "id": ""}"#), "OID..2026-01-02").is_err());
}

#[test]
fn keys_of_occurrences_carry_the_time_of_the_series() {
    assert_eq!(occurrence_key("2026-01-02", None), "2026-01-02T00:00:00");
    let at = Moment { seconds: 86400 + 9 * 3600 + 5 * 60 + 7, nanos: 0 };
    assert_eq!(occurrence_key("2026-01-02", Some(at)), "2026-01-02T09:05:07");
    let before = Moment { seconds: -1, nanos: 1_000_000_000 };
    assert_eq!(occurrence_key("2026-01-02", Some(before)), "2026-01-02T23:59:60");
}

#[test]
fn starts_are_moved_unless_days_are_whole() {
    let moved = || Some("2026-01-02T10:00:00".to_owned());
    assert_eq!(shown_start("2026-01-02T09:00:00", moved(), false), "2026-01-02T10:00:00");
    assert_eq!(shown_start("2026-01-02T09:00:00", moved(), true), "2026-01-02T09:00:00");
    assert_eq!(shown_start("2026-01-02T09:00:00", None, false), "2026-01-02T09:00:00");
}

#[test]
fn leap_seconds_are_moved_by_any_offset() {
    let mut v = sample();
    v["originalStartTimeZone"] = Value::from("Europe/Paris");
    v["start"]["dateTime"] = Value::from("1880-01-01T23:59:60");
    v["start"]["timeZone"] = Value::from("UTC");
    v["end"]["dateTime"] = Value::from("1880-01-02T00:30:00");
    v["end"]["timeZone"] = Value::from("UTC");
    let data = converted(&v, None);
    assert_eq!(data["timeZone"], "Europe/Paris");
    assert_eq!(data["start"], "1880-01-02T00:09:21");
}

#[test]
fn leap_seconds_of_a_series_are_moved_by_any_offset() {
    let mut v = sample();
    v["type"] = Value::from("seriesMaster");
    v["recurrence"] = value(
        r#"{
            "pattern": {"type": "daily", "interval": 1},
            "range": {"type": "noEnd", "startDate": "1880-01-01", "recurrenceTimeZone": "UTC"}
        }"#,
    );
    v["start"] = value(r#"{"dateTime": "1880-01-02T23:59:60", "timeZone": "Europe/Paris"}"#);
    v["end"] = value(r#"{"dateTime": "1880-01-03T00:30:00", "timeZone": "Europe/Paris"}"#);
    v["cancelledOccurrences"] = value(r#"["OID.AAA.1880-01-05"]"#);
    let data = converted(&v, None);
    let overrides = data["recurrenceOverrides"].as_object().unwrap();
    assert!(overrides.contains_key("1880-01-05T23:50:39"), "got {overrides:?}");
}

#[test]
fn days_are_counted_from_the_epoch() {
    assert_eq!(days_from_civil(1970, 1, 1), 0);
    assert_eq!(days_from_civil(1969, 12, 31), -1);
    assert_eq!(days_from_civil(2000, 3, 1), days_from_civil(2000, 2, 29) + 1);
    assert_eq!(days_from_civil(2026, 1, 1), 20_454);
}
