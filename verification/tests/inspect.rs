use std::collections::HashMap;

use rusqlite::Connection;
use serde_json::Value;
use vandelay::db::export_failures::{page, FailedItem, PROBE_NOT_PROBED, PROBE_ORPHANED_MARKER};
use vandelay::error::Error;
use vandelay::inspect::failures::{
    blob_field, bytes_or_none, failure_record, item_label, write_failures, write_failures_json,
};
use vandelay::inspect::list::{
    json_pretty_or_raw, keywords_summary, limit_clause, parse_local_ids, write_address_books,
    write_calendar_events, write_calendars, write_contact_cards, write_emails, write_header, write_identities,
    write_list, write_participant_identities, write_record, write_sieves, CalendarColumns, Names,
};
use vandelay::types::ObjectType;

fn item(local_id: i64, probe: &str) -> FailedItem {
    FailedItem {
        type_token: "email".to_owned(),
        local_id,
        client_id: format!("e{local_id}"),
        message_id: Some("m-1@h".to_owned()),
        size_bytes: Some(2048),
        blob_local_id: Some(7),
        blob_hash: Some("a".repeat(64)),
        target_blob_id: Some("UP1".to_owned()),
        error_type: "blobNotFound".to_owned(),
        error_detail: r#"{"type":"blobNotFound"}"#.to_owned(),
        blob_probe: probe.to_owned(),
        failed_at: "2026-01-01T00:00:00Z".to_owned(),
    }
}

fn shown(rows: &[FailedItem], total: u64, limit: Option<usize>, offset: usize) -> String {
    let records: Vec<String> = rows
        .iter()
        .map(|r| failure_record(r, r.size_bytes.map(|_| "2.0 KB")))
        .collect();
    let left = (total as usize).saturating_sub(offset + records.len()).to_string();
    let from = if offset > 0 { Some(offset.to_string()) } else { None };
    write_failures(
        total,
        &records,
        limit,
        offset,
        &total.to_string(),
        limit.map(|l| l.to_string()).as_deref(),
        from.as_deref(),
        &left,
    )
}

#[test]
fn failures_empty_table_prints_none_message() {
    let s = shown(&[], 0, None, 0);
    assert!(s.contains("Export failures (0)"), "got:\n{s}");
    assert!(s.contains("(no export failures in archive)"));
}

#[test]
fn record_dump_carries_every_field_the_caller_needs() {
    let s = shown(&[item(23, PROBE_ORPHANED_MARKER)], 1, None, 0);
    assert!(s.contains("Export failures (1)"), "got:\n{s}");
    assert!(s.contains("email #23"), "got:\n{s}");
    assert!(s.contains("client_id       e23"), "got:\n{s}");
    assert!(s.contains("message_id      m-1@h"), "got:\n{s}");
    assert!(s.contains("size            2.0 KB"), "got:\n{s}");
    assert!(s.contains(&format!("blake3={}", "a".repeat(64))), "got:\n{s}");
    assert!(s.contains("target_blob_id  UP1"), "got:\n{s}");
    assert!(s.contains("error_type      blobNotFound"), "got:\n{s}");
    assert!(s.contains("blob_probe      orphaned_marker"), "got:\n{s}");
    assert!(s.contains("failed_at       2026-01-01"), "got:\n{s}");
}

#[test]
fn absent_optional_columns_render_as_null() {
    let mut sparse = item(1, PROBE_NOT_PROBED);
    sparse.message_id = None;
    sparse.size_bytes = None;
    sparse.target_blob_id = None;
    let s = shown(&[sparse], 1, None, 0);
    assert!(s.contains("message_id      (null)"), "got:\n{s}");
    assert!(s.contains("size            (null)"), "got:\n{s}");
    assert!(s.contains("target_blob_id  (null)"), "got:\n{s}");
}

#[test]
fn a_row_without_a_hash_does_not_claim_the_bytes_are_gone() {
    let mut hashless = item(9, PROBE_NOT_PROBED);
    hashless.blob_hash = None;
    let s = shown(&[hashless], 1, None, 0);
    assert!(
        s.contains("blob            local #7 (no content hash recorded)"),
        "got:\n{s}"
    );
    assert!(!s.contains("no longer in archive"), "got:\n{s}");
}

fn json_of(rows: Vec<FailedItem>) -> Value {
    let s = write_failures_json(&rows).unwrap();
    assert!(s.ends_with('\n'), "envelope is one line: {s:?}");
    assert_eq!(s.lines().count(), 1, "envelope is one line: {s:?}");
    serde_json::from_str(&s).unwrap_or_else(|e| panic!("not JSON: {s} ({e})"))
}

#[test]
fn json_mode_emits_the_documented_envelope() {
    let envelope = json_of(vec![item(499, PROBE_ORPHANED_MARKER)]);
    let items = envelope["failed_items"].as_array().expect("failed_items");
    assert_eq!(items.len(), 1);
    let row = &items[0];
    assert_eq!(row["type"], "Email");
    assert_eq!(row["id"], "e499");
    assert_eq!(row["message_id"], "m-1@h");
    assert_eq!(row["size"], 2048);
    assert_eq!(row["content_hash"], Value::from("a".repeat(64)));
    assert_eq!(row["blob_id"], "UP1");
    assert_eq!(row["error"], "blobNotFound");
    assert_eq!(row["detail"], r#"{"type":"blobNotFound"}"#);
    assert_eq!(row["blob_probe"], "orphaned_marker");
    assert_eq!(row["failed_at"], "2026-01-01T00:00:00Z");
}

#[test]
fn json_mode_honours_limit_and_offset() {
    let c = Connection::open_in_memory().unwrap();
    c.execute_batch("CREATE TABLE export_failures (type_name TEXT, local_id INTEGER)").unwrap();
    for i in 1..=5i64 {
        c.execute("INSERT INTO export_failures VALUES ('email', ?1)", [i]).unwrap();
    }
    let sql = format!("SELECT local_id FROM export_failures ORDER BY type_name, local_id{}", page(Some(2), 2));
    let mut stmt = c.prepare(&sql).unwrap();
    let rows: Vec<FailedItem> = stmt
        .query_map([], |r| r.get::<_, i64>(0))
        .unwrap()
        .map(|id| item(id.unwrap(), PROBE_NOT_PROBED))
        .collect();
    let ids: Vec<&str> = vec!["e3", "e4"];
    let envelope = json_of(rows);
    let got: Vec<&str> = envelope["failed_items"]
        .as_array()
        .unwrap()
        .iter()
        .map(|r| r["id"].as_str().unwrap())
        .collect();
    assert_eq!(got, ids);
}

#[test]
fn every_item_type_label_folds_to_a_lowercase_archive_token() {
    for ty in ObjectType::all() {
        if let Ok(label) = item_label(ty.token()) {
            assert_eq!(label.to_ascii_lowercase(), ty.token(), "label {label}");
        }
    }
    assert_eq!(item_label("email"), Ok("Email"));
    assert_eq!(item_label("sievescript"), Ok("SieveScript"));
    assert_eq!(item_label("contactcard"), Ok("ContactCard"));
    assert_eq!(item_label("calendarevent"), Ok("CalendarEvent"));
}

#[test]
fn zero_rows_emit_the_empty_envelope_not_the_human_notice() {
    let s = write_failures_json(&Vec::new()).unwrap();
    assert_eq!(s.trim_end(), r#"{"failed_items":[],"omitted":[]}"#);
    assert!(!s.contains("no export failures"), "got:\n{s}");
    assert!(!s.contains("Export failures"), "got:\n{s}");
    let envelope = json_of(Vec::new());
    assert_eq!(envelope["failed_items"], Value::Array(Vec::new()));
}

#[test]
fn a_container_row_is_withheld_from_items_and_named_in_omitted() {
    let mut mailbox = item(2, PROBE_NOT_PROBED);
    mailbox.type_token = "mailbox".to_owned();
    let mut other_mailbox = item(3, PROBE_NOT_PROBED);
    other_mailbox.type_token = "mailbox".to_owned();
    let envelope = json_of(vec![item(1, PROBE_NOT_PROBED), mailbox, other_mailbox]);
    let items = envelope["failed_items"].as_array().unwrap();
    assert_eq!(items.len(), 1, "only the item-typed row: {items:?}");
    assert_eq!(items[0]["type"], "Email");
    let omitted = envelope["omitted"].as_array().unwrap();
    assert_eq!(omitted.len(), 1, "one entry per type: {omitted:?}");
    assert_eq!(omitted[0]["type"], "mailbox");
    assert_eq!(omitted[0]["count"], 2);
    assert!(
        omitted[0]["reason"].as_str().unwrap().contains("per-item"),
        "got: {omitted:?}"
    );
}

#[test]
fn absent_optional_columns_are_omitted_from_the_object() {
    let mut sparse = item(1, PROBE_NOT_PROBED);
    sparse.message_id = None;
    sparse.size_bytes = None;
    sparse.blob_hash = None;
    sparse.target_blob_id = None;
    let envelope = json_of(vec![sparse]);
    let row = envelope["failed_items"][0].as_object().unwrap();
    for absent in ["message_id", "size", "content_hash", "blob_id"] {
        assert!(!row.contains_key(absent), "{absent} should be absent: {row:?}");
    }
    assert_eq!(row["type"], "Email");
    assert_eq!(row["id"], "e1");
    assert_eq!(row["error"], "blobNotFound");
}

#[test]
fn a_row_without_a_creation_id_fails_the_dump_rather_than_shipping_half_of_it() {
    let mut nameless = item(7, PROBE_NOT_PROBED);
    nameless.client_id = String::new();
    match write_failures_json(&vec![nameless]) {
        Err(Error::Partial(m)) => assert!(m.contains("creation id"), "msg was: {m}"),
        other => panic!("expected a Partial error, got {other:?}"),
    }
    let mut untyped = item(7, PROBE_NOT_PROBED);
    untyped.error_type = String::new();
    match write_failures_json(&vec![untyped]) {
        Err(Error::Partial(m)) => assert!(m.contains("error type"), "msg was: {m}"),
        other => panic!("expected a Partial error, got {other:?}"),
    }
}

#[test]
fn a_row_of_an_unknown_kind_is_named_in_omitted() {
    let mut odd = item(2, PROBE_NOT_PROBED);
    odd.type_token = "gizmo".to_owned();
    let envelope = json_of(vec![odd]);
    assert_eq!(envelope["omitted"][0]["type"], "gizmo");
    assert!(envelope["omitted"][0]["reason"].as_str().unwrap().contains("unknown"));
}

#[test]
fn human_mode_is_untouched_by_the_json_surface() {
    let s = shown(&[item(23, PROBE_ORPHANED_MARKER)], 1, None, 0);
    assert!(!s.contains("failed_items"), "got:\n{s}");
    assert!(s.starts_with("Export failures (1)"), "got:\n{s}");
    assert!(s.contains("email #23"), "got:\n{s}");
    assert!(
        serde_json::from_str::<Value>(&s).is_err(),
        "the operator dump is text, not JSON:\n{s}"
    );
}

#[test]
fn failures_pagination_writes_continuation_hint_when_more_remain() {
    let rows = [item(1, PROBE_NOT_PROBED), item(2, PROBE_NOT_PROBED)];
    let s = shown(&rows, 5, Some(2), 0);
    assert!(
        s.contains("Export failures (5 total, showing up to 2 from offset 0)"),
        "got:\n{s}"
    );
    assert!(s.contains("email #1"));
    assert!(s.contains("email #2"));
    assert!(!s.contains("email #3"));
    assert!(s.contains("... (3 more; --offset 2 --limit 2 to continue)"));
}

#[test]
fn blobs_and_sizes_are_shown_as_far_as_they_are_known() {
    assert_eq!(blob_field(Some(1), Some("ff")), "local #1 blake3=ff");
    assert_eq!(blob_field(None, Some("ff")), "blake3=ff");
    assert_eq!(blob_field(None, None), "(null)");
    assert_eq!(bytes_or_none(-1), 0);
    assert_eq!(bytes_or_none(5), 5);
}

fn identity(id: i64, name: &str, email: &str) -> String {
    write_identities(
        id,
        name.to_owned(),
        email.to_owned(),
        None,
        None,
        "best,A".to_owned(),
        String::new(),
    )
}

#[test]
fn list_empty_table_prints_none_message() {
    let head = write_header("Identity", "0", None, None);
    let s = write_list(ObjectType::Identity, 0, &head, &Vec::new(), None, 0, "0");
    assert!(s.contains("Identity (0)"));
    assert!(s.contains("(no identity in archive)"));
}

#[test]
fn identity_record_uses_aligned_fields_and_redacts_nothing() {
    let head = write_header("Identity", "1", None, None);
    let records = vec![identity(1, "Alice", "a@x.test")];
    let s = write_list(ObjectType::Identity, 1, &head, &records, None, 0, "0");
    assert!(s.contains("identity #1"));
    assert!(s.contains("  name            Alice"), "got:\n{s}");
    assert!(s.contains("  email           a@x.test"));
    assert!(s.contains("  bcc             (null)"));
}

#[test]
fn email_resolves_mailbox_names_and_summarises_blob() {
    let mut mailboxes = HashMap::new();
    mailboxes.insert(1, "Inbox".to_owned());
    mailboxes.insert(2, "Personal".to_owned());
    let names = Names { mailboxes, address_books: HashMap::new(), calendars: HashMap::new() };
    let ids = parse_local_ids("[1,2]");
    let s = write_emails(
        1,
        "36 B blake3=abcdef".to_owned(),
        "2024-01-01T00:00:00Z".to_owned(),
        names.render(ObjectType::Mailbox, &ids),
        "[\"$seen\",\"Important\"]",
        "{}",
    );
    assert!(s.contains("email #1"));
    assert!(s.contains("blob          "));
    assert!(s.contains("blake3="));
    assert!(s.contains("mailboxes     "));
    assert!(s.contains("\"Inbox\""), "got:\n{s}");
    assert!(s.contains("\"Personal\""));
    assert!(s.contains("keywords      "));
    assert!(s.contains("[$seen, Important]"));
    assert_eq!(names.render(ObjectType::Mailbox, &vec![1, 9]), "[\"Inbox\", #9 (missing)]");
    assert_eq!(names.render(ObjectType::Email, &vec![1, 9]), "[1, 9]");
}

#[test]
fn contact_card_redacts_blob_sentinel_in_data() {
    let mut address_books = HashMap::new();
    address_books.insert(1, "Personal".to_owned());
    let names = Names { mailboxes: HashMap::new(), address_books, calendars: HashMap::new() };
    let s = write_contact_cards(
        1,
        "urn:uuid:1".to_owned(),
        names.render(ObjectType::AddressBook, &parse_local_ids("[1]")),
        r#"{"name":{"full":"Alice"},"photos":{"p":{"@blob":17}}}"#,
    );
    assert!(s.contains("contactcard #1"));
    assert!(s.contains("\"Personal\""));
    assert!(s.contains("local #17 (omitted)"));
    assert!(!s.contains("\"@blob\": 17"));
}

#[test]
fn list_pagination_writes_continuation_hint_when_more_remain() {
    let head = write_header("Identity", "5", Some("2"), None);
    let records = vec![identity(1, "u0", "u0@x.test"), identity(2, "u1", "u1@x.test")];
    let s = write_list(ObjectType::Identity, 5, &head, &records, Some(2), 0, "3");
    assert!(s.contains("Identity (5 total, showing up to 2 from offset 0)"));
    assert!(s.contains("identity #1"));
    assert!(s.contains("identity #2"));
    assert!(!s.contains("identity #3"));
    assert!(s.contains("... (3 more; --offset 2 --limit 2 to continue)"));
}

#[test]
fn pagination_at_end_does_not_print_continuation() {
    let head = write_header("Identity", "3", Some("5"), None);
    let records = vec![
        identity(1, "u0", "u0@x.test"),
        identity(2, "u1", "u1@x.test"),
        identity(3, "u2", "u2@x.test"),
    ];
    let s = write_list(ObjectType::Identity, 3, &head, &records, Some(5), 0, "0");
    assert!(!s.contains("more;"), "got:\n{s}");
}

#[test]
fn further_lines_stand_below_the_value() {
    let s = write_record("t", &vec![("ab", "1\n2".to_owned()), ("c", "x".to_owned())]);
    assert_eq!(s, "t\n  ab  1\n      2\n  c   x\n\n");
}

#[test]
fn texts_that_are_not_json_are_shown_as_they_stand() {
    assert_eq!(json_pretty_or_raw("not json"), "not json");
    assert_eq!(json_pretty_or_raw("{\"a\":1}"), "{\n  \"a\": 1\n}");
    assert_eq!(keywords_summary("[]"), "(none)");
    assert_eq!(keywords_summary("[1]"), "(none)");
    assert_eq!(parse_local_ids("[1, \"x\", 2.5, -3]"), vec![1, -3]);
    assert_eq!(parse_local_ids("oops"), Vec::<i64>::new());
    assert_eq!(limit_clause(Some(1), 0), " LIMIT 1 OFFSET 0");
    assert_eq!(write_header("X", "9", None, Some("4")), "X (9, skipping first 4)\n\n");
}

#[test]
fn every_kind_has_its_record() {
    let s = write_sieves(3, None, true, "b".to_owned());
    assert!(s.starts_with("sievescript #3\n"), "got:\n{s}");
    assert!(s.contains("(null)"));
    assert!(s.contains("true"));
    let s = write_address_books(4, "Work".to_owned(), None, 2, false, true);
    assert!(s.starts_with("addressbook #4\n"), "got:\n{s}");
    assert!(s.contains("Work"));
    let s = write_participant_identities(5, "P".to_owned(), "mailto:p@x".to_owned(), true);
    assert!(s.starts_with("participantidentity #5\n"), "got:\n{s}");
    assert!(s.contains("mailto:p@x"));
    let s = write_calendar_events(6, "[]".to_owned(), false, true, r#"{"title":"t"}"#);
    assert!(s.starts_with("calendarevent #6\n"), "got:\n{s}");
    assert!(s.contains("\"title\": \"t\""));
    let s = write_calendars(
        7,
        CalendarColumns {
            name: "C".to_owned(),
            description: None,
            color: Some("#fff".to_owned()),
            sort_order: 1,
            is_subscribed: true,
            is_visible: true,
            is_default: false,
            include_in_availability: "all".to_owned(),
            default_alerts_with_time: None,
            default_alerts_without_time: None,
            time_zone: Some("Europe/Paris".to_owned()),
        },
    );
    assert!(s.starts_with("calendar #7\n"), "got:\n{s}");
    assert!(s.contains("#fff"));
    assert!(s.contains("Europe/Paris"));
}
