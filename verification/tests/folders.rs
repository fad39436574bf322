use std::collections::HashMap;
use vandelay::error::Error;
use vandelay::json::Json;
use vandelay::sync::import_exchange_graph::folders::{
    delete_vanished_flat, delete_vanished_mailboxes, depth_of, mailbox_timezone_value, order_by_parent,
    reconcile_address_books, reconcile_calendars, reconcile_mail, settle_mail, vanished, BookSearch,
    DEFAULT_CONTACTS_GRAPH_ID,
};
use vandelay::types::TypeCounts;

fn json(text: &str) -> Json {
    Json::parse(text.as_bytes()).expect("a JSON text")
}

fn id(v: &Json) -> &str {
    v.str_at("id").expect("an id")
}

#[test]
fn order_by_parent_returns_parents_first() {
    let input = vec![
        json(r#"{"id": "C", "parentFolderId": "B"}"#),
        json(r#"{"id": "B", "parentFolderId": "A"}"#),
        json(r#"{"id": "A"}"#),
    ];
    let out = order_by_parent(&input);
    assert_eq!(id(&out[0]), "A");
    assert_eq!(id(&out[1]), "B");
    assert_eq!(id(&out[2]), "C");
}

#[test]
fn order_by_parent_tolerates_missing_parent() {
    let input = vec![
        json(r#"{"id": "Orphan", "parentFolderId": "Missing"}"#),
        json(r#"{"id": "A"}"#),
    ];
    let out = order_by_parent(&input);
    assert_eq!(out.len(), 2);
}

#[test]
fn order_by_parent_ends_on_a_cycle() {
    let input = vec![
        json(r#"{"id": "A", "parentFolderId": "B"}"#),
        json(r#"{"id": "B", "parentFolderId": "A"}"#),
        json(r#"{"id": "R"}"#),
    ];
    let out = order_by_parent(&input);
    assert_eq!(id(&out[0]), "R");
    assert_eq!(id(&out[1]), "B");
    assert_eq!(id(&out[2]), "A");
}

#[test]
fn folders_of_one_depth_stay_as_listed() {
    let input = vec![json(r#"{"id": "Z"}"#), json(r#"{"id": "A"}"#), json("{}")];
    let out = order_by_parent(&input);
    assert_eq!(id(&out[0]), "Z");
    assert_eq!(id(&out[1]), "A");
}

#[test]
fn mailbox_timezone_absent_is_no_default_not_a_failure() {
    for text in [
        "{}",
        r#"{"timeZone": null}"#,
        r#"{"timeZone": 7}"#,
        r#"{"timeZone": ""}"#,
        r#"{"timeZone": "   "}"#,
    ] {
        assert_eq!(
            mailbox_timezone_value(&json(text)).expect("absent timeZone must not fail"),
            None,
            "value {text} should yield no default"
        );
    }
}

#[test]
fn mailbox_timezone_maps_a_present_zone() {
    assert_eq!(
        mailbox_timezone_value(&json(r#"{"timeZone": "FLE Standard Time"}"#))
            .expect("a known zone must map"),
        Some("Europe/Kiev".to_owned())
    );
}

#[test]
fn mailbox_timezone_rejects_unknown_names() {
    match mailbox_timezone_value(&json(r#"{"timeZone": "Made Up Zone"}"#)) {
        Err(Error::Partial(m)) => assert_eq!(
            m,
            "malformed: mailboxSettings returned unsupported timeZone \"Made Up Zone\""
        ),
        other => panic!("got {other:?}"),
    }
}

#[test]
fn mail_folders_are_stored_under_their_parents() {
    let local = vec![("I".to_owned(), 7)];
    let answers = vec![Some(json(r#"{"id": "I"}"#)), None];
    let mut stored = Vec::new();
    let mut counts = TypeCounts::default();
    let row = reconcile_mail(&json(r#"{"id": "I", "displayName": "Inbox"}"#), &answers, &stored, &local).unwrap();
    assert_eq!(row.role, Some("inbox"));
    assert_eq!(row.existing, Some(7));
    settle_mail(row, 7, &mut stored, &mut counts);
    let child = json(r#"{"id": "K", "parentFolderId": "I", "isHidden": true}"#);
    let row = reconcile_mail(&child, &answers, &stored, &local).unwrap();
    assert_eq!(row.display_name, "Unnamed");
    assert_eq!(row.parent_local_id, Some(7));
    assert!(row.is_hidden);
    assert_eq!(row.existing, None);
    settle_mail(row, 8, &mut stored, &mut counts);
    assert_eq!((counts.fetched, counts.created), (1, 1));
    assert_eq!(stored[1].local_id, 8);
    assert!(reconcile_mail(&json("{}"), &answers, &stored, &local).is_none());
}

#[test]
fn an_empty_color_is_no_color() {
    let row = reconcile_calendars(
        &json(r##"{"id": "C", "name": "N", "hexColor": "", "color": "lightBlue", "isDefaultCalendar": true}"##),
        &Vec::new(),
    )
    .unwrap();
    assert_eq!(row.color.as_deref(), Some("#A6CEE3"));
    assert!(row.is_default);
    let row = reconcile_calendars(&json(r##"{"id": "C", "hexColor": "#123456"}"##), &Vec::new()).unwrap();
    assert_eq!(row.color.as_deref(), Some("#123456"));
    assert_eq!(row.name, "Calendar");
}

#[test]
fn every_address_book_is_listed_once_and_the_default_comes_last() {
    let mut s = BookSearch::begin();
    s.listed(vec![json(r#"{"id": "A"}"#), json(r#"{"id": "A"}"#), json("{}")]);
    assert_eq!(s.next().as_deref(), Some("A"));
    s.listed(vec![json(r#"{"id": "B"}"#), json(r#"{"id": "A"}"#)]);
    assert_eq!(s.next().as_deref(), Some("B"));
    s.listed(Vec::new());
    assert_eq!(s.next(), None);
    let all = s.finish();
    assert_eq!(all.len(), 6);
    let row = reconcile_address_books(&all[5], &vec![(DEFAULT_CONTACTS_GRAPH_ID.to_owned(), 3)]).unwrap();
    assert!(row.is_default);
    assert_eq!(row.name, "Contacts");
    assert_eq!(row.existing, Some(3));
}

#[test]
fn vanished_folders_go_from_the_deepest_up() {
    let local = vec![("a".to_owned(), 1), ("b".to_owned(), 2), ("c".to_owned(), 3)];
    let gone = vanished(&local, &vec!["b".to_owned()]);
    assert_eq!(gone, vec![("a".to_owned(), 1), ("c".to_owned(), 3)]);
    let mut parents = HashMap::new();
    parents.insert(1, None);
    parents.insert(2, Some(1));
    parents.insert(3, Some(2));
    assert_eq!(depth_of(3, &parents), 2);
    assert_eq!(delete_vanished_mailboxes(&gone, &parents), vec![1, 0]);
    parents.insert(1, Some(3));
    assert_eq!(depth_of(3, &parents), 3);
    let mut counts = TypeCounts::default();
    delete_vanished_flat(true, &mut counts);
    delete_vanished_flat(false, &mut counts);
    assert_eq!((counts.deleted, counts.failed), (1, 1));
}
