use vandelay::exchange_graph::api::{
    collect_all_ids, collect_all_values, collect_message_metas, paged_collect, url_escape, Endpoints,
    MessageMeta, DEFAULT_API_BASE,
};
use vandelay::exchange_graph::types::MailboxKind;
use vandelay::json::Json;

fn json(text: &str) -> Json {
    Json::parse(text.as_bytes()).expect("a JSON text")
}

#[test]
fn primary_mail_folders_root_uses_me_with_hidden() {
    let e = Endpoints::for_me(DEFAULT_API_BASE);
    let url = e.mail_folders_root(MailboxKind::Primary, 100);
    assert!(url.starts_with("https://graph.microsoft.com/v1.0/me/mailFolders?"));
    assert!(url.contains("includeHiddenFolders=true"));
    assert!(url.contains("$top=100"));
}

#[test]
fn archive_mail_folders_root_uses_archive_child_folders() {
    let e = Endpoints::for_me(DEFAULT_API_BASE);
    let url = e.mail_folders_root(MailboxKind::Archive, 50);
    assert!(url.starts_with(
        "https://graph.microsoft.com/v1.0/me/mailFolders/archive/childFolders?"
    ));
    assert!(url.contains("$top=50"));
}

#[test]
fn for_user_replaces_me_segment() {
    let e = Endpoints::for_user(DEFAULT_API_BASE, "uid");
    let url = e.mail_folders_root(MailboxKind::Primary, 100);
    assert!(url.contains("/users/uid/mailFolders"));
    assert!(!url.contains("/me/"));
}

#[test]
fn top_threads_through_calendar_and_contact_endpoints() {
    let e = Endpoints::for_me(DEFAULT_API_BASE);
    assert!(e.calendars(75).contains("$top=75"));
    assert!(e.contact_folders(75).contains("$top=75"));
    assert!(e.contact_folder_children("F", 75).contains("$top=75"));
    assert!(e.mail_folder_child_folders("F", 75).contains("$top=75"));
}

#[test]
fn url_escape_encodes_unsafe_bytes_only() {
    assert_eq!(url_escape("AAkAAA="), "AAkAAA%3D");
    assert_eq!(url_escape("plain.id_123-x"), "plain.id_123-x");
}

#[test]
fn message_mime_endpoint_uses_value() {
    let e = Endpoints::for_me(DEFAULT_API_BASE);
    let url = e.message_mime("AAkA==");
    assert!(url.ends_with("/messages/AAkA%3D%3D/$value"));
}

#[test]
fn well_known_folder_uses_short_name() {
    let e = Endpoints::for_me(DEFAULT_API_BASE);
    let url = e.well_known_folder("inbox");
    assert!(url.ends_with("/mailFolders/inbox?$select=id"));
}

#[test]
fn event_ids_endpoint_requests_routing_fields() {
    let e = Endpoints::for_me(DEFAULT_API_BASE);
    let url = e.calendar_events_ids("CAL", 100);
    assert!(url.contains("$select=id,type,seriesMasterId"));
    assert!(url.contains("$top=100"));
}

#[test]
fn full_event_endpoint_explicitly_requests_cancelled_occurrences() {
    let e = Endpoints::for_me(DEFAULT_API_BASE);
    let url = e.event("MASTER");
    assert!(url.contains("$select="));
    assert!(url.contains("cancelledOccurrences"));
    assert!(url.contains("subject"));
    assert!(url.contains("start"));
    assert!(url.contains("recurrence"));
}

#[test]
fn folder_messages_meta_selects_read_and_flag() {
    let e = Endpoints::for_me(DEFAULT_API_BASE);
    let url = e.folder_messages_meta("F", 100);
    assert!(url.contains("/mailFolders/F/messages?"));
    assert!(url.contains("$select=id,isRead,flag"));
    assert!(url.contains("$top=100"));
}

#[test]
fn default_contacts_ids_targets_default_folder() {
    let e = Endpoints::for_me(DEFAULT_API_BASE);
    let url = e.default_contacts_ids(50);
    assert!(url.ends_with("/me/contacts?$top=50&$select=id"));
}

#[test]
fn collect_message_metas_reads_read_and_flag_state() {
    let page = json(
        r#"{"value": [
            {"id": "A", "isRead": true,  "flag": {"flagStatus": "flagged"}},
            {"id": "B", "isRead": false, "flag": {"flagStatus": "notFlagged"}},
            {"id": "C"}
        ]}"#,
    );
    let metas = collect_message_metas(&vec![page]);
    assert!(metas[0].1.is_read);
    assert!(metas[0].1.flagged);
    assert!(!metas[1].1.is_read);
    assert!(!metas[1].1.flagged);
    assert!(!metas[2].1.is_read);
    assert!(!metas[2].1.flagged);
}

#[test]
fn the_remaining_endpoints_are_exact() {
    let e = Endpoints::for_me("https://h/v1.0//");
    assert_eq!(e.me_or_user(), "https://h/v1.0/me");
    assert_eq!(e.contact("a b"), "https://h/v1.0/me/contacts/a%20b");
    assert_eq!(
        e.contact_folder_contacts_ids("F", 5),
        "https://h/v1.0/me/contactFolders/F/contacts?$top=5&$select=id"
    );
    assert_eq!(
        e.mailbox_settings_timezone(),
        "https://h/v1.0/me/mailboxSettings?$select=timeZone"
    );
    assert_eq!(
        e.me_select_id_upn(),
        "https://h/v1.0/me?$select=id,userPrincipalName,displayName,mail"
    );
}

#[test]
fn pages_are_collected_in_order() {
    let first = json(r#"{"value": [{"id": "A"}, {"name": "no id"}], "@odata.nextLink": "https://next"}"#);
    let second = json(r#"{"value": [{"id": "B"}]}"#);
    assert_eq!(paged_collect(&first).as_deref(), Some("https://next"));
    assert_eq!(paged_collect(&second), None);
    let pages = vec![first, second, json(r#"{"error": 1}"#)];
    assert_eq!(collect_all_ids(&pages), vec!["A".to_owned(), "B".to_owned()]);
    assert_eq!(collect_all_values(&pages).len(), 3);
    assert_eq!(collect_message_metas(&pages).len(), 2);
    assert_eq!(MessageMeta::default(), MessageMeta { is_read: false, flagged: false });
}
