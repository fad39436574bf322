use vandelay::error::Error;
use vandelay::jmap::account::{
    extract_account_id, principal_get, principal_query, resolve, resolve_via_principal, AccountSelector,
    PrincipalReply, Resolution, PRINCIPALS_URN,
};
use vandelay::jmap::blobxfer::{lookup_blob, lookup_call, upload_bytes, BlobLookup, URN_BLOB};
use vandelay::jmap::error::JmapError;
use vandelay::json::Json;

fn json(text: &str) -> Json {
    Json::parse(text.as_bytes()).expect("a JSON text")
}

fn session_with(name: &str, id: &str) -> Vec<(String, String)> {
    vec![(id.to_owned(), name.to_owned())]
}

#[test]
fn id_selector_is_verbatim() {
    let s = session_with("alice", "a");
    match resolve(&AccountSelector::Id("zzz".into()), &s, &Vec::new()) {
        Resolution::Account(a) => assert_eq!(a, "zzz"),
        other => panic!("got {other:?}"),
    }
}

#[test]
fn name_selector_exact_case_sensitive_match() {
    let s = session_with("alice@example.org", "w");
    match resolve(&AccountSelector::Name("alice@example.org".into()), &s, &Vec::new()) {
        Resolution::Account(a) => assert_eq!(a, "w"),
        other => panic!("got {other:?}"),
    }
    assert!(matches!(
        resolve(&AccountSelector::Name("Alice@example.org".into()), &s, &vec![PRINCIPALS_URN.to_owned()]),
        Resolution::AskPrincipals
    ));
}

#[test]
fn substring_near_match_is_rejected_exactly() {
    let list = json(
        r#"{"list": [
            { "id": "p1", "name": "alice2", "accounts": {} },
            { "id": "p2", "name": "alice", "accounts": {
                "w": { "urn:ietf:params:jmap:principals:owner":
                       { "accountIdForPrincipal": "w" } } } }
        ]}"#,
    );
    let r = resolve_via_principal("alice", &Vec::new(), PrincipalReply::Answered(list));
    assert_eq!(r.unwrap(), "w");
}

#[test]
fn missing_principals_capability_is_actionable_without_a_request() {
    let s = session_with("alice@example.org", "w");
    let err = match resolve(&AccountSelector::Name("bob@example.org".into()), &s, &Vec::new()) {
        Resolution::Failed(e) => e,
        other => panic!("got {other:?}"),
    };
    assert_eq!(err.exit_code(), Some(3));
    match err {
        Error::Account(msg) => {
            assert!(msg.contains(PRINCIPALS_URN));
            assert!(msg.contains("--account-id"));
            assert!(msg.contains("alice@example.org (w)"));
            assert!(msg.contains("bob@example.org"));
        }
        other => panic!("got {other:?}"),
    }
}

#[test]
fn extract_falls_back_to_principal_id() {
    let p = json(r#"{ "id": "acc-7", "name": "bob", "accounts": {} }"#);
    assert_eq!(extract_account_id(&p, "bob").unwrap(), "acc-7");
}

#[test]
fn extract_uses_per_capability_account_id() {
    let p = json(
        r#"{
            "id": "px",
            "name": "bob",
            "accounts": { "z": { "urn:ietf:params:jmap:mail": { "accountId": "data-9" } } }
        }"#,
    );
    assert_eq!(extract_account_id(&p, "bob").unwrap(), "data-9");
}

#[test]
fn a_name_that_no_principal_has_is_an_error() {
    let none = json(r#"{"list": []}"#);
    assert!(resolve_via_principal("alice", &Vec::new(), PrincipalReply::Answered(none)).is_err());
    let two = json(
        r#"{"list": [{"id": "1", "name": "alice"}, {"id": "2", "name": "alice"}]}"#,
    );
    assert!(resolve_via_principal("alice", &Vec::new(), PrincipalReply::Answered(two)).is_err());
    assert!(resolve_via_principal(
        "alice",
        &Vec::new(),
        PrincipalReply::MethodFailed { shown: "forbidden".to_owned() }
    )
    .is_err());
    assert!(resolve_via_principal(
        "alice",
        &Vec::new(),
        PrincipalReply::SendFailed {
            error: JmapError::Transport("down".to_owned()),
            shown: "down".to_owned(),
        }
    )
    .is_err());
}

#[test]
fn an_upload_must_name_its_blob() {
    assert_eq!(upload_bytes(&json(r#"{"blobId": "B1"}"#)).unwrap(), "B1");
    assert!(matches!(upload_bytes(&json("{}")), Err(JmapError::Malformed(_))));
}

#[test]
fn a_blob_is_missing_only_where_the_server_says_so() {
    assert!(lookup_call(&vec!["urn:ietf:params:jmap:mail".to_owned()], "acc", "B").is_none());
    let call = lookup_call(&vec![URN_BLOB.to_owned()], "acc", "B").unwrap();
    assert!(call.equals(&json(r#"{"accountId": "acc", "ids": ["B"], "properties": ["size"]}"#)));
    let found = json(r#"{"list": [{"id": "B", "size": 12}], "notFound": []}"#);
    assert_eq!(lookup_blob(Ok(found), "B").unwrap(), BlobLookup::Found { size: Some(12) });
    let gone = json(r#"{"list": [], "notFound": ["B"]}"#);
    assert_eq!(lookup_blob(Ok(gone), "B").unwrap(), BlobLookup::NotFound);
    assert_eq!(lookup_blob(Err(JmapError::UnknownMethod), "B").unwrap(), BlobLookup::Unsupported);
    assert!(lookup_blob(Err(JmapError::Transport("x".to_owned())), "B").is_err());
    let silent = json(r#"{"list": [], "notFound": []}"#);
    assert!(lookup_blob(Ok(silent), "B").is_err());
}

#[test]
fn principals_are_asked_for_by_name() {
    let query = Json::Object(principal_query("bob"));
    assert!(query.equals(&json(r#"{"filter": {"name": "bob"}}"#)));
    let get = Json::Object(principal_get());
    assert!(get.equals(&json(
        r##"{"#ids": {"resultOf": "q", "name": "Principal/query", "path": "/ids"},
             "properties": ["id", "name", "accounts"]}"##
    )));
}

#[test]
fn a_server_that_knows_no_principals_after_all_is_named() {
    let s = session_with("alice", "w");
    let refused = |body: &str| PrincipalReply::SendFailed {
        error: JmapError::HttpStatus { status: 400, body: body.to_owned() },
        shown: "http 400".to_owned(),
    };
    match resolve_via_principal("bob", &s, refused("urn:ietf:params:jmap:error:unknownCapability")) {
        Err(Error::Account(m)) => assert!(m.contains("--account-id")),
        other => panic!("got {other:?}"),
    }
    match resolve_via_principal("bob", &s, refused("no")) {
        Err(Error::Account(m)) => assert_eq!(m, "principal resolution request failed: http 400"),
        other => panic!("got {other:?}"),
    }
}
