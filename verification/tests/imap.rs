use vandelay::imap::client::{
    parse_caps, status_word, ConnectMode, ImapClient, RunStep, SignInStep,
};
use vandelay::imap::error::ImapError;
use vandelay::imap::response::{Response, Status, StatusLine, Untagged};

fn line(status: Status, text: &str, code: Option<&str>) -> StatusLine {
    StatusLine { status, text: text.to_owned(), code: code.map(str::to_owned), code_args: None }
}

fn tagged(tag: &str, status: Status, text: &str, code: Option<&str>) -> Response {
    Response::Tagged { tag: tag.to_owned(), line: line(status, text, code) }
}

fn client() -> ImapClient {
    ImapClient::new("test.example")
}

fn with(names: &[&str]) -> ImapClient {
    let mut c = client();
    c.set_capabilities(&names.iter().map(|n| (*n).to_owned()).collect());
    c
}

#[test]
fn run_collect_drains_untagged_and_returns_ok() {
    let mut c = client();
    let (tag, sent) = c.begin("CAPABILITY", false).unwrap();
    assert_eq!(tag, "A0001");
    assert_eq!(sent, "A0001 CAPABILITY\r\n");
    let mut untagged = Vec::new();
    let caps = vec!["IMAP4rev1".to_owned(), "STARTTLS".to_owned()];
    let step = c.run_collect(&tag, &mut untagged, Response::Untagged(Untagged::Capability(caps)));
    assert!(matches!(step, RunStep::More));
    match c.run_collect(&tag, &mut untagged, tagged("A0001", Status::Done, "done", None)) {
        RunStep::Done(l) => assert_eq!(l.status, Status::Done),
        other => panic!("got {other:?}"),
    }
    assert_eq!(untagged.len(), 1);
    assert!(c.has_capability("STARTTLS"));
}

#[test]
fn run_collect_propagates_no_as_imaperror_no() {
    let mut c = client();
    let (tag, _) = c.begin("SELECT bogus", false).unwrap();
    let mut untagged = Vec::new();
    match c.run_collect(&tag, &mut untagged, tagged("A0001", Status::No, "mailbox not found", None)) {
        RunStep::Failed(ImapError::No(no)) => assert_eq!(no.text, "mailbox not found"),
        other => panic!("expected No, got {other:?}"),
    }
}

#[test]
fn run_collect_propagates_bad_as_imaperror_bad() {
    let mut c = client();
    let (tag, _) = c.begin("BOGUS", false).unwrap();
    let mut untagged = Vec::new();
    let step = c.run_collect(&tag, &mut untagged, tagged("A0001", Status::Bad, "syntax error", None));
    assert!(matches!(step, RunStep::Failed(ImapError::Bad(_))));
}

#[test]
fn run_collect_translates_authenticationfailed_via_login_path() {
    let mut c = client();
    c.login().unwrap();
    let (tag, _) = c.begin("LOGIN alice wrong", false).unwrap();
    let mut untagged = Vec::new();
    let refused = tagged("A0001", Status::No, "bad creds", Some("AUTHENTICATIONFAILED"));
    match c.run_collect(&tag, &mut untagged, refused) {
        RunStep::Failed(e) => assert!(matches!(ImapClient::sign_in_failed(e), ImapError::AuthFailed(_))),
        other => panic!("got {other:?}"),
    }
}

#[test]
fn login_refused_when_logindisabled() {
    let c = with(&["LOGINDISABLED"]);
    assert!(matches!(c.login(), Err(ImapError::Unsupported(_))));
}

#[test]
fn bye_mid_response_closes_client() {
    let mut c = client();
    let (tag, _) = c.noop();
    let mut untagged = Vec::new();
    let step = c.run_collect(&tag, &mut untagged, Response::Untagged(Untagged::Bye("going away".to_owned())));
    assert!(matches!(step, RunStep::Failed(ImapError::Bye(_))));
    assert!(c.closed);
    assert!(!c.logout(), "a closed session is not closed again");
}

#[test]
fn authenticate_plain_sasl_ir_path() {
    let mut c = with(&["SASL-IR"]);
    let s = c.authenticate_plain("alice", "p@ss");
    assert_eq!(s.command, "AUTHENTICATE PLAIN AGFsaWNlAHBAc3M=");
    let mut s = s;
    let (tag, _) = c.begin(&s.command, false).unwrap();
    let step = c.drive_bearer_sasl(&mut s, &tag, tagged("A0001", Status::Done, "auth done", None));
    assert!(matches!(step, SignInStep::Done));
}

#[test]
fn authenticate_plain_continuation_path() {
    let mut c = client();
    let mut s = c.authenticate_plain("alice", "p@ss");
    assert_eq!(s.command, "AUTHENTICATE PLAIN");
    let (tag, _) = c.begin(&s.command, false).unwrap();
    match c.drive_bearer_sasl(&mut s, &tag, Response::Continuation(String::new())) {
        SignInStep::Send(l) => assert_eq!(l, "AGFsaWNlAHBAc3M=\r\n"),
        other => panic!("got {other:?}"),
    }
    let step = c.drive_bearer_sasl(&mut s, &tag, tagged("A0001", Status::Done, "auth done", None));
    assert!(matches!(step, SignInStep::Done));
}

#[test]
fn has_capability_is_case_insensitive() {
    let c = with(&["STARTTLS"]);
    assert!(c.has_capability("starttls"));
    assert!(c.has_capability("STARTTLS"));
    assert!(!c.has_capability("MOVE"));
}

#[test]
fn a_bearer_token_is_sent_once() {
    let mut c = client();
    let mut s = c.authenticate_xoauth2("a@x", "tok");
    let (tag, _) = c.begin(&s.command, false).unwrap();
    let first = match c.drive_bearer_sasl(&mut s, &tag, Response::Continuation(String::new())) {
        SignInStep::Send(l) => l,
        other => panic!("got {other:?}"),
    };
    assert_eq!(first, "dXNlcj1hQHgBYXV0aD1CZWFyZXIgdG9rAQE=\r\n");
    match c.drive_bearer_sasl(&mut s, &tag, Response::Continuation("e30=".to_owned())) {
        SignInStep::Send(l) => assert_eq!(l, "\r\n"),
        other => panic!("got {other:?}"),
    }
    let refused = tagged("A0001", Status::No, "no", Some("authenticationfailed"));
    assert!(matches!(
        c.drive_bearer_sasl(&mut s, &tag, refused),
        SignInStep::Failed(ImapError::AuthFailed(_))
    ));
    let s = c.authenticate_oauthbearer("a@x", "tok");
    assert_eq!(s.encoded, "bixhPWFAeCwBYXV0aD1CZWFyZXIgdG9rAQE=");
}

#[test]
fn responses_out_of_place_are_protocol_errors() {
    let mut c = client();
    let (tag, _) = c.begin("NOOP", false).unwrap();
    match c.run_streamed(&tag, tagged("A0009", Status::Done, "", None)) {
        RunStep::Failed(ImapError::Protocol(m)) => assert_eq!(m, "expected tag A0001, got A0009"),
        other => panic!("got {other:?}"),
    }
    assert!(matches!(
        c.run_streamed(&tag, Response::Continuation(String::new())),
        RunStep::Failed(ImapError::Protocol(_))
    ));
    assert!(matches!(
        c.run_streamed(&tag, tagged("A0001", Status::PreAuth, "", None)),
        RunStep::Failed(ImapError::Protocol(_))
    ));
    assert!(matches!(
        c.run_streamed(&tag, Response::Untagged(Untagged::Other("1 EXISTS".to_owned()))),
        RunStep::HandOn(Untagged::Other(_))
    ));
}

#[test]
fn literals_need_a_server_that_takes_them() {
    assert!(matches!(client().begin("X {3+}", true), Err(ImapError::Unsupported(_))));
    assert!(with(&["LITERAL-"]).begin("X {3+}", true).is_ok());
}

#[test]
fn the_greeting_may_say_what_the_server_can_do() {
    let mut c = client();
    let mut l = line(Status::Done, "ready", Some("CAPABILITY"));
    l.code_args = Some("IMAP4rev1 \tENABLE  SASL-IR".to_owned());
    let g = c.read_greeting(Response::Untagged(Untagged::StatusLine(l)), "").unwrap();
    assert_eq!(g.text, "ready");
    assert!(c.has_capability("enable"));
    assert!(c.can_enable().is_ok());
    assert!(c.send_capability(&Vec::new()).is_ok());
    assert!(c.has_capability("SASL-IR"));
    match client().send_capability(&Vec::new()) {
        Err(ImapError::Protocol(m)) => assert_eq!(m, "server returned no CAPABILITY response"),
        other => panic!("got {other:?}"),
    }
    match client().read_greeting(Response::Continuation(String::new()), "Continuation(\"\")") {
        Err(ImapError::Protocol(m)) => assert_eq!(m, "expected greeting, got Continuation(\"\")"),
        other => panic!("got {other:?}"),
    }
    assert_eq!(parse_caps(" a b\r\nc "), vec!["a".to_owned(), "b".to_owned(), "c".to_owned()]);
}

#[test]
fn a_session_in_the_clear_is_secured_or_refused() {
    assert!(matches!(client().connect(ConnectMode::StartTls), Err(ImapError::Unsupported(_))));
    assert!(with(&["STARTTLS"]).connect(ConnectMode::StartTls).unwrap());
    assert!(!client().connect(ConnectMode::ImplicitTls).unwrap());
    assert!(ImapClient::starttls(true).is_err());
    assert!(client().compress_deflate().is_err());
    assert!(with(&["compress=deflate"]).compress_deflate().is_ok());
}

#[test]
fn enabling_utf8_is_remembered() {
    let mut c = client();
    assert!(c.can_enable().is_err());
    let enabled = c.enable(&vec![Untagged::Enabled(vec!["CONDSTORE".to_owned(), "utf8=accept".to_owned()])]);
    assert_eq!(enabled.len(), 2);
    assert!(c.utf8_accept());
    assert_eq!(status_word(Status::Done), "OK");
    assert_eq!(c.refresh_capabilities().1, "A0001 CAPABILITY\r\n");
}

#[test]
fn the_last_list_of_capabilities_counts() {
    let mut c = with(&["OLD"]);
    let list = |names: &[&str]| Untagged::Capability(names.iter().map(|n| (*n).to_owned()).collect());
    c.send_capability(&vec![list(&["FIRST"]), Untagged::Other("x".to_owned()), list(&["LAST", "IDLE"])])
        .unwrap();
    assert!(c.has_capability("LAST") && c.has_capability("IDLE"));
    assert!(!c.has_capability("FIRST") && !c.has_capability("OLD"));
    assert!(c.send_capability(&vec![list(&[])]).is_err());
    assert_eq!(c.host, "test.example");
}

#[test]
fn credentials_that_went_with_the_command_are_not_asked_for() {
    for bearer in [false, true] {
        let mut c = with(&["sasl-ir"]);
        let mut s = if bearer {
            c.authenticate_xoauth2("a@x", "tok")
        } else {
            c.authenticate_plain("alice", "p@ss")
        };
        assert!(s.with_command);
        let (tag, _) = c.begin(&s.command, false).unwrap();
        match c.drive_bearer_sasl(&mut s, &tag, Response::Continuation(String::new())) {
            SignInStep::Failed(ImapError::Protocol(m)) => {
                assert_eq!(m, "unexpected continuation outside AUTHENTICATE");
            }
            other => panic!("got {other:?}"),
        }
        let refused = tagged("A0001", Status::No, "no", Some("AUTHENTICATIONFAILED"));
        assert!(matches!(
            c.drive_bearer_sasl(&mut s, &tag, refused),
            SignInStep::Failed(ImapError::AuthFailed(_))
        ));
        let bye = Response::Untagged(Untagged::Bye("gone".to_owned()));
        assert!(matches!(c.drive_bearer_sasl(&mut s, &tag, bye), SignInStep::Failed(ImapError::Bye(_))));
        assert!(c.closed);
    }
}

#[test]
fn gathering_and_handing_on_agree() {
    let responses = || {
        vec![
            Response::Untagged(Untagged::Other("1 EXISTS".to_owned())),
            Response::Untagged(Untagged::Capability(vec!["IDLE".to_owned()])),
            tagged("A0001", Status::Done, "done", None),
        ]
    };
    let (mut a, mut b) = (client(), client());
    let (tag, _) = a.begin("NOOP", false).unwrap();
    let _ = b.begin("NOOP", false).unwrap();
    let (mut handed_on, mut gathered) = (Vec::new(), Vec::new());
    let mut ends = Vec::new();
    for r in responses() {
        match a.run_streamed(&tag, r) {
            RunStep::HandOn(u) => handed_on.push(u),
            RunStep::Done(l) => ends.push(l.text),
            other => panic!("got {other:?}"),
        }
    }
    for r in responses() {
        match b.run_collect(&tag, &mut gathered, r) {
            RunStep::More => {}
            RunStep::Done(l) => ends.push(l.text),
            other => panic!("got {other:?}"),
        }
    }
    assert_eq!(format!("{handed_on:?}"), format!("{gathered:?}"));
    assert_eq!(ends, vec!["done".to_owned(), "done".to_owned()]);
    assert_eq!(a.capabilities, b.capabilities);
    assert_eq!((a.host.as_str(), a.closed), (b.host.as_str(), b.closed));
}

#[test]
fn a_capability_is_held_once() {
    let mut c = ImapClient::new("h");
    let twice: Vec<String> = ["IMAP4rev1", "IDLE", "IMAP4rev1", "idle"].iter().map(|n| (*n).to_owned()).collect();
    c.set_capabilities(&twice);
    assert_eq!(c.capabilities, vec!["IMAP4rev1".to_owned(), "IDLE".to_owned(), "idle".to_owned()]);
}
