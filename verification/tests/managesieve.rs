use vandelay::error::Error;
use vandelay::sync::import_managesieve::coordinator::{
    authenticate, build_dry_run_summary, check_source, connect_mode, do_authenticate, fetched_place,
    getscript_with_retry, listing_reconnect_failed, listing_unreadable, listscripts_with_retry, needs_write,
    parse_endpoint, reconnect, run, script_not_fetched, session_url, Action, Attempt, AuthStep, ConnectMode,
    Disposition, ManageSieveAuth, Mechanism, Offers, PresentOutcome, ReconnectFailure, Retries, RetryStep,
    Written,
};
use vandelay::types::TypeCounts;

#[test]
fn parse_endpoint_sieves_defaults_to_4190() {
    let e = parse_endpoint("sieves://mail.example.com").unwrap();
    assert_eq!(e.host, "mail.example.com");
    assert_eq!(e.port, 4190);
    assert!(e.implicit_tls);
    assert_eq!(session_url(&e), "sieves://mail.example.com:4190");
    assert_eq!(connect_mode(&e), ConnectMode::ImplicitTls);
}

#[test]
fn parse_endpoint_sieve_defaults_to_4190() {
    let e = parse_endpoint("sieve://mail.example.com").unwrap();
    assert_eq!(e.host, "mail.example.com");
    assert_eq!(e.port, 4190);
    assert!(!e.implicit_tls);
}

#[test]
fn parse_endpoint_explicit_port() {
    let e = parse_endpoint("sieve://mail.example.com:14190").unwrap();
    assert_eq!(e.port, 14190);
    assert!(!e.implicit_tls);
}

#[test]
fn parse_endpoint_rejects_other_schemes() {
    let err = parse_endpoint("imap://example.com").unwrap_err();
    assert!(matches!(err, Error::Usage(_)));
}

#[test]
fn parse_endpoint_rejects_missing_host() {
    let err = parse_endpoint("sieve:///path").unwrap_err();
    assert!(matches!(err, Error::Usage(_)));
}

#[test]
fn parse_endpoint_says_what_is_wrong_with_a_url() {
    match parse_endpoint("no url") {
        Err(Error::Usage(m)) => assert!(m.starts_with("invalid --url \"no url\": ")),
        other => panic!("got {other:?}"),
    }
}

fn basic() -> ManageSieveAuth {
    ManageSieveAuth::Basic { user: "u".to_owned(), password: "p".to_owned() }
}

fn offers(plain: bool, login: bool, oauthbearer: bool) -> Offers {
    Offers { plain, login, oauthbearer, advertised: "[\"X\"]".to_owned() }
}

#[test]
fn a_password_is_tried_by_plain_then_by_login() {
    let o = offers(true, true, false);
    assert!(matches!(do_authenticate(&basic(), &o, None, None), AuthStep::Try(Mechanism::Plain)));
    let no = Attempt::Declined("no".to_owned());
    assert!(matches!(do_authenticate(&basic(), &o, Some(&no), None), AuthStep::Try(Mechanism::Login)));
    match do_authenticate(&basic(), &o, Some(&no), Some(&Attempt::Declined("never".to_owned()))) {
        AuthStep::TerminallyRefused(t) => assert_eq!(t, "LOGIN: never; PLAIN: no"),
        other => panic!("got {other:?}"),
    }
    match do_authenticate(&basic(), &offers(true, false, false), Some(&no), None) {
        AuthStep::TerminallyRefused(t) => assert_eq!(t, "PLAIN: no"),
        other => panic!("got {other:?}"),
    }
    match do_authenticate(&basic(), &offers(false, false, true), None, None) {
        AuthStep::NoUsableMechanism(t) => {
            assert_eq!(t, "server SASL list lacks PLAIN and LOGIN (advertised: [\"X\"])")
        }
        other => panic!("got {other:?}"),
    }
    assert!(matches!(
        do_authenticate(&basic(), &o, Some(&Attempt::Failed("cut".to_owned())), None),
        AuthStep::Wire(_)
    ));
    assert!(matches!(
        do_authenticate(&basic(), &o, Some(&Attempt::Accepted), None),
        AuthStep::SignedIn
    ));
}

#[test]
fn a_token_needs_its_mechanism() {
    let auth = ManageSieveAuth::Bearer { user: "u".to_owned(), token: "t".to_owned() };
    match do_authenticate(&auth, &offers(true, true, false), None, None) {
        AuthStep::NoUsableMechanism(t) => {
            assert_eq!(t, "server does not advertise OAUTHBEARER (advertised: [\"X\"])")
        }
        other => panic!("got {other:?}"),
    }
    assert!(matches!(
        do_authenticate(&auth, &offers(false, false, true), None, None),
        AuthStep::Try(Mechanism::OAuthBearer)
    ));
    let no = Attempt::Declined("no".to_owned());
    match do_authenticate(&auth, &offers(false, false, true), Some(&no), None) {
        AuthStep::TerminallyRefused(t) => assert_eq!(t, "OAUTHBEARER: no"),
        other => panic!("got {other:?}"),
    }
}

#[test]
fn signing_in_ends_with_the_account_or_an_error() {
    assert_eq!(authenticate(&basic(), AuthStep::SignedIn).unwrap(), "u");
    match authenticate(&basic(), AuthStep::TerminallyRefused("x".to_owned())) {
        Err(Error::Connection(m)) => assert_eq!(m, "auth failed: x"),
        other => panic!("got {other:?}"),
    }
    assert!(reconnect(AuthStep::SignedIn).is_ok());
    match reconnect(AuthStep::TerminallyRefused("x".to_owned())) {
        Err(ReconnectFailure::Protocol(m)) => assert_eq!(m, "auth refused on reconnect: x"),
        other => panic!("got {other:?}"),
    }
    assert!(matches!(
        reconnect(AuthStep::NoUsableMechanism("x".to_owned())),
        Err(ReconnectFailure::Unsupported(_))
    ));
}

#[test]
fn another_source_is_refused_unless_allowed() {
    match check_source(Some(("sieve://h:1", "bob")), false) {
        Err(Error::SourceChange(m)) => assert_eq!(
            m,
            "archive already records managesieve source sieve://h:1 / bob; re-run with --allow-source-change or use a fresh archive"
        ),
        other => panic!("got {other:?}"),
    }
    assert!(check_source(Some(("sieve://h:1", "bob")), true).is_ok());
    assert!(check_source(None, false).is_ok());
}

#[test]
fn commands_are_repeated_within_bounds() {
    let mut n = Retries::begin();
    for i in 1..=2 {
        match getscript_with_retry(n, 2, Disposition::Transient) {
            RetryStep::Wait(m) => {
                assert_eq!(m.transient, i);
                n = m;
            }
            other => panic!("got {other:?}"),
        }
    }
    assert_eq!(getscript_with_retry(n, 2, Disposition::Transient), RetryStep::GiveUp);
    assert!(matches!(getscript_with_retry(n, 2, Disposition::TransportDrop), RetryStep::Reconnect(_)));
    assert_eq!(getscript_with_retry(n, 2, Disposition::Permanent), RetryStep::GiveUp);
    let text = |r: Result<RetryStep, Error>| match r {
        Err(Error::Connection(m)) => m,
        other => panic!("got {other:?}"),
    };
    assert_eq!(
        text(listscripts_with_retry(n, 2, Disposition::Transient, "e")),
        "LISTSCRIPTS retries exhausted: e"
    );
    assert_eq!(
        text(listscripts_with_retry(n, 0, Disposition::TransportDrop, "e")),
        "LISTSCRIPTS transport drop, retries exhausted: e"
    );
    assert_eq!(
        text(listscripts_with_retry(n, 2, Disposition::Referral, "e")),
        "LISTSCRIPTS referral: e; vandelay does not follow referrals"
    );
    assert_eq!(
        text(listscripts_with_retry(n, 2, Disposition::Permanent, "e")),
        "LISTSCRIPTS failed: e"
    );
    assert!(matches!(listing_reconnect_failed("e"), Error::Connection(ref m) if m == "LISTSCRIPTS reconnect failed: e"));
    assert!(matches!(listing_unreadable("e"), Error::Connection(ref m) if m == "LISTSCRIPTS parse: e"));
}

#[test]
fn a_script_that_cannot_be_fetched_is_counted_or_ends_the_run() {
    let mut counts = TypeCounts::default();
    assert!(script_not_fetched("a", Disposition::Permanent, "e", &mut counts).is_ok());
    assert_eq!(counts.failed, 1);
    match script_not_fetched("a\"b", Disposition::Referral, "e", &mut counts) {
        Err(Error::Connection(m)) => assert_eq!(
            m,
            "ManageSieve referral on GETSCRIPT \"a\\\"b\": e; vandelay does not follow referrals"
        ),
        other => panic!("got {other:?}"),
    }
    match script_not_fetched("a", Disposition::TransportDrop, "e", &mut counts) {
        Err(Error::Connection(m)) => assert_eq!(m, "GETSCRIPT \"a\" transport drop exhausted retries: e"),
        other => panic!("got {other:?}"),
    }
    assert!(script_not_fetched("a", Disposition::FeatureNegotiation, "e", &mut counts).is_err());
    assert_eq!(counts.failed, 1);
}

fn plan() -> Vec<Action> {
    let present = |outcome: PresentOutcome, local_id: i64, active: bool| Action::Present {
        name: "p".to_owned(),
        local_id,
        outcome,
        active,
    };
    vec![
        Action::New { name: "n".to_owned(), active: true },
        present(PresentOutcome::Unchanged, 2, false),
        present(PresentOutcome::ActiveOnly, 3, true),
        present(PresentOutcome::ContentUpdated, 4, false),
        Action::Vanished { name: "v".to_owned(), local_id: 5 },
    ]
}

#[test]
fn a_dry_run_counts_what_a_run_would_do() {
    let actions = plan();
    let dry = build_dry_run_summary(&actions, TypeCounts::default(), 4, 2);
    let written = vec![Written::Done(1); 5];
    let end = run(&actions, &written, TypeCounts::default(), 4, 2);
    assert_eq!(dry.counts, end.summary.counts);
    assert_eq!(dry.retries_observed, 4);
    assert_eq!(dry.type_token, "sievescript");
    assert_eq!(end.summary.type_token, "sievescript");
    assert_eq!(end.summary.retry_after_sleeps, 2);
    assert_eq!(end.active, Some(3));
    assert!(end.drop_orphans);
    let c = end.summary.counts;
    assert_eq!((c.created, c.fetched, c.skipped, c.deleted, c.failed), (1, 2, 2, 1, 0));
}

#[test]
fn a_failed_write_is_counted_and_keeps_the_orphans() {
    let actions = vec![Action::New { name: "n".to_owned(), active: true }];
    let end = run(&actions, &vec![Written::Failed], TypeCounts::default(), 0, 0);
    assert_eq!(end.summary.counts.failed, 1);
    assert_eq!(end.active, None);
    assert!(!end.drop_orphans);
    assert!(needs_write(&actions[0]));
    assert!(!needs_write(&plan()[1]));
}

#[test]
fn the_last_script_of_a_name_counts() {
    let names = vec!["a".to_owned(), "b".to_owned(), "a".to_owned()];
    assert_eq!(fetched_place(&names, "a"), Some(2));
    assert_eq!(fetched_place(&names, "c"), None);
}
