use vandelay::dav::client::{
    body_limit, execute, execute_joined, get_stream, get_stream_joined, handle_transport, host_and_port, is_redirect_status, map_send_failure, resolve_redirect, same_host, same_places,
    stream_multistatus, stream_multistatus_joined, truncate, Answer, DavClient, DavHttpResponse, DavOutcome, DavStream, MultiAnswer,
    MultiStatus, Next, Progress, SendFailure,
};
use vandelay::address::UrlParts;
use vandelay::jmap::error::JmapError;

fn answer(status: u16, body: &[u8], location: Option<&str>, retry_after: Option<u64>) -> Answer {
    Answer {
        response: DavHttpResponse {
            status,
            body: body.to_vec(),
            etag: Some("\"e\"".to_owned()),
            content_type: None,
            last_modified: None,
        },
        retry_after,
        location: location.map(str::to_owned),
    }
}

#[test]
fn client_constructs_cleanly() {
    let c = DavClient::new("Basic dTpw", "0.1.0", 3);
    assert_eq!(c.retries_observed(), 0);
    assert_eq!(c.retry_after_sleeps(), 0);
}

#[test]
fn auth_header_appears_in_requests_of_a_client() {
    let c = DavClient::new("Bearer abc", "0.1.0", 0);
    let headers = c.headers(&c.propfind("https://h/", 1, "<x/>"));
    assert!(headers.contains(&("Authorization".to_owned(), "Bearer abc".to_owned())));
    assert!(headers.contains(&("Depth".to_owned(), "1".to_owned())));
    assert!(headers.contains(&("User-Agent".to_owned(), "vandelay/0.1.0".to_owned())));
    let mut bare = c.get("https://h/");
    bare.include_auth = false;
    assert!(!c.headers(&bare).iter().any(|(n, _)| n == "Authorization"));
    assert_eq!(c.report("https://h/", 0, "<x/>").method, "REPORT");
}

#[test]
fn truncate_preserves_char_boundaries() {
    let mut body = vec![b'a'; 510];
    body.extend_from_slice("\u{1F4A9}".as_bytes());
    body.extend_from_slice(&[b'b'; 600]);
    let s = truncate(&body);
    assert!(s.ends_with("..."));
    assert!(s.is_char_boundary(s.len()));
    assert_eq!(s.len(), 513);
    assert_eq!(truncate(b"short"), "short");
    assert_eq!(truncate(&[0xff]), "\u{fffd}");
}

#[test]
fn credentials_are_dropped_when_a_redirect_leaves_the_origin() {
    let mut p = Progress::begin("https://a.example/x");
    let next = execute(
        &mut p,
        "PROPFIND",
        3,
        answer(301, b"", Some("/y"), None),
        DavOutcome::Fatal,
    );
    assert!(matches!(next, Next::Send));
    assert!(p.include_auth);
    assert_eq!(p.current, "https://a.example/y");
    let next = execute(
        &mut p,
        "PROPFIND",
        3,
        answer(302, b"", Some("https://b.example/"), None),
        DavOutcome::Fatal,
    );
    assert!(matches!(next, Next::Send));
    assert!(!p.include_auth);
    let next = execute(
        &mut p,
        "PROPFIND",
        3,
        answer(302, b"", Some("https://a.example/"), None),
        DavOutcome::Fatal,
    );
    assert!(matches!(next, Next::Send));
    assert!(!p.include_auth, "credentials do not come back");
}

#[test]
fn redirects_are_bounded() {
    let mut p = Progress::begin("https://a/");
    for _ in 0..5 {
        assert!(matches!(
            execute(&mut p, "GET", 3, answer(307, b"", Some("/"), None), DavOutcome::Fatal),
            Next::Send
        ));
    }
    match execute(&mut p, "GET", 3, answer(307, b"", Some("/"), None), DavOutcome::Fatal) {
        Next::Fail(JmapError::Connect(m)) => {
            assert_eq!(m, "too many redirects (5) starting from https://a/")
        }
        _ => panic!("expected a failure"),
    }
}

#[test]
fn throttled_requests_are_repeated_up_to_the_limit() {
    let mut p = Progress::begin("https://a/");
    for _ in 0..2 {
        match execute(&mut p, "GET", 2, answer(503, b"", None, Some(7)), DavOutcome::Retryable) {
            Next::Throttled { retry_after } => assert_eq!(retry_after, Some(7)),
            _ => panic!("expected a wait"),
        }
    }
    assert!(matches!(
        execute(&mut p, "GET", 2, answer(503, b"", None, Some(7)), DavOutcome::Retryable),
        Next::Fail(JmapError::RetriesExhausted(_))
    ));
    assert_eq!(p.retries, 3);
    assert_eq!(p.retry_after_sleeps, 2);
    let mut c = DavClient::new("x", "1", 2);
    c.absorb(&p);
    assert_eq!(c.retries_observed(), 3);
    assert_eq!(c.retry_after_sleeps(), 2);
}

#[test]
fn a_success_ends_the_request() {
    let mut p = Progress::begin("https://a/");
    match execute(&mut p, "GET", 2, answer(207, b"body", None, None), DavOutcome::Success) {
        Next::Done { value, calm } => {
            assert_eq!(value.body, b"body");
            assert_eq!(value.etag.as_deref(), Some("\"e\""));
            assert!(calm);
        }
        _ => panic!("expected an answer"),
    }
    assert!(matches!(
        execute(&mut p, "GET", 2, answer(401, b"no", None, None), DavOutcome::Auth),
        Next::Fail(JmapError::Auth(_))
    ));
    assert!(matches!(
        execute(&mut p, "GET", 2, answer(418, b"no", None, None), DavOutcome::Fatal),
        Next::Fail(JmapError::HttpStatus { status: 418, .. })
    ));
}

#[test]
fn a_streamed_download_of_nothing_is_missing() {
    let mut p = Progress::begin("https://a/");
    match get_stream(&mut p, 2, answer(404, b"", None, None), DavOutcome::Vanished) {
        Next::Done { value: DavStream::Missing { status }, .. } => assert_eq!(status, 404),
        _ => panic!("expected a missing resource"),
    }
    assert!(matches!(
        get_stream(&mut p, 2, answer(200, b"", None, None), DavOutcome::Success),
        Next::Done { value: DavStream::Body { status: 200, .. }, .. }
    ));
}

#[test]
fn a_redirected_multistatus_is_read_against_its_own_url() {
    let reply = |status: u16, location: Option<&str>| MultiAnswer {
        status,
        body: Ok(Vec::new()),
        retry_after: None,
        location: location.map(str::to_owned),
    };
    let mut p = Progress::begin("https://a/c/");
    match stream_multistatus(&mut p, "REPORT", "https://a/", 2, reply(207, None), DavOutcome::Success) {
        Next::Done { value: MultiStatus::Parse { base, final_url, .. }, .. } => {
            assert_eq!(base, "https://a/");
            assert_eq!(final_url, "https://a/c/");
        }
        _ => panic!("expected an answer"),
    }
    stream_multistatus(
        &mut p,
        "REPORT",
        "https://a/",
        2,
        reply(301, Some("/d/")),
        DavOutcome::Fatal,
    );
    match stream_multistatus(&mut p, "REPORT", "https://a/", 2, reply(207, None), DavOutcome::Success) {
        Next::Done { value: MultiStatus::Parse { base, .. }, .. } => assert_eq!(base, "https://a/d/"),
        _ => panic!("expected an answer"),
    }
    match stream_multistatus(&mut p, "REPORT", "https://a/", 2, reply(404, None), DavOutcome::Vanished) {
        Next::Done { value: MultiStatus::Empty { status, .. }, .. } => assert_eq!(status, 404),
        _ => panic!("expected an answer"),
    }
}

#[test]
fn transports_are_tried_again_unless_they_cannot_connect() {
    let mut p = Progress::begin("https://a/");
    assert!(handle_transport(&mut p, 1, JmapError::Transport("x".to_owned()), "x".to_owned()).is_none());
    assert!(matches!(
        handle_transport(&mut p, 1, JmapError::Transport("x".to_owned()), "x".to_owned()),
        Some(JmapError::RetriesExhausted(_))
    ));
    assert!(matches!(
        handle_transport(&mut p, 9, JmapError::Connect("x".to_owned()), "x".to_owned()),
        Some(JmapError::Connect(_))
    ));
}

#[test]
fn hosts_are_the_same_with_the_same_port() {
    assert!(same_host("https://a.example/x", "https://A.example:443/y"));
    assert!(!same_host("https://a.example/x", "https://a.example:8443/"));
    assert!(!same_host("not a url", "not a url"));
    assert!(is_redirect_status(308));
    assert!(!is_redirect_status(304));
    assert_eq!(body_limit(200, false), Some(512 * 1024 * 1024));
    assert_eq!(body_limit(500, false), Some(64 * 1024));
    assert_eq!(body_limit(301, true), None);
}

#[test]
fn failures_to_send_are_transport_or_connection_errors() {
    assert!(matches!(map_send_failure(SendFailure::HostNotFound), JmapError::Transport(ref m) if m == "host not found"));
    assert!(matches!(map_send_failure(SendFailure::Tls("bad".to_owned())), JmapError::Transport(ref m) if m == "tls: bad"));
    assert!(matches!(map_send_failure(SendFailure::TooManyRedirects), JmapError::Connect(_)));
    assert!(matches!(map_send_failure(SendFailure::TlsRequired), JmapError::Connect(_)));
}

#[test]
fn locations_are_resolved_against_the_current_url() {
    assert_eq!(resolve_redirect("https://a.example/x/y", "z").unwrap(), "https://a.example/x/z");
    assert_eq!(resolve_redirect("https://a.example/x", "//b.example").unwrap(), "https://b.example/");
    assert!(resolve_redirect("nowhere", "z").is_err());
    assert!(resolve_redirect("https://a.example/", "https://[").is_err());
}

#[test]
fn hosts_are_compared_with_their_ports() {
    let parts = |host: Option<&str>, port_or_default: Option<u16>| UrlParts {
        scheme: "https".to_owned(),
        host: host.map(str::to_owned),
        port: None,
        port_or_default,
        path: "/".to_owned(),
    };
    let a = || host_and_port(parts(Some("a"), Some(443)));
    assert!(same_places(a(), a()));
    assert!(!same_places(a(), host_and_port(parts(Some("a"), Some(8443)))));
    assert!(!same_places(a(), host_and_port(parts(Some("b"), Some(443)))));
    assert!(!same_places(host_and_port(parts(None, None)), host_and_port(parts(None, None))));
}

#[test]
fn redirects_are_taken_against_the_current_url() {
    let mut p = Progress::begin("https://a.example/x/y");
    for (location, current) in [("z", "https://a.example/x/z"), ("../w", "https://a.example/w")] {
        assert!(matches!(
            execute(&mut p, "GET", 3, answer(307, b"", Some(location), None), DavOutcome::Fatal),
            Next::Send
        ));
        assert_eq!(p.current, current);
    }
    assert!(matches!(
        get_stream(&mut p, 3, answer(302, b"", Some("v/"), None), DavOutcome::Fatal),
        Next::Send
    ));
    assert_eq!(p.current, "https://a.example/v/");
    match execute(&mut p, "GET", 3, answer(301, b"", Some("https://["), None), DavOutcome::Fatal) {
        Next::Fail(JmapError::Connect(m)) => assert!(m.starts_with("redirect: ")),
        _ => panic!("expected a failure"),
    }
}

#[test]
fn a_location_that_is_joined_already_is_taken_as_it_is() {
    let mut p = Progress::begin("https://a/");
    let to = || Ok("https://a/b".to_owned());
    assert!(matches!(
        execute_joined(&mut p, "GET", 3, answer(307, b"", Some("b"), None), to(), DavOutcome::Fatal),
        Next::Send
    ));
    assert_eq!(p.current, "https://a/b");
    match get_stream_joined(&mut p, 3, answer(307, b"", Some("b"), None), Err("bad".to_owned()), DavOutcome::Fatal) {
        Next::Fail(JmapError::Connect(m)) => assert_eq!(m, "redirect: bad"),
        _ => panic!("expected a failure"),
    }
    let reply = MultiAnswer { status: 308, body: Ok(Vec::new()), retry_after: None, location: None };
    match stream_multistatus_joined(&mut p, "REPORT", "https://a/", 3, reply, to(), DavOutcome::Fatal) {
        Next::Fail(JmapError::Connect(m)) => {
            assert_eq!(m, "REPORT https://a/b returned 308 without Location");
        }
        _ => panic!("expected a failure"),
    }
}
