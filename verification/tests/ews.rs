use base64::engine::general_purpose::{STANDARD, STANDARD_NO_PAD, URL_SAFE_NO_PAD};
use base64::Engine;
use vandelay::exchange_ews::autodiscover::{
    autodiscover_v1, autodiscover_v2, discover, is_fully_qualified_ews_url, parse_pox_response,
    pox_body, pox_candidates, xml_escape, DiscoverySource, PoxOutcome, Step, POX_RESP_NS,
};
use vandelay::exchange_ews::dns::{
    parse_srv_response, read_name, resolv_conf_nameservers, skip_name, srv_lookup, srv_query, SrvRecord,
};
use vandelay::exchange_ews::error::EwsError;
use vandelay::exchange_ews::oauth::{
    acquire, client_credentials, decode_jwt_claims, device_code, device_code_flow,
    parse_token_response, refresh_with_token, Acquisition, OAuthFlow, PollStep,
};
use vandelay::json::Json;
use vandelay::web::urlencode;

fn json(text: &str) -> Json {
    Json::parse(text.as_bytes()).expect("a JSON text")
}

fn make_jwt(tid: &str, upn: &str, exp: u64) -> String {
    let header = URL_SAFE_NO_PAD.encode(b"{\"alg\":\"none\"}");
    let claims = format!(r#"{{"tid":"{tid}","upn":"{upn}","exp":{exp}}}"#);
    let payload = URL_SAFE_NO_PAD.encode(claims.as_bytes());
    format!("{header}.{payload}.")
}

#[test]
fn jwt_decoder_extracts_tid_and_upn() {
    let token = make_jwt("tenant-1", "alice@x.com", 9999999999);
    let claims = decode_jwt_claims(&token).unwrap();
    assert_eq!(claims.tenant_id.as_deref(), Some("tenant-1"));
    assert_eq!(claims.upn.as_deref(), Some("alice@x.com"));
    assert_eq!(claims.exp, Some(9999999999));
}

#[test]
fn oauth_malformed_token_returns_none() {
    assert!(decode_jwt_claims("garbage").is_none());
    assert!(decode_jwt_claims("only.two").is_none());
}

#[test]
fn pre_acquired_flow_decodes_claims() {
    let token = make_jwt("t-2", "bob@x", 9999999999);
    match acquire(&OAuthFlow::PreAcquired { token: token.clone() }) {
        Acquisition::Token(acq) => {
            assert_eq!(acq.access_token, token);
            assert_eq!(acq.tenant_id.as_deref(), Some("t-2"));
            assert_eq!(acq.upn.as_deref(), Some("bob@x"));
        }
        other => panic!("expected a token, got {other:?}"),
    }
}

#[test]
fn urlencode_handles_special_chars() {
    assert_eq!(urlencode("a b/c"), "a%20b%2Fc");
    assert_eq!(urlencode("a.b-c_d"), "a.b-c_d");
}

#[test]
fn the_payload_may_be_in_any_of_three_forms() {
    let claims = br#"{"tid":"???>>>","preferred_username":"p@x"}"#;
    for payload in [URL_SAFE_NO_PAD.encode(claims), STANDARD_NO_PAD.encode(claims), STANDARD.encode(claims)] {
        let c = decode_jwt_claims(&format!("h.{payload}.s")).unwrap();
        assert_eq!(c.tenant_id.as_deref(), Some("???>>>"));
        assert_eq!(c.upn.as_deref(), Some("p@x"));
    }
}

#[test]
fn requests_for_tokens_are_forms() {
    assert_eq!(
        client_credentials("id", "s&t"),
        "client_id=id&client_secret=s%26t&scope=https%3A%2F%2Foutlook.office365.com%2F.default&grant_type=client_credentials"
    );
    let (url, body) = refresh_with_token("ten", "id", "rt");
    assert_eq!(url, "https://login.microsoftonline.com/ten/oauth2/v2.0/token");
    assert!(body.starts_with("client_id=id&grant_type=refresh_token&refresh_token=rt&scope="));
    let flow = OAuthFlow::DeviceCode { tenant: "ten".to_owned(), client_id: "id".to_owned() };
    match acquire(&flow) {
        Acquisition::AskForCode { endpoint, .. } => {
            assert_eq!(endpoint, "https://login.microsoftonline.com/ten/oauth2/v2.0/devicecode")
        }
        other => panic!("got {other:?}"),
    }
    let flow = OAuthFlow::ClientCredentials {
        tenant: "ten".to_owned(),
        client_id: "id".to_owned(),
        client_secret: "s".to_owned(),
    };
    assert!(matches!(acquire(&flow), Acquisition::AskForToken { .. }));
}

#[test]
fn token_answers_are_told_apart() {
    let text = |r: Result<vandelay::web::AcquiredToken, EwsError>| match r {
        Err(EwsError::OAuth(m)) => m,
        _ => panic!("expected an error"),
    };
    assert_eq!(text(parse_token_response(200, Err("eof"))), "token body: eof");
    assert_eq!(text(parse_token_response(401, Ok(&json("{}")))), "http 401: (no error_description)");
    assert_eq!(
        text(parse_token_response(401, Ok(&json(r#"{"error_description": "no"}"#)))),
        "http 401: no"
    );
    assert_eq!(text(parse_token_response(200, Ok(&json("{}")))), "access_token missing");
    let t = parse_token_response(200, Ok(&json(r#"{"access_token": "a", "expires_in": 5}"#))).unwrap();
    assert_eq!(t.access_token, "a");
    assert_eq!(t.expires_in, Some(5));
    assert!(device_code(&json("{}")).is_err());
    assert_eq!(device_code(&json(r#"{"device_code": "d"}"#)).unwrap().device_code, "d");
}

#[test]
fn polling_follows_the_servers_error() {
    let step = |status: u16, body: &str| device_code_flow(status, Ok(&json(body)), 5);
    assert!(matches!(step(400, r#"{"error": "authorization_pending"}"#), PollStep::Again(5)));
    assert!(matches!(step(400, r#"{"error": "slow_down"}"#), PollStep::Again(5_000_000_005)));
    let text = |s: PollStep| match s {
        PollStep::Failed(EwsError::OAuth(m)) => m,
        other => panic!("got {other:?}"),
    };
    assert_eq!(text(step(400, r#"{"error": "expired_token"}"#)), "device code expired; restart the import");
    assert_eq!(text(step(502, "{}")), "device code polling: http 502");
    assert_eq!(
        text(device_code_flow(502, Err("not json"), 5)),
        "device code polling: http 502"
    );
    assert_eq!(
        text(step(400, r#"{"error": "x", "error_description": "y"}"#)),
        "device code polling: x: y"
    );
    match step(200, r#"{"access_token": "a"}"#) {
        PollStep::Done(t) => assert_eq!(t.access_token, "a"),
        other => panic!("got {other:?}"),
    }
}

#[test]
fn detects_fully_qualified_ews_url() {
    assert!(is_fully_qualified_ews_url(
        "https://outlook.office365.com/EWS/Exchange.asmx"
    ));
    assert!(is_fully_qualified_ews_url(
        "https://exchange.example.com/EWS/Exchange.asmx"
    ));
    assert!(!is_fully_qualified_ews_url(
        "http://outlook.office365.com/EWS/Exchange.asmx"
    ));
    assert!(!is_fully_qualified_ews_url("https://outlook.office365.com/"));
}

#[test]
fn pox_response_extracts_ews_url() {
    let body = format!(
        "<?xml version=\"1.0\"?>\
         <Autodiscover xmlns=\"{POX_RESP_NS}\">\
         <Response><Account><Protocol><Type>EXPR</Type><EwsUrl>https://srv/EWS/Exchange.asmx</EwsUrl></Protocol></Account></Response></Autodiscover>"
    );
    match parse_pox_response(body.as_bytes()).unwrap() {
        PoxOutcome::EwsUrl(u) => assert_eq!(u, "https://srv/EWS/Exchange.asmx"),
        _ => panic!("expected EwsUrl"),
    }
}

#[test]
fn pox_response_handles_redirect_addr() {
    let body = format!(
        "<?xml version=\"1.0\"?>\
         <Autodiscover xmlns=\"{POX_RESP_NS}\">\
         <Response><Account><Action>redirectAddr</Action><RedirectAddr>bob@other.com</RedirectAddr></Account></Response></Autodiscover>"
    );
    match parse_pox_response(body.as_bytes()).unwrap() {
        PoxOutcome::RedirectAddr(a) => assert_eq!(a, "bob@other.com"),
        _ => panic!("expected RedirectAddr"),
    }
}

#[test]
fn pox_text_is_put_together_from_its_pieces() {
    let body = b"<a><Protocol><TYPE>EXCH</TYPE><EwsUrl>https://s/?a=1&amp;b=&#50;&#x33;<![CDATA[&]]></EwsUrl></Protocol></a>";
    match parse_pox_response(body).unwrap() {
        PoxOutcome::EwsUrl(u) => assert_eq!(u, "https://s/?a=1&b=23&"),
        other => panic!("got {other:?}"),
    }
}

#[test]
fn an_endpoint_of_another_protocol_does_not_count() {
    let body = b"<a><Protocol><Type>WEB</Type><EwsUrl>https://web</EwsUrl></Protocol></a>";
    assert!(matches!(parse_pox_response(body).unwrap(), PoxOutcome::Failed));
    let body = b"<a><RedirectUrl>https://elsewhere</RedirectUrl><Action>redirectUrl</Action></a>";
    match parse_pox_response(body).unwrap() {
        PoxOutcome::RedirectUrl(u) => assert_eq!(u, "https://elsewhere"),
        other => panic!("got {other:?}"),
    }
    assert!(matches!(parse_pox_response(b"<a></b>"), Err(EwsError::Malformed(_))));
}

#[test]
fn v1_answers_are_read_only_where_they_succeed() {
    let none: Vec<u8> = Vec::new();
    match autodiscover_v1("https://c", 500, Ok(&none)) {
        Err(EwsError::AutodiscoverFailed(m)) => assert_eq!(m, "https://c returned http 500"),
        other => panic!("got {other:?}"),
    }
    match autodiscover_v1("https://c", 200, Err("cut")) {
        Err(EwsError::Malformed(m)) => assert_eq!(m, "v1 body: cut"),
        other => panic!("got {other:?}"),
    }
    assert!(matches!(autodiscover_v1("https://c", 200, Ok(&none)), Ok(PoxOutcome::Failed)));
}

#[test]
fn v2_answers_name_the_protocol_and_the_url() {
    let ok = json(r#"{"Protocol": "EWS", "Url": "https://e"}"#);
    assert_eq!(autodiscover_v2(200, Ok(&ok)).unwrap(), "https://e");
    let text = |r: Result<String, EwsError>| match r {
        Err(EwsError::AutodiscoverFailed(m)) | Err(EwsError::Malformed(m)) => m,
        other => panic!("got {other:?}"),
    };
    assert_eq!(text(autodiscover_v2(404, Ok(&ok))), "v2 returned http 404");
    assert_eq!(text(autodiscover_v2(200, Err("x"))), "v2 body: x");
    assert_eq!(
        text(autodiscover_v2(200, Ok(&json(r#"{"Protocol": "Rest"}"#)))),
        "v2 returned protocol \"Rest\""
    );
    assert_eq!(text(autodiscover_v2(200, Ok(&json(r#"{"Protocol": "Ews"}"#)))), "v2 missing Url");
}

#[test]
fn requests_escape_the_mailbox() {
    assert_eq!(xml_escape("a&b<c>\"d'"), "a&amp;b&lt;c&gt;&quot;d'");
    assert!(pox_body("a&b@x").contains("<EMailAddress>a&amp;b@x</EMailAddress>"));
}

#[test]
fn candidates_are_the_usual_addresses_and_the_records() {
    let records = vec![
        SrvRecord { priority: 0, weight: 0, port: 443, target: "mail.x.".to_owned() },
        SrvRecord { priority: 0, weight: 0, port: 8443, target: "m2.x".to_owned() },
    ];
    assert_eq!(
        pox_candidates("x", &records),
        vec![
            "https://autodiscover.x/autodiscover/autodiscover.xml".to_owned(),
            "https://x/autodiscover/autodiscover.xml".to_owned(),
            "https://mail.x/autodiscover/autodiscover.xml".to_owned(),
            "https://m2.x:8443/autodiscover/autodiscover.xml".to_owned(),
        ]
    );
}

#[test]
fn a_search_follows_redirections_within_bounds() {
    let (mut s, step) = discover(None, Some("a@one"));
    assert!(matches!(step, Step::AskV2(ref u) if u.ends_with("Email=a%40one&Protocol=Ews")));
    assert!(matches!(s.answered_v2(None), Step::LookUp(ref d) if d == "one"));
    for i in 0..4 {
        assert!(matches!(s.looked_up(vec!["https://c".to_owned()]), Step::Ask { .. }));
        let to = format!("a@d{i}");
        assert!(matches!(s.answered(PoxOutcome::RedirectAddr(to)), Step::LookUp(ref d) if *d == format!("d{i}")));
    }
    assert!(matches!(s.looked_up(vec!["https://c".to_owned()]), Step::Ask { .. }));
    assert!(matches!(
        s.answered(PoxOutcome::RedirectAddr("a@last".to_owned())),
        Step::Failed(EwsError::AutodiscoverLoop)
    ));
}

#[test]
fn a_search_asks_a_redirected_address_once() {
    let (mut s, _) = discover(None, Some("a@one"));
    s.answered_v2(None);
    s.looked_up(vec!["https://c1".to_owned(), "https://c2".to_owned()]);
    assert!(matches!(
        s.answered(PoxOutcome::RedirectUrl("https://r".to_owned())),
        Step::Ask { ref url, .. } if url == "https://r"
    ));
    assert!(matches!(s.answered(PoxOutcome::Failed), Step::Ask { ref url, .. } if url == "https://c2"));
    assert!(matches!(
        s.answered(PoxOutcome::RedirectUrl("https://r".to_owned())),
        Step::Failed(EwsError::AutodiscoverLoop)
    ));
}

#[test]
fn a_search_ends_with_what_it_has() {
    let (_, step) = discover(Some("https://h/ews/exchange.ASMX"), None);
    match step {
        Step::Found(r) => {
            assert_eq!(r.ews_url, "https://h/ews/exchange.ASMX");
            assert_eq!(r.source, DiscoverySource::SuppliedUrl);
        }
        other => panic!("got {other:?}"),
    }
    let (_, step) = discover(Some("https://h/"), None);
    assert!(matches!(step, Step::Failed(EwsError::AutodiscoverFailed(_))));
    let (mut s, _) = discover(Some("https://h/"), Some("a@one"));
    s.answered_v2(None);
    match s.looked_up(Vec::new()) {
        Step::Found(r) => assert_eq!(r.ews_url, "https://h/"),
        other => panic!("got {other:?}"),
    }
    let (mut s, _) = discover(None, Some("a@one"));
    s.answered_v2(None);
    s.looked_up(vec!["https://c".to_owned()]);
    match s.answered(PoxOutcome::Failed) {
        Step::Failed(EwsError::AutodiscoverFailed(m)) => {
            assert_eq!(m, "tried 1 candidate(s), none returned a v1 EwsUrl")
        }
        other => panic!("got {other:?}"),
    }
    let (mut s, _) = discover(None, Some("nobody"));
    match s.answered_v2(None) {
        Step::Failed(EwsError::AutodiscoverFailed(m)) => assert_eq!(m, "--mailbox is not an email"),
        other => panic!("got {other:?}"),
    }
    let (mut s, _) = discover(None, Some("a@one"));
    assert!(matches!(s.answered_v2(Some("https://v2")), Step::Found(ref r) if r.source == DiscoverySource::V2));
}

fn answer() -> Vec<u8> {
    let mut b = vec![0x12, 0x34, 0x81, 0x80, 0, 1, 0, 2, 0, 0, 0, 0];
    b.extend_from_slice(&[1, b'x', 0, 0, 33, 0, 1]);
    for (priority, weight, port, name) in [(10u16, 5u16, 443u16, b"aa"), (10, 7, 8443, b"bb")] {
        b.extend_from_slice(&[0xc0, 12, 0, 33, 0, 1, 0, 0, 0, 60]);
        let mut data = Vec::new();
        data.extend_from_slice(&priority.to_be_bytes());
        data.extend_from_slice(&weight.to_be_bytes());
        data.extend_from_slice(&port.to_be_bytes());
        data.push(2);
        data.extend_from_slice(name);
        data.extend_from_slice(&[0xc0, 12]);
        b.extend_from_slice(&(data.len() as u16).to_be_bytes());
        b.extend_from_slice(&data);
    }
    b
}

#[test]
fn service_records_are_read_and_ordered() {
    let b = answer();
    let records = parse_srv_response(&b).unwrap();
    assert_eq!(records.len(), 2);
    assert_eq!(records[0].target, "aa.x");
    assert_eq!(records[0].port, 443);
    assert_eq!(records[1].weight, 7);
    assert_eq!(srv_lookup(&records), vec![1, 0]);
    assert!(parse_srv_response(&b[..b.len() - 1]).is_none());
    assert!(parse_srv_response(&b[..11]).is_none());
}

#[test]
fn a_name_that_refers_to_itself_is_given_up() {
    assert_eq!(read_name(&[0xc0, 0], 0), None);
    assert_eq!(read_name(&[1, b'a', 0], 0).as_deref(), Some("a"));
    assert_eq!(read_name(&[1, 0xff, 0], 0), None);
    assert_eq!(skip_name(&[1, b'a', 0], 0), Some(3));
    assert_eq!(skip_name(&[0xc0, 0], 0), Some(2));
    assert_eq!(skip_name(&[5, b'a'], 0), None);
}

#[test]
fn the_question_spells_out_the_name() {
    let q = srv_query("_autodiscover._tcp.x.");
    assert_eq!(&q[..12], &[0x12, 0x34, 1, 0, 0, 1, 0, 0, 0, 0, 0, 0]);
    assert_eq!(read_name(&q, 12).as_deref(), Some("_autodiscover._tcp.x"));
    assert_eq!(&q[q.len() - 4..], &[0, 33, 0, 1]);
}

#[test]
fn name_servers_are_read_from_the_configuration() {
    let conf = "# comment\nnameserver 1.1.1.1\r\n  nameserver 8.8.8.8 # google\nsearch x\nnameserver\n";
    assert_eq!(
        resolv_conf_nameservers(conf),
        vec!["1.1.1.1".to_owned(), "8.8.8.8".to_owned()]
    );
}

#[test]
fn escaped_mailboxes_hold_no_markup() {
    let s = xml_escape("<a href=\"x\">&'</a>");
    assert_eq!(s, "&lt;a href=&quot;x&quot;&gt;&amp;'&lt;/a&gt;");
    assert!(!s.contains(['<', '>', '"']));
}

#[test]
fn written_names_are_read_back() {
    let q = srv_query("_autodiscover._tcp.example.org.");
    assert_eq!(read_name(&q, 12).as_deref(), Some("_autodiscover._tcp.example.org"));
    assert_eq!(skip_name(&q, 12), Some(q.len() - 4));
}

#[test]
fn documents_that_are_nested_too_deeply_are_refused() {
    let refused = |n: usize| match parse_pox_response("<a>".repeat(n).as_bytes()) {
        Err(EwsError::Malformed(m)) => m == "elements are nested too deeply",
        _ => false,
    };
    assert!(!refused(65534));
    assert!(refused(65535));
    assert!(refused(65536));
    assert!(refused(70000));
    let wide = "<a></a>".repeat(70000);
    assert!(matches!(parse_pox_response(wide.as_bytes()), Ok(PoxOutcome::Failed)));
}
