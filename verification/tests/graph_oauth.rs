use base64::engine::general_purpose::URL_SAFE_NO_PAD;
use base64::Engine;
use vandelay::exchange_graph::error::GraphError;
use vandelay::exchange_graph::oauth::{
    acquire, code_expired, decode_jwt_claims, default_authority, device_code_endpoint,
    device_code_flow, first_delay, parse_device_code_response, parse_token_response, poll_allowed, poll_body,
    polling_allowed, prompt,
    read_token_file, refresh_access_token, refresh_body, run_device_code_polling_against,
    token_endpoint, Acquisition, OAuthFlow, PollStep, RefreshEvent, RefreshStep, RefreshTries,
    TokenResponse, LONGEST, POLLING_DELAY,
};
use vandelay::json::Json;
use vandelay::web::{form_encode, urlencode};

fn json(text: &str) -> Json {
    Json::parse(text.as_bytes()).expect("a JSON text")
}

fn make_jwt(tid: &str, upn: &str, exp: u64) -> String {
    let header = URL_SAFE_NO_PAD.encode(b"{\"alg\":\"none\"}");
    let claims = format!(r#"{{"tid":"{tid}","upn":"{upn}","exp":{exp}}}"#);
    let payload = URL_SAFE_NO_PAD.encode(claims.as_bytes());
    format!("{header}.{payload}.")
}

#[test]
fn jwt_claim_extraction() {
    let token = make_jwt("t-1", "alice@x.com", 9999999999);
    let claims = decode_jwt_claims(&token).unwrap();
    assert_eq!(claims.tenant_id.as_deref(), Some("t-1"));
    assert_eq!(claims.upn.as_deref(), Some("alice@x.com"));
    assert_eq!(claims.exp, Some(9999999999));
}

#[test]
fn device_code_response_parses_required_fields() {
    let json = json(
        r#"{
            "device_code": "ABCDEF",
            "user_code": "XXX-YYY",
            "verification_uri": "https://microsoft.com/devicelogin",
            "interval": 5,
            "expires_in": 900,
            "message": "go sign in"
        }"#,
    );
    let r = parse_device_code_response(&json).unwrap();
    assert_eq!(r.device_code, "ABCDEF");
    assert_eq!(r.user_code, "XXX-YYY");
    assert_eq!(r.interval, 5);
    assert_eq!(r.expires_in, 900);
    assert_eq!(prompt(&r), "go sign in");
}

#[test]
fn device_code_response_falls_back_where_it_may() {
    let r = parse_device_code_response(&json(r#"{"device_code": "D"}"#)).unwrap();
    assert_eq!(r.user_code, "?");
    assert_eq!(r.interval, 5);
    assert_eq!(r.expires_in, 900);
    assert_eq!(
        prompt(&r),
        "To sign in, open https://microsoft.com/devicelogin and enter the code ?"
    );
    match parse_device_code_response(&json("{}")) {
        Err(GraphError::OAuth(m)) => assert_eq!(m, "device_code missing"),
        _ => panic!("expected an error"),
    }
}

#[test]
fn token_response_pending() {
    let json = json(
        r#"{"error": "authorization_pending", "error_description": "user has not yet completed"}"#,
    );
    assert!(matches!(parse_token_response(400, &json), TokenResponse::Pending));
}

#[test]
fn token_response_declined() {
    let json = json(r#"{"error": "authorization_declined"}"#);
    assert!(matches!(parse_token_response(400, &json), TokenResponse::Declined));
}

#[test]
fn token_response_bad_code() {
    let json = json(r#"{"error": "bad_verification_code"}"#);
    assert!(matches!(parse_token_response(400, &json), TokenResponse::BadCode));
}

#[test]
fn token_response_expired() {
    let json = json(r#"{"error": "expired_token"}"#);
    assert!(matches!(parse_token_response(400, &json), TokenResponse::Expired));
}

#[test]
fn token_response_success_includes_refresh() {
    let token = make_jwt("t-2", "bob@x.com", 9999999999);
    let json = json(&format!(
        r#"{{"access_token": "{token}", "refresh_token": "REFRESH", "expires_in": 3599}}"#
    ));
    match parse_token_response(200, &json) {
        TokenResponse::Token(t) => {
            assert!(t.access_token.starts_with("eyJhbGciOiJub25lIn0"));
            assert_eq!(t.refresh_token.as_deref(), Some("REFRESH"));
            assert_eq!(t.expires_in, Some(3599));
            assert_eq!(t.upn.as_deref(), Some("bob@x.com"));
        }
        other => panic!("expected a token, got {other:?}"),
    }
}

#[test]
fn urlencode_escapes_special_chars() {
    assert_eq!(urlencode("a b/c"), "a%20b%2Fc");
    assert_eq!(urlencode("plain.123_-"), "plain.123_-");
}

#[test]
fn forms_are_pairs_of_encoded_texts() {
    assert_eq!(form_encode(&vec![("a", "1 2"), ("b&", "=")]), "a=1%202&b%26=%3D");
    assert_eq!(form_encode(&vec![]), "");
}

#[test]
fn read_token_file_trims_surrounding_whitespace() {
    assert_eq!(
        read_token_file("  eyJhbGci.payload.sig\n").unwrap(),
        "eyJhbGci.payload.sig"
    );
}

#[test]
fn read_token_file_rejects_empty() {
    assert!(read_token_file("\n  \n").is_err());
}

#[test]
fn default_authority_uses_login_microsoftonline_com() {
    assert_eq!(
        default_authority("common"),
        "https://login.microsoftonline.com/common"
    );
    assert_eq!(
        default_authority("contoso.onmicrosoft.com"),
        "https://login.microsoftonline.com/contoso.onmicrosoft.com"
    );
}

#[test]
fn endpoints_hang_under_the_authority() {
    assert_eq!(device_code_endpoint("https://a"), "https://a/oauth2/v2.0/devicecode");
    assert_eq!(token_endpoint("https://a"), "https://a/oauth2/v2.0/token");
}

#[test]
fn acquiring_begins_with_the_token_or_with_a_code() {
    let token = make_jwt("t-9", "z@x.com", 1);
    match acquire(&OAuthFlow::PreAcquired { token: token.clone() }) {
        Acquisition::Token(t) => {
            assert_eq!(t.access_token, token);
            assert_eq!(t.tenant_id.as_deref(), Some("t-9"));
        }
        other => panic!("expected a token, got {other:?}"),
    }
    let flow = OAuthFlow::DeviceCode { authority: "https://a".to_owned(), client_id: "c".to_owned() };
    match acquire(&flow) {
        Acquisition::AskForCode { endpoint, body } => {
            assert_eq!(endpoint, "https://a/oauth2/v2.0/devicecode");
            assert!(body.starts_with("client_id=c&scope=offline_access%20User.Read%20"));
        }
        other => panic!("expected a request, got {other:?}"),
    }
}

#[test]
fn polling_slows_down_when_asked_to() {
    let slow = json(r#"{"error": "slow_down"}"#);
    match device_code_flow(400, &slow, 5_000_000_000) {
        PollStep::Again(d) => assert_eq!(d, 10_000_000_000),
        other => panic!("got {other:?}"),
    }
    match device_code_flow(400, &slow, LONGEST) {
        PollStep::Again(d) => assert_eq!(d, LONGEST),
        other => panic!("got {other:?}"),
    }
    match run_device_code_polling_against(400, &slow, 20_000_000) {
        PollStep::Again(d) => assert_eq!(d, 40_000_000),
        other => panic!("got {other:?}"),
    }
    let pending = json(r#"{"error": "authorization_pending"}"#);
    assert!(matches!(device_code_flow(400, &pending, 7), PollStep::Again(7)));
}

#[test]
fn polling_ends_with_the_message_for_the_error() {
    let text = |step: PollStep| match step {
        PollStep::Failed(GraphError::OAuth(m)) => m,
        other => panic!("got {other:?}"),
    };
    let expired = json(r#"{"error": "expired_token"}"#);
    let declined = json(r#"{"error": "authorization_declined"}"#);
    let bad = json(r#"{"error": "bad_verification_code"}"#);
    let other = json(r#"{"error": "x", "error_description": "y"}"#);
    assert_eq!(text(device_code_flow(400, &expired, 1)), "device code expired; restart the import");
    assert_eq!(
        text(device_code_flow(400, &declined, 1)),
        "the user declined the device-code sign-in request"
    );
    assert_eq!(text(device_code_flow(400, &bad, 1)), "device code rejected");
    assert_eq!(text(device_code_flow(400, &other, 1)), "device code polling: x: y");
    assert_eq!(text(run_device_code_polling_against(400, &expired, 1)), "device code expired");
    assert_eq!(
        text(run_device_code_polling_against(400, &declined, 1)),
        "device code declined by user"
    );
    assert_eq!(text(run_device_code_polling_against(400, &other, 1)), "x: y");
    match code_expired() {
        GraphError::OAuth(m) => assert_eq!(m, "device code expired before user completed sign-in"),
        other => panic!("got {other:?}"),
    }
}

#[test]
fn a_token_ends_the_polling() {
    let ok = json(r#"{"access_token": "tok"}"#);
    match device_code_flow(200, &ok, 1) {
        PollStep::Done(t) => assert_eq!(t.access_token, "tok"),
        other => panic!("got {other:?}"),
    }
    assert_eq!(
        poll_body("c", "d"),
        "client_id=c&grant_type=urn%3Aietf%3Aparams%3Aoauth%3Agrant-type%3Adevice_code&device_code=d"
    );
}

#[test]
fn refreshing_tries_four_times() {
    let mut tries = RefreshTries::begin();
    let mut delays = Vec::new();
    loop {
        match refresh_access_token(tries, RefreshEvent::SendFailed("boom")) {
            RefreshStep::Retry(d, next) => {
                delays.push(d);
                tries = next;
            }
            RefreshStep::Failed(GraphError::OAuth(m)) => {
                assert_eq!(m, "refresh endpoint: boom");
                break;
            }
            other => panic!("got {other:?}"),
        }
    }
    assert_eq!(delays, vec![500, 1000, 2000]);
}

#[test]
fn refreshing_repeats_after_a_fault_of_the_server_only() {
    let err = json(r#"{"error": "invalid_grant", "error_description": "old \"one\""}"#);
    let tries = RefreshTries::begin();
    assert!(matches!(
        refresh_access_token(tries, RefreshEvent::Answered(503, &err)),
        RefreshStep::Retry(500, RefreshTries { attempts: 1, delay_ms: 1000 })
    ));
    match refresh_access_token(tries, RefreshEvent::Answered(400, &err)) {
        RefreshStep::Failed(GraphError::OAuth(m)) => assert_eq!(
            m,
            "refresh failed (http 400): Other { error: \"invalid_grant\", description: \"old \\\"one\\\"\" }"
        ),
        other => panic!("got {other:?}"),
    }
    let ok = json(r#"{"access_token": "new"}"#);
    match refresh_access_token(tries, RefreshEvent::Answered(200, &ok)) {
        RefreshStep::Done(t) => assert_eq!(t.access_token, "new"),
        other => panic!("got {other:?}"),
    }
    assert!(refresh_body("c", "r").starts_with("client_id=c&grant_type=refresh_token&refresh_token=r&scope="));
}

#[test]
fn codes_expire_at_the_end_of_their_time() {
    assert!(poll_allowed(0, 900));
    assert!(poll_allowed(899_999_999_999, 900));
    assert!(!poll_allowed(900_000_000_000, 900));
    assert!(!poll_allowed(0, 0));
    assert!(polling_allowed(999_999_999, 0), "good for a second at least");
    assert!(!polling_allowed(1_000_000_000, 0));
    assert!(!polling_allowed(2_000_000_000, 2));
    assert_eq!(first_delay(5), 5_000_000_000);
    assert!(first_delay(u64::MAX) <= LONGEST);
    assert_eq!(POLLING_DELAY, 20_000_000);
}
