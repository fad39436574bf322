//! Signing in to Exchange: by a token that is at hand, by the secret of an
//! application, or by a code that the user enters elsewhere.

use vstd::prelude::*;
use vstd::string::*;

use crate::exchange_ews::error::{EwsError, EwsErrorView};
use crate::exchange_graph::oauth::{
    device_code_in, lengthen, longer, parse_device_code_response, poll_body, poll_request, str_or, text_or,
    DeviceCodeResponse, DeviceCodeView, LONGEST,
};
use crate::json::{Json, JsonView};
use crate::text;
use crate::web::{form_encode, form_text, get_u64, make_token, pair_views, token_with, u64_at, TokenView};

pub use crate::web::{decode_jwt_claims, AcquiredToken, JwtClaims};

verus! {

/// What access an application asks for.
pub const SCOPE_APP_ONLY: &'static str = "https://outlook.office365.com/.default";

/// What access is asked for on behalf of a user.
pub const SCOPE_DELEGATED: &'static str = "https://outlook.office365.com/EWS.AccessAsUser.All offline_access";

/// How a token is acquired.
#[derive(Debug)]
pub enum OAuthFlow {
    PreAcquired { token: String },
    ClientCredentials { tenant: String, client_id: String, client_secret: String },
    DeviceCode { tenant: String, client_id: String },
}

/// A token, or the request that has to come first.
#[derive(Debug)]
pub enum Acquisition {
    Token(AcquiredToken),
    AskForToken { endpoint: String, body: String },
    AskForCode { endpoint: String, body: String },
}

/// Where a token is asked for.
pub open spec fn token_address(tenant: Seq<char>) -> Seq<char> {
    "https://login.microsoftonline.com/"@ + tenant + "/oauth2/v2.0/token"@
}

/// Where a device code is asked for.
pub open spec fn code_address(tenant: Seq<char>) -> Seq<char> {
    "https://login.microsoftonline.com/"@ + tenant + "/oauth2/v2.0/devicecode"@
}

/// See [`token_address`].
pub fn token_endpoint(tenant: &str) -> (r: String)
    ensures
        r@ == token_address(tenant@),
{
    text::joined3("https://login.microsoftonline.com/", tenant, "/oauth2/v2.0/token")
}

/// See [`code_address`].
pub fn device_code_endpoint(tenant: &str) -> (r: String)
    ensures
        r@ == code_address(tenant@),
{
    text::joined3("https://login.microsoftonline.com/", tenant, "/oauth2/v2.0/devicecode")
}

/// The request of an application for a token.
pub open spec fn credentials_request(client_id: Seq<char>, client_secret: Seq<char>) -> Seq<char> {
    form_text(
        seq![
            ("client_id"@, client_id),
            ("client_secret"@, client_secret),
            ("scope"@, SCOPE_APP_ONLY@),
            ("grant_type"@, "client_credentials"@),
        ],
    )
}

/// See [`credentials_request`].
pub fn client_credentials(client_id: &str, client_secret: &str) -> (r: String)
    ensures
        r@ == credentials_request(client_id@, client_secret@),
{
    let pairs = vec![
        ("client_id", client_id),
        ("client_secret", client_secret),
        ("scope", SCOPE_APP_ONLY),
        ("grant_type", "client_credentials"),
    ];
    assert(pair_views(pairs@) =~= seq![
        ("client_id"@, client_id@),
        ("client_secret"@, client_secret@),
        ("scope"@, SCOPE_APP_ONLY@),
        ("grant_type"@, "client_credentials"@),
    ]);
    form_encode(&pairs)
}

/// The request for a device code.
pub open spec fn code_request(client_id: Seq<char>) -> Seq<char> {
    form_text(seq![("client_id"@, client_id), ("scope"@, SCOPE_DELEGATED@)])
}

/// How to begin; a token at hand is taken with the claims it makes.
pub fn acquire(flow: &OAuthFlow) -> (r: Acquisition)
    ensures
        match flow {
            OAuthFlow::PreAcquired { token } => r matches Acquisition::Token(t) && t@ == token_with(
                token@,
                None,
                None,
            ),
            OAuthFlow::ClientCredentials { tenant, client_id, client_secret } => r matches Acquisition::AskForToken {
                endpoint,
                body,
            } && endpoint@ == token_address(tenant@) && body@ == credentials_request(
                client_id@,
                client_secret@,
            ),
            OAuthFlow::DeviceCode { tenant, client_id } => r matches Acquisition::AskForCode { endpoint, body }
                && endpoint@ == code_address(tenant@) && body@ == code_request(client_id@),
        },
{
    match flow {
        OAuthFlow::PreAcquired { token } => Acquisition::Token(make_token(token.as_str(), None, None)),
        OAuthFlow::ClientCredentials { tenant, client_id, client_secret } => Acquisition::AskForToken {
            endpoint: token_endpoint(tenant.as_str()),
            body: client_credentials(client_id.as_str(), client_secret.as_str()),
        },
        OAuthFlow::DeviceCode { tenant, client_id } => {
            let pairs = vec![("client_id", client_id.as_str()), ("scope", SCOPE_DELEGATED)];
            assert(pair_views(pairs@) =~= seq![("client_id"@, client_id@), ("scope"@, SCOPE_DELEGATED@)]);
            Acquisition::AskForCode {
                endpoint: device_code_endpoint(tenant.as_str()),
                body: form_encode(&pairs),
            }
        },
    }
}

/// What an answer to the request for a token says; `json` is absent where the body
/// could not be read, with the reason.
pub open spec fn token_in(status: u16, json: Result<JsonView, Seq<char>>) -> Result<TokenView, EwsErrorView> {
    match json {
        Err(shown) => Err(EwsErrorView::OAuth("token body: "@ + shown)),
        Ok(v) => if !(200 <= status < 300) {
            Err(
                EwsErrorView::OAuth(
                    "http "@ + text::decimal_text(status as nat) + (": "@ + text_or(
                        v,
                        "error_description"@,
                        "(no error_description)"@,
                    )),
                ),
            )
        } else {
            match v.text_at("access_token"@) {
                None => Err(EwsErrorView::OAuth("access_token missing"@)),
                Some(access) => Ok(
                    token_with(access, v.text_at("refresh_token"@), u64_at(v, "expires_in"@)),
                ),
            }
        },
    }
}

/// The view of a body that may not have been readable.
pub open spec fn body_view(body: Result<&Json, &str>) -> Result<JsonView, Seq<char>> {
    match body {
        Ok(j) => Ok(j@),
        Err(e) => Err(e@),
    }
}

/// See [`token_in`].
pub fn parse_token_response(status: u16, body: Result<&Json, &str>) -> (r: Result<AcquiredToken, EwsError>)
    ensures
        match r {
            Ok(t) => token_in(status, body_view(body)) == Ok::<TokenView, EwsErrorView>(t@),
            Err(e) => token_in(status, body_view(body)) == Err::<TokenView, EwsErrorView>(e@),
        },
{
    let json = match body {
        Ok(j) => j,
        Err(shown) => {
            return Err(EwsError::OAuth(text::joined("token body: ", shown)));
        },
    };
    if status < 200 || status >= 300 {
        let desc = str_or(json, "error_description", "(no error_description)");
        let code = text::decimal(status as u128);
        let tail = text::joined(": ", desc);
        return Err(EwsError::OAuth(text::joined3("http ", code.as_str(), tail.as_str())));
    }
    match json.str_at("access_token") {
        None => Err(EwsError::OAuth("access_token missing".to_owned())),
        Some(access) => Ok(
            make_token(access, json.str_at("refresh_token"), get_u64(json, "expires_in")),
        ),
    }
}

/// The device code in an answer.
pub fn device_code(json: &Json) -> (r: Result<DeviceCodeResponse, EwsError>)
    ensures
        match r {
            Ok(d) => device_code_in(json@) is Ok && device_code_in(json@)->Ok_0 == d@,
            Err(e) => device_code_in(json@) is Err && e@ == EwsErrorView::OAuth("device_code missing"@),
        },
{
    match parse_device_code_response(json) {
        Ok(d) => Ok(d),
        Err(_) => Err(EwsError::OAuth("device_code missing".to_owned())),
    }
}

/// The request that asks whether the user has signed in.
pub fn poll_for_token(client_id: &str, device_code: &str) -> (r: String)
    ensures
        r@ == poll_request(client_id@, device_code@),
{
    poll_body(client_id, device_code)
}

/// What follows from an answer while the user is signing in.
#[derive(Debug)]
pub enum PollStep {
    /// Ask again after this many nanoseconds.
    Again(u128),
    Done(AcquiredToken),
    Failed(EwsError),
}

/// The view of a [`PollStep`].
pub enum PollStepView {
    Again(int),
    Done(TokenView),
    Failed(EwsErrorView),
}

impl View for PollStep {
    type V = PollStepView;

    open spec fn view(&self) -> PollStepView {
        match self {
            PollStep::Again(d) => PollStepView::Again(*d as int),
            PollStep::Done(t) => PollStepView::Done(t@),
            PollStep::Failed(e) => PollStepView::Failed(e@),
        }
    }
}

/// What follows from an answer. A body that cannot be read says nothing, but where
/// the answer is a success it ends the wait.
pub open spec fn poll_step(status: u16, body: Result<JsonView, Seq<char>>, delay: u128) -> PollStepView {
    if 200 <= status < 300 {
        match token_in(status, body) {
            Ok(t) => PollStepView::Done(t),
            Err(e) => PollStepView::Failed(e),
        }
    } else {
        let v = match body {
            Ok(v) => v,
            Err(_) => JsonView::Null,
        };
        let error = text_or(v, "error"@, ""@);
        if error == "authorization_pending"@ {
            PollStepView::Again(delay as int)
        } else if error == "slow_down"@ {
            PollStepView::Again(longer(delay, 5_000_000_000))
        } else if error == "expired_token"@ {
            PollStepView::Failed(EwsErrorView::OAuth("device code expired; restart the import"@))
        } else if error == ""@ {
            PollStepView::Failed(
                EwsErrorView::OAuth("device code polling: http "@ + text::decimal_text(status as nat)),
            )
        } else {
            PollStepView::Failed(
                EwsErrorView::OAuth(
                    "device code polling: "@ + error + (": "@ + text_or(v, "error_description"@, ""@)),
                ),
            )
        }
    }
}

/// See [`poll_step`].
pub fn device_code_flow(status: u16, body: Result<&Json, &str>, delay: u128) -> (r: PollStep)
    requires
        delay <= LONGEST,
    ensures
        r@ == poll_step(status, body_view(body), delay),
        r matches PollStep::Again(d) ==> d <= LONGEST,
{
    if 200 <= status && status < 300 {
        return match parse_token_response(status, body) {
            Ok(t) => PollStep::Done(t),
            Err(e) => PollStep::Failed(e),
        };
    }
    let none = Json::Null;
    let json = match body {
        Ok(j) => j,
        Err(_) => &none,
    };
    let error = str_or(json, "error", "");
    if text::same(error, "authorization_pending") {
        PollStep::Again(delay)
    } else if text::same(error, "slow_down") {
        PollStep::Again(lengthen(delay, 5_000_000_000))
    } else if text::same(error, "expired_token") {
        PollStep::Failed(EwsError::OAuth("device code expired; restart the import".to_owned()))
    } else if text::same(error, "") {
        let code = text::decimal(status as u128);
        PollStep::Failed(EwsError::OAuth(text::joined("device code polling: http ", code.as_str())))
    } else {
        let tail = text::joined(": ", str_or(json, "error_description", ""));
        PollStep::Failed(EwsError::OAuth(text::joined3("device code polling: ", error, tail.as_str())))
    }
}

/// The error for a code that was not used in time.
pub fn code_expired() -> (r: EwsError)
    ensures
        r@ == EwsErrorView::OAuth("device code expired before the user completed sign-in"@),
{
    EwsError::OAuth("device code expired before the user completed sign-in".to_owned())
}

/// The request for a new token.
pub open spec fn refresh_request(client_id: Seq<char>, refresh_token: Seq<char>) -> Seq<char> {
    form_text(
        seq![
            ("client_id"@, client_id),
            ("grant_type"@, "refresh_token"@),
            ("refresh_token"@, refresh_token),
            ("scope"@, SCOPE_DELEGATED@),
        ],
    )
}

/// Where a new token is asked for, and with what request; see [`refresh_request`].
pub fn refresh_with_token(tenant: &str, client_id: &str, refresh_token: &str) -> (r: (String, String))
    ensures
        r.0@ == token_address(tenant@),
        r.1@ == refresh_request(client_id@, refresh_token@),
{
    let pairs = vec![
        ("client_id", client_id),
        ("grant_type", "refresh_token"),
        ("refresh_token", refresh_token),
        ("scope", SCOPE_DELEGATED),
    ];
    assert(pair_views(pairs@) =~= seq![
        ("client_id"@, client_id@),
        ("grant_type"@, "refresh_token"@),
        ("refresh_token"@, refresh_token@),
        ("scope"@, SCOPE_DELEGATED@),
    ]);
    (token_endpoint(tenant), form_encode(&pairs))
}

} // verus!
