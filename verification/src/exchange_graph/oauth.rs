//! Signing in to Graph: by a token that is at hand, or by a code that the user
//! enters elsewhere.

use vstd::prelude::*;
use vstd::string::*;

use crate::exchange_graph::error::{malformed, oauth, GraphError, GraphErrorView};
use crate::json::{Json, JsonView};
use crate::text;
use crate::web::{form_encode, form_text, get_u64, make_token, pair_views, token_with, u64_at, TokenView};

pub use crate::web::{decode_jwt_claims, AcquiredToken, JwtClaims};

verus! {

/// What access is asked for.
pub const SCOPES: &'static str =
    "offline_access User.Read Mail.Read MailboxSettings.Read Calendars.Read Contacts.Read";

/// The grant of a device code.
pub const DEVICE_CODE_GRANT: &'static str = "urn:ietf:params:oauth:grant-type:device_code";

/// The authority of a tenant.
pub fn default_authority(tenant: &str) -> (r: String)
    ensures
        r@ == "https://login.microsoftonline.com/"@ + tenant@,
{
    text::joined("https://login.microsoftonline.com/", tenant)
}

/// Where a device code is asked for.
pub fn device_code_endpoint(authority: &str) -> (r: String)
    ensures
        r@ == authority@ + "/oauth2/v2.0/devicecode"@,
{
    text::joined(authority, "/oauth2/v2.0/devicecode")
}

/// Where a token is asked for.
pub fn token_endpoint(authority: &str) -> (r: String)
    ensures
        r@ == authority@ + "/oauth2/v2.0/token"@,
{
    text::joined(authority, "/oauth2/v2.0/token")
}

/// How a token is acquired.
#[derive(Debug)]
pub enum OAuthFlow {
    PreAcquired { token: String },
    DeviceCode { authority: String, client_id: String },
}

/// A token, or the request for a device code that has to come first.
#[derive(Debug)]
pub enum Acquisition {
    Token(AcquiredToken),
    AskForCode { endpoint: String, body: String },
}

/// The request for a device code.
pub open spec fn code_request(client_id: Seq<char>) -> Seq<char> {
    form_text(seq![("client_id"@, client_id), ("scope"@, SCOPES@)])
}

/// How to begin: a token at hand is taken with the claims it makes, else a device
/// code is asked for.
pub fn acquire(flow: &OAuthFlow) -> (r: Acquisition)
    ensures
        match flow {
            OAuthFlow::PreAcquired { token } => r matches Acquisition::Token(t) && t@ == token_with(
                token@,
                None,
                None,
            ),
            OAuthFlow::DeviceCode { authority, client_id } => r matches Acquisition::AskForCode {
                endpoint,
                body,
            } && endpoint@ == authority@ + "/oauth2/v2.0/devicecode"@ && body@ == code_request(client_id@),
        },
{
    match flow {
        OAuthFlow::PreAcquired { token } => Acquisition::Token(make_token(token.as_str(), None, None)),
        OAuthFlow::DeviceCode { authority, client_id } => {
            let pairs = vec![("client_id", client_id.as_str()), ("scope", SCOPES)];
            assert(pair_views(pairs@) =~= seq![("client_id"@, client_id@), ("scope"@, SCOPES@)]);
            Acquisition::AskForCode {
                endpoint: device_code_endpoint(authority.as_str()),
                body: form_encode(&pairs),
            }
        },
    }
}

/// What the server says about a device code.
#[derive(Debug)]
pub struct DeviceCodeResponse {
    pub device_code: String,
    pub user_code: String,
    pub verification_uri: String,
    pub interval: u64,
    pub expires_in: u64,
    pub message: Option<String>,
}

/// The view of a [`DeviceCodeResponse`].
pub struct DeviceCodeView {
    pub device_code: Seq<char>,
    pub user_code: Seq<char>,
    pub verification_uri: Seq<char>,
    pub interval: u64,
    pub expires_in: u64,
    pub message: Option<Seq<char>>,
}

impl View for DeviceCodeResponse {
    type V = DeviceCodeView;

    open spec fn view(&self) -> DeviceCodeView {
        DeviceCodeView {
            device_code: self.device_code@,
            user_code: self.user_code@,
            verification_uri: self.verification_uri@,
            interval: self.interval,
            expires_in: self.expires_in,
            message: text::opt_text(self.message),
        }
    }
}

/// A text under a key, or another in its place.
pub open spec fn text_or(v: JsonView, k: Seq<char>, other: Seq<char>) -> Seq<char> {
    match v.text_at(k) {
        Some(t) => t,
        None => other,
    }
}

/// A number under a key, or another in its place.
pub open spec fn number_or(v: JsonView, k: Seq<char>, other: u64) -> u64 {
    match u64_at(v, k) {
        Some(n) => n,
        None => other,
    }
}

/// The device code in an answer. Only the code itself must be there.
pub open spec fn device_code_in(v: JsonView) -> Result<DeviceCodeView, GraphErrorView> {
    match v.text_at("device_code"@) {
        None => Err(GraphErrorView::OAuth("device_code missing"@)),
        Some(code) => Ok(
            DeviceCodeView {
                device_code: code,
                user_code: text_or(v, "user_code"@, "?"@),
                verification_uri: text_or(v, "verification_uri"@, "https://microsoft.com/devicelogin"@),
                interval: number_or(v, "interval"@, 5),
                expires_in: number_or(v, "expires_in"@, 900),
                message: v.text_at("message"@),
            },
        ),
    }
}

pub(crate) fn str_or<'a>(v: &'a Json, key: &str, other: &'a str) -> (r: &'a str)
    ensures
        r@ == text_or(v@, key@, other@),
{
    match v.str_at(key) {
        Some(t) => t,
        None => other,
    }
}

pub(crate) fn u64_or(v: &Json, key: &str, other: u64) -> (r: u64)
    ensures
        r == number_or(v@, key@, other),
{
    match get_u64(v, key) {
        Some(n) => n,
        None => other,
    }
}

/// See [`device_code_in`].
pub fn parse_device_code_response(json: &Json) -> (r: Result<DeviceCodeResponse, GraphError>)
    ensures
        match r {
            Ok(d) => device_code_in(json@) == Ok::<DeviceCodeView, GraphErrorView>(d@),
            Err(e) => device_code_in(json@) == Err::<DeviceCodeView, GraphErrorView>(e@),
        },
{
    match json.str_at("device_code") {
        None => Err(oauth("device_code missing")),
        Some(code) => Ok(
            DeviceCodeResponse {
                device_code: code.to_owned(),
                user_code: str_or(json, "user_code", "?").to_owned(),
                verification_uri: str_or(json, "verification_uri", "https://microsoft.com/devicelogin").to_owned(),
                interval: u64_or(json, "interval", 5),
                expires_in: u64_or(json, "expires_in", 900),
                message: text::owned(json.str_at("message")),
            },
        ),
    }
}

/// What the user is told: the server's own message, or where to go with the code.
pub open spec fn sign_in_prompt(d: DeviceCodeView) -> Seq<char> {
    match d.message {
        Some(m) => m,
        None => "To sign in, open "@ + d.verification_uri + (" and enter the code "@ + d.user_code),
    }
}

/// See [`sign_in_prompt`].
pub fn prompt(d: &DeviceCodeResponse) -> (r: String)
    ensures
        r@ == sign_in_prompt(d@),
{
    match &d.message {
        Some(m) => m.clone(),
        None => {
            let tail = text::joined(" and enter the code ", d.user_code.as_str());
            text::joined3("To sign in, open ", d.verification_uri.as_str(), tail.as_str())
        },
    }
}

/// What an answer to the request for a token says.
#[derive(Debug)]
pub enum TokenResponse {
    Token(AcquiredToken),
    Pending,
    SlowDown,
    Expired,
    Declined,
    BadCode,
    Other { error: String, description: String },
}

/// The view of a [`TokenResponse`].
pub enum TokenResponseView {
    Token(TokenView),
    Pending,
    SlowDown,
    Expired,
    Declined,
    BadCode,
    Other { error: Seq<char>, description: Seq<char> },
}

impl View for TokenResponse {
    type V = TokenResponseView;

    open spec fn view(&self) -> TokenResponseView {
        match self {
            TokenResponse::Token(t) => TokenResponseView::Token(t@),
            TokenResponse::Pending => TokenResponseView::Pending,
            TokenResponse::SlowDown => TokenResponseView::SlowDown,
            TokenResponse::Expired => TokenResponseView::Expired,
            TokenResponse::Declined => TokenResponseView::Declined,
            TokenResponse::BadCode => TokenResponseView::BadCode,
            TokenResponse::Other { error, description } => TokenResponseView::Other {
                error: error@,
                description: description@,
            },
        }
    }
}

/// What an answer to the request for a token says.
pub open spec fn token_response(status: u16, v: JsonView) -> TokenResponseView {
    if 200 <= status < 300 {
        match v.text_at("access_token"@) {
            None => TokenResponseView::Other { error: "missing_access_token"@, description: Seq::empty() },
            Some(access) => TokenResponseView::Token(
                token_with(access, v.text_at("refresh_token"@), u64_at(v, "expires_in"@)),
            ),
        }
    } else {
        let error = text_or(v, "error"@, ""@);
        if error == "authorization_pending"@ {
            TokenResponseView::Pending
        } else if error == "slow_down"@ {
            TokenResponseView::SlowDown
        } else if error == "expired_token"@ {
            TokenResponseView::Expired
        } else if error == "authorization_declined"@ {
            TokenResponseView::Declined
        } else if error == "bad_verification_code"@ {
            TokenResponseView::BadCode
        } else {
            TokenResponseView::Other { error, description: text_or(v, "error_description"@, ""@) }
        }
    }
}

/// See [`token_response`].
pub fn parse_token_response(status: u16, json: &Json) -> (r: TokenResponse)
    ensures
        r@ == token_response(status, json@),
{
    if 200 <= status && status < 300 {
        return match json.str_at("access_token") {
            None => TokenResponse::Other {
                error: "missing_access_token".to_owned(),
                description: String::new(),
            },
            Some(access) => TokenResponse::Token(
                make_token(access, json.str_at("refresh_token"), get_u64(json, "expires_in")),
            ),
        };
    }
    let error = str_or(json, "error", "");
    if text::same(error, "authorization_pending") {
        TokenResponse::Pending
    } else if text::same(error, "slow_down") {
        TokenResponse::SlowDown
    } else if text::same(error, "expired_token") {
        TokenResponse::Expired
    } else if text::same(error, "authorization_declined") {
        TokenResponse::Declined
    } else if text::same(error, "bad_verification_code") {
        TokenResponse::BadCode
    } else {
        TokenResponse::Other {
            error: error.to_owned(),
            description: str_or(json, "error_description", "").to_owned(),
        }
    }
}

/// The request that asks whether the user has signed in.
pub open spec fn poll_request(client_id: Seq<char>, device_code: Seq<char>) -> Seq<char> {
    form_text(
        seq![
            ("client_id"@, client_id),
            ("grant_type"@, DEVICE_CODE_GRANT@),
            ("device_code"@, device_code),
        ],
    )
}

/// See [`poll_request`].
pub fn poll_body(client_id: &str, device_code: &str) -> (r: String)
    ensures
        r@ == poll_request(client_id@, device_code@),
{
    let pairs = vec![
        ("client_id", client_id),
        ("grant_type", DEVICE_CODE_GRANT),
        ("device_code", device_code),
    ];
    assert(pair_views(pairs@) =~= seq![
        ("client_id"@, client_id@),
        ("grant_type"@, DEVICE_CODE_GRANT@),
        ("device_code"@, device_code@),
    ]);
    form_encode(&pairs)
}

/// The longest time to wait, in nanoseconds.
pub const LONGEST: u128 = 18_446_744_073_709_551_615_999_999_999;

/// A time to wait in nanoseconds, made longer, up to the longest.
pub open spec fn longer(delay: u128, by: u128) -> int {
    if delay + by > LONGEST {
        LONGEST as int
    } else {
        delay + by
    }
}

pub(crate) fn lengthen(delay: u128, by: u128) -> (r: u128)
    requires
        delay <= LONGEST,
        by <= LONGEST,
    ensures
        r == longer(delay, by),
        r <= LONGEST,
{
    if delay + by > LONGEST {
        LONGEST
    } else {
        delay + by
    }
}

/// What follows from an answer while the user is signing in.
#[derive(Debug)]
pub enum PollStep {
    /// Ask again after this many nanoseconds.
    Again(u128),
    Done(AcquiredToken),
    Failed(GraphError),
}

/// The view of a [`PollStep`].
pub enum PollStepView {
    Again(int),
    Done(TokenView),
    Failed(GraphErrorView),
}

impl View for PollStep {
    type V = PollStepView;

    open spec fn view(&self) -> PollStepView {
        match self {
            PollStep::Again(d) => PollStepView::Again(*d as int),
            PollStep::Done(t) => PollStepView::Done(t@),
            PollStep::Failed(e) => PollStepView::Failed(e@),
        }
    }
}

/// The messages of a way of polling.
pub struct PollMessages {
    pub expired: &'static str,
    pub declined: &'static str,
    pub other: &'static str,
}

/// What follows from an answer; `by` is added to the time between questions when
/// the server asks for more of it.
pub open spec fn poll_step(
    response: TokenResponseView,
    delay: u128,
    by: u128,
    messages: PollMessages,
) -> PollStepView {
    match response {
        TokenResponseView::Token(t) => PollStepView::Done(t),
        TokenResponseView::Pending => PollStepView::Again(delay as int),
        TokenResponseView::SlowDown => PollStepView::Again(longer(delay, by)),
        TokenResponseView::Expired => PollStepView::Failed(GraphErrorView::OAuth(messages.expired@)),
        TokenResponseView::Declined => PollStepView::Failed(GraphErrorView::OAuth(messages.declined@)),
        TokenResponseView::BadCode => PollStepView::Failed(GraphErrorView::OAuth("device code rejected"@)),
        TokenResponseView::Other { error, description } => PollStepView::Failed(
            GraphErrorView::OAuth(messages.other@ + error + (": "@ + description)),
        ),
    }
}

fn poll(response: TokenResponse, delay: u128, by: u128, messages: PollMessages) -> (r: PollStep)
    requires
        delay <= LONGEST,
        by <= LONGEST,
    ensures
        r@ == poll_step(response@, delay, by, messages),
        r matches PollStep::Again(d) ==> d <= LONGEST,
{
    match response {
        TokenResponse::Token(t) => PollStep::Done(t),
        TokenResponse::Pending => PollStep::Again(delay),
        TokenResponse::SlowDown => PollStep::Again(lengthen(delay, by)),
        TokenResponse::Expired => PollStep::Failed(oauth(messages.expired)),
        TokenResponse::Declined => PollStep::Failed(oauth(messages.declined)),
        TokenResponse::BadCode => PollStep::Failed(oauth("device code rejected")),
        TokenResponse::Other { error, description } => {
            let tail = text::joined(": ", description.as_str());
            PollStep::Failed(GraphError::OAuth(text::joined3(messages.other, error.as_str(), tail.as_str())))
        },
    }
}

/// The error for a code that was not used in time.
pub fn code_expired() -> (r: GraphError)
    ensures
        r@ == GraphErrorView::OAuth("device code expired before user completed sign-in"@),
{
    oauth("device code expired before user completed sign-in")
}

/// The time, in nanoseconds, before the first question after a code; `interval`
/// is the server's, in seconds.
pub fn first_delay(interval: u64) -> (r: u128)
    ensures
        r == interval * 1_000_000_000,
        r <= LONGEST,
{
    interval as u128 * 1_000_000_000
}

/// Whether a code may still be asked after, `elapsed_nanos` after it was given
/// out for `expires_in` seconds. While a user signs in, that is asked after each
/// wait and before each question; see [`code_expired`] for the error otherwise.
pub fn poll_allowed(elapsed_nanos: u128, expires_in: u64) -> (r: bool)
    ensures
        r <==> elapsed_nanos < expires_in * 1_000_000_000,
{
    elapsed_nanos < expires_in as u128 * 1_000_000_000
}

/// The time, in nanoseconds, before the first question where the questions are put
/// by other means.
pub const POLLING_DELAY: u128 = 20_000_000;

/// Whether a code may still be asked after where the questions are put by other
/// means. It is then good for a second at least, and this is asked before each
/// wait.
pub fn polling_allowed(elapsed_nanos: u128, expires_in: u64) -> (r: bool)
    ensures
        r <==> elapsed_nanos < (if expires_in == 0 {
            1
        } else {
            expires_in
        }) * 1_000_000_000,
{
    let good_for: u64 = if expires_in == 0 {
        1
    } else {
        expires_in
    };
    poll_allowed(elapsed_nanos, good_for)
}

/// The messages while a user signs in.
pub open spec fn flow_messages() -> PollMessages {
    PollMessages {
        expired: "device code expired; restart the import",
        declined: "the user declined the device-code sign-in request",
        other: "device code polling: ",
    }
}

/// What follows from an answer while the user signs in: the server may ask for
/// five seconds more between questions.
pub fn device_code_flow(status: u16, payload: &Json, delay: u128) -> (r: PollStep)
    requires
        delay <= LONGEST,
    ensures
        r@ == poll_step(token_response(status, payload@), delay, 5_000_000_000, flow_messages()),
        r matches PollStep::Again(d) ==> d <= LONGEST,
{
    poll(
        parse_token_response(status, payload),
        delay,
        5_000_000_000,
        PollMessages {
            expired: "device code expired; restart the import",
            declined: "the user declined the device-code sign-in request",
            other: "device code polling: ",
        },
    )
}

/// The messages while polling goes on by other means.
pub open spec fn polling_messages() -> PollMessages {
    PollMessages { expired: "device code expired", declined: "device code declined by user", other: "" }
}

/// What follows from an answer where the questions are put by other means: the
/// server may ask for twenty milliseconds more between them.
pub fn run_device_code_polling_against(status: u16, payload: &Json, delay: u128) -> (r: PollStep)
    requires
        delay <= LONGEST,
    ensures
        r@ == poll_step(token_response(status, payload@), delay, 20_000_000, polling_messages()),
        r matches PollStep::Again(d) ==> d <= LONGEST,
{
    poll(
        parse_token_response(status, payload),
        delay,
        20_000_000,
        PollMessages {
            expired: "device code expired",
            declined: "device code declined by user",
            other: "",
        },
    )
}

/// While the user signs in, the time between questions never gets shorter.
pub proof fn polling_never_speeds_up(response: TokenResponseView, delay: u128, by: u128, messages: PollMessages)
    requires
        delay <= LONGEST,
    ensures
        poll_step(response, delay, by, messages) matches PollStepView::Again(d) ==> delay <= d,
{
}

/// A token is given out only by an answer that says so.
pub proof fn tokens_come_with_success(
    status: u16,
    payload: JsonView,
    delay: u128,
    by: u128,
    messages: PollMessages,
)
    ensures
        poll_step(token_response(status, payload), delay, by, messages) is Done <==> 200 <= status < 300
            && payload.text_at("access_token"@) is Some,
{
}

/// The token in a file's text: what is left without the whitespace around it, and
/// never nothing.
pub fn read_token_file(raw: &str) -> (r: Result<String, GraphError>)
    ensures
        match r {
            Ok(t) => t@ == text::trim_text(raw@) && t@.len() > 0,
            Err(e) => text::trim_text(raw@).len() == 0 && e@ == GraphErrorView::Malformed("token file is empty"@),
        },
{
    let token = text::trim(raw);
    if token.as_str().is_empty() {
        Err(malformed("token file is empty"))
    } else {
        Ok(token)
    }
}

/// The request for a new token.
pub open spec fn refresh_request(client_id: Seq<char>, refresh_token: Seq<char>) -> Seq<char> {
    form_text(
        seq![
            ("client_id"@, client_id),
            ("grant_type"@, "refresh_token"@),
            ("refresh_token"@, refresh_token),
            ("scope"@, SCOPES@),
        ],
    )
}

/// See [`refresh_request`].
pub fn refresh_body(client_id: &str, refresh_token: &str) -> (r: String)
    ensures
        r@ == refresh_request(client_id@, refresh_token@),
{
    let pairs = vec![
        ("client_id", client_id),
        ("grant_type", "refresh_token"),
        ("refresh_token", refresh_token),
        ("scope", SCOPES),
    ];
    assert(pair_views(pairs@) =~= seq![
        ("client_id"@, client_id@),
        ("grant_type"@, "refresh_token"@),
        ("refresh_token"@, refresh_token@),
        ("scope"@, SCOPES@),
    ]);
    form_encode(&pairs)
}

/// How often a new token has been asked for, and the time to wait before the next
/// attempt, in milliseconds.
#[derive(Debug, Clone, Copy, PartialEq, Eq, Structural)]
pub struct RefreshTries {
    pub attempts: u32,
    pub delay_ms: u64,
}

impl RefreshTries {
    /// No attempt yet.
    pub fn begin() -> (r: RefreshTries)
        ensures
            r == (RefreshTries { attempts: 0, delay_ms: 500 }),
    {
        RefreshTries { attempts: 0, delay_ms: 500 }
    }

    /// Whether a value is one that the attempts come to.
    pub open spec fn wf(self) -> bool {
        self.attempts < 4 && self.delay_ms <= 8000
    }
}

/// How an attempt went.
pub enum RefreshEvent<'a> {
    SendFailed(&'a str),
    Answered(u16, &'a Json),
}

/// What to do next.
#[derive(Debug)]
pub enum RefreshStep {
    /// Wait for this many milliseconds, and try again.
    Retry(u64, RefreshTries),
    Done(AcquiredToken),
    Failed(GraphError),
}

/// How a response other than a token is shown.
pub open spec fn response_shown(r: TokenResponseView) -> Seq<char> {
    match r {
        TokenResponseView::Token(_) => ""@,
        TokenResponseView::Pending => "Pending"@,
        TokenResponseView::SlowDown => "SlowDown"@,
        TokenResponseView::Expired => "Expired"@,
        TokenResponseView::Declined => "Declined"@,
        TokenResponseView::BadCode => "BadCode"@,
        TokenResponseView::Other { error, description } => "Other { error: "@ + text::debug_text(error) + (
        ", description: "@ + text::debug_text(description) + " }"@),
    }
}

fn show_response(r: &TokenResponse) -> (s: String)
    ensures
        s@ == response_shown(r@),
{
    match r {
        TokenResponse::Token(_) => "".to_owned(),
        TokenResponse::Pending => "Pending".to_owned(),
        TokenResponse::SlowDown => "SlowDown".to_owned(),
        TokenResponse::Expired => "Expired".to_owned(),
        TokenResponse::Declined => "Declined".to_owned(),
        TokenResponse::BadCode => "BadCode".to_owned(),
        TokenResponse::Other { error, description } => {
            let e = text::quoted(error.as_str());
            let d = text::quoted(description.as_str());
            let tail = text::joined3(", description: ", d.as_str(), " }");
            text::joined3("Other { error: ", e.as_str(), tail.as_str())
        },
    }
}

/// Whether an attempt is worth repeating: it did not reach the server, or the
/// server was at fault, and it was not the fourth.
pub open spec fn repeats(n: RefreshTries, event: RefreshEvent) -> bool {
    n.attempts + 1 < 4 && match event {
        RefreshEvent::SendFailed(_) => true,
        RefreshEvent::Answered(status, _) => 500 <= status <= 599,
    }
}

/// The attempts after one more.
pub open spec fn tried(n: RefreshTries) -> RefreshTries {
    RefreshTries {
        attempts: (n.attempts + 1) as u32,
        delay_ms: if n.delay_ms * 2 > 8000 {
            8000
        } else {
            (n.delay_ms * 2) as u64
        },
    }
}

/// Decides what follows from an attempt to get a new token.
pub fn refresh_access_token(n: RefreshTries, event: RefreshEvent) -> (r: RefreshStep)
    requires
        n.wf(),
    ensures
        repeats(n, event) ==> r == RefreshStep::Retry(n.delay_ms, tried(n)) && tried(n).wf(),
        !repeats(n, event) ==> match event {
            RefreshEvent::SendFailed(shown) => r matches RefreshStep::Failed(e) && e@ == GraphErrorView::OAuth(
                "refresh endpoint: "@ + shown@,
            ),
            RefreshEvent::Answered(status, json) => match token_response(status, json@) {
                TokenResponseView::Token(t) => r matches RefreshStep::Done(x) && x@ == t,
                other => r matches RefreshStep::Failed(e) && e@ == GraphErrorView::OAuth(
                    "refresh failed (http "@ + text::decimal_text(status as nat) + ("): "@ + response_shown(
                        other,
                    )),
                ),
            },
        },
{
    let again = n.attempts + 1 < 4;
    let doubled: u64 = n.delay_ms * 2;
    let next = RefreshTries {
        attempts: n.attempts + 1,
        delay_ms: if doubled > 8000 {
            8000
        } else {
            doubled
        },
    };
    match event {
        RefreshEvent::SendFailed(shown) => if again {
            RefreshStep::Retry(n.delay_ms, next)
        } else {
            RefreshStep::Failed(GraphError::OAuth(text::joined("refresh endpoint: ", shown)))
        },
        RefreshEvent::Answered(status, json) => {
            if again && status >= 500 && status <= 599 {
                return RefreshStep::Retry(n.delay_ms, next);
            }
            match parse_token_response(status, json) {
                TokenResponse::Token(t) => RefreshStep::Done(t),
                other => {
                    let code = text::decimal(status as u128);
                    let tail = text::joined("): ", show_response(&other).as_str());
                    RefreshStep::Failed(
                        GraphError::OAuth(
                            text::joined3("refresh failed (http ", code.as_str(), tail.as_str()),
                        ),
                    )
                },
            }
        },
    }
}

/// A new token is asked for four times at most.
pub proof fn refreshing_ends(n: RefreshTries, event: RefreshEvent)
    requires
        n.wf(),
        repeats(n, event),
    ensures
        tried(n).wf(),
        n.attempts < tried(n).attempts < 4,
{
}

} // verus!
