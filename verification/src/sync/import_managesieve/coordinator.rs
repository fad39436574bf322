//! The course of an import: where to connect, how to sign in, when to try again,
//! and what becomes of each script.

use vstd::prelude::*;
use vstd::string::*;

use crate::address::{parse_url, url_parse, UrlView};
use crate::error::{Error, ErrorView};
use crate::text;
use crate::types::TypeCounts;

verus! {

/// What an import is asked to do.
pub struct ManageSieveImportConfig {
    pub url: String,
    pub auth: ManageSieveAuth,
    pub allow_cleartext: bool,
    pub allow_source_change: bool,
}

/// How to sign in.
#[derive(Debug)]
pub enum ManageSieveAuth {
    Basic { user: String, password: String },
    Bearer { user: String, token: String },
}

/// Where the server listens.
#[derive(Debug)]
pub struct Endpoint {
    pub host: String,
    pub port: u16,
    pub implicit_tls: bool,
}

/// The view of an [`Endpoint`].
pub struct EndpointView {
    pub host: Seq<char>,
    pub port: u16,
    pub implicit_tls: bool,
}

impl View for Endpoint {
    type V = EndpointView;

    open spec fn view(&self) -> EndpointView {
        EndpointView { host: self.host@, port: self.port, implicit_tls: self.implicit_tls }
    }
}

/// The port of ManageSieve.
pub const DEFAULT_PORT: u16 = 4190;

/// The endpoint that a URL names, given what became of taking it apart.
pub open spec fn endpoint_of(url: Seq<char>, parsed: Result<UrlView, Seq<char>>) -> Result<
    EndpointView,
    ErrorView,
> {
    match parsed {
        Err(e) => Err(ErrorView::Usage("invalid --url "@ + text::debug_text(url) + (": "@ + e))),
        Ok(u) => if u.scheme != "sieves"@ && u.scheme != "sieve"@ {
            Err(ErrorView::Usage("--url scheme must be sieve or sieves, got "@ + u.scheme))
        } else {
            match u.host {
                None => Err(ErrorView::Usage("--url missing host: "@ + url)),
                Some(h) => Ok(
                    EndpointView {
                        host: h,
                        port: match u.port {
                            Some(p) => p,
                            None => DEFAULT_PORT,
                        },
                        implicit_tls: u.scheme == "sieves"@,
                    },
                ),
            }
        },
    }
}

/// The endpoint for the parts of a URL that has been taken apart.
pub fn endpoint_from(url: &str, scheme: &str, host: Option<&str>, port: Option<u16>) -> (r: Result<
    Endpoint,
    Error,
>)
    ensures
        forall|u: UrlView|
            u.scheme == scheme@ && u.host == text::opt_str(host) && u.port == port ==> (match r {
                Ok(x) => #[trigger] endpoint_of(url@, Ok(u)) == Ok::<EndpointView, ErrorView>(x@),
                Err(e) => endpoint_of(url@, Ok(u)) == Err::<EndpointView, ErrorView>(e@),
            }),
{
    let implicit_tls = text::same(scheme, "sieves");
    if !implicit_tls && !text::same(scheme, "sieve") {
        return Err(Error::Usage(text::joined("--url scheme must be sieve or sieves, got ", scheme)));
    }
    match host {
        None => Err(Error::Usage(text::joined("--url missing host: ", url))),
        Some(h) => {
            let port: u16 = match port {
                Some(p) => p,
                None => DEFAULT_PORT,
            };
            Ok(Endpoint { host: h.to_owned(), port, implicit_tls })
        },
    }
}

/// Reads the endpoint from a URL: `sieves` for TLS from the start, `sieve` for
/// TLS on request. See [`endpoint_of`].
pub fn parse_endpoint(url: &str) -> (r: Result<Endpoint, Error>)
    ensures
        match r {
            Ok(x) => endpoint_of(url@, url_parse(url@)) == Ok::<EndpointView, ErrorView>(x@),
            Err(e) => endpoint_of(url@, url_parse(url@)) == Err::<EndpointView, ErrorView>(e@),
        },
{
    match parse_url(url) {
        Err(e) => {
            let shown = text::quoted(url);
            let tail = text::joined(": ", e.as_str());
            Err(Error::Usage(text::joined3("invalid --url ", shown.as_str(), tail.as_str())))
        },
        Ok(u) => {
            let r = endpoint_from(url, u.scheme.as_str(), text::borrowed(&u.host), u.port);
            assert(endpoint_of(url@, Ok(u@)) == endpoint_of(url@, url_parse(url@)));
            r
        },
    }
}

/// The address under which the archive knows a server.
pub open spec fn session_address(e: EndpointView) -> Seq<char> {
    (if e.implicit_tls {
        "sieves"@
    } else {
        "sieve"@
    }) + "://"@ + (e.host + ":"@ + text::decimal_text(e.port as nat))
}

/// See [`session_address`].
pub fn session_url(e: &Endpoint) -> (r: String)
    ensures
        r@ == session_address(e@),
{
    let port = text::decimal(e.port as u128);
    let place = text::joined3(e.host.as_str(), ":", port.as_str());
    let scheme = if e.implicit_tls {
        "sieves"
    } else {
        "sieve"
    };
    text::joined3(scheme, "://", place.as_str())
}

/// How a connection is secured.
#[derive(Debug, Clone, Copy, PartialEq, Eq, Structural)]
pub enum ConnectMode {
    ImplicitTls,
    StartTls,
}

/// How a connection to an endpoint is secured.
pub fn connect_mode(e: &Endpoint) -> (r: ConnectMode)
    ensures
        r == if e.implicit_tls {
            ConnectMode::ImplicitTls
        } else {
            ConnectMode::StartTls
        },
{
    if e.implicit_tls {
        ConnectMode::ImplicitTls
    } else {
        ConnectMode::StartTls
    }
}

/// The user who signs in.
pub open spec fn user_of(auth: ManageSieveAuth) -> Seq<char> {
    match auth {
        ManageSieveAuth::Basic { user, .. } => user@,
        ManageSieveAuth::Bearer { user, .. } => user@,
    }
}

/// The account is named after the user who signs in.
pub fn account_id_for(auth: &ManageSieveAuth) -> (r: String)
    ensures
        r@ == user_of(*auth),
{
    match auth {
        ManageSieveAuth::Basic { user, .. } => user.clone(),
        ManageSieveAuth::Bearer { user, .. } => user.clone(),
    }
}

/// A way of signing in.
#[derive(Debug, Clone, Copy, PartialEq, Eq, Structural)]
pub enum Mechanism {
    Plain,
    Login,
    OAuthBearer,
}

/// The ways of signing in that the server offers, and how it lists them.
pub struct Offers {
    pub plain: bool,
    pub login: bool,
    pub oauthbearer: bool,
    pub advertised: String,
}

/// How an attempt to sign in went.
#[derive(Debug)]
pub enum Attempt {
    Accepted,
    /// The server turned this way of signing in down.
    Declined(String),
    /// The attempt failed for another reason.
    Failed(String),
}

/// The view of an [`Attempt`].
pub enum AttemptView {
    Accepted,
    Declined(Seq<char>),
    Failed(Seq<char>),
}

impl View for Attempt {
    type V = AttemptView;

    open spec fn view(&self) -> AttemptView {
        match self {
            Attempt::Accepted => AttemptView::Accepted,
            Attempt::Declined(t) => AttemptView::Declined(t@),
            Attempt::Failed(t) => AttemptView::Failed(t@),
        }
    }
}

/// What to do next about signing in.
#[derive(Debug)]
pub enum AuthStep {
    Try(Mechanism),
    SignedIn,
    TerminallyRefused(String),
    NoUsableMechanism(String),
    Wire(String),
}

/// The view of an [`AuthStep`].
pub enum AuthStepView {
    Try(Mechanism),
    SignedIn,
    TerminallyRefused(Seq<char>),
    NoUsableMechanism(Seq<char>),
    Wire(Seq<char>),
}

impl View for AuthStep {
    type V = AuthStepView;

    open spec fn view(&self) -> AuthStepView {
        match self {
            AuthStep::Try(m) => AuthStepView::Try(*m),
            AuthStep::SignedIn => AuthStepView::SignedIn,
            AuthStep::TerminallyRefused(t) => AuthStepView::TerminallyRefused(t@),
            AuthStep::NoUsableMechanism(t) => AuthStepView::NoUsableMechanism(t@),
            AuthStep::Wire(t) => AuthStepView::Wire(t@),
        }
    }
}

/// The view of an attempt that may not have been made.
pub open spec fn opt_attempt(a: Option<&Attempt>) -> Option<AttemptView> {
    match a {
        Some(x) => Some(x@),
        None => None,
    }
}

/// The next step with a password once PLAIN is out of the question: `declined`
/// is what the server said about it, if it was tried.
pub open spec fn login_step(offers: Offers, declined: Option<Seq<char>>, login: Option<AttemptView>) -> AuthStepView {
    if offers.login {
        match login {
            None => AuthStepView::Try(Mechanism::Login),
            Some(AttemptView::Accepted) => AuthStepView::SignedIn,
            Some(AttemptView::Declined(e)) => AuthStepView::TerminallyRefused(
                match declined {
                    Some(p) => "LOGIN: "@ + e + ("; PLAIN: "@ + p),
                    None => "LOGIN: "@ + e,
                },
            ),
            Some(AttemptView::Failed(e)) => AuthStepView::Wire(e),
        }
    } else {
        match declined {
            Some(p) => AuthStepView::TerminallyRefused("PLAIN: "@ + p),
            None => AuthStepView::NoUsableMechanism(
                "server SASL list lacks PLAIN and LOGIN (advertised: "@ + offers.advertised@ + ")"@,
            ),
        }
    }
}

/// The next step with a password: PLAIN is tried first, LOGIN where the server
/// declines PLAIN or does not offer it.
pub open spec fn basic_step(offers: Offers, plain: Option<AttemptView>, login: Option<AttemptView>) -> AuthStepView {
    if offers.plain {
        match plain {
            None => AuthStepView::Try(Mechanism::Plain),
            Some(AttemptView::Accepted) => AuthStepView::SignedIn,
            Some(AttemptView::Failed(e)) => AuthStepView::Wire(e),
            Some(AttemptView::Declined(p)) => login_step(offers, Some(p), login),
        }
    } else {
        login_step(offers, None, login)
    }
}

/// The next step with a token.
pub open spec fn bearer_step(offers: Offers, bearer: Option<AttemptView>) -> AuthStepView {
    if !offers.oauthbearer {
        AuthStepView::NoUsableMechanism(
            "server does not advertise OAUTHBEARER (advertised: "@ + offers.advertised@ + ")"@,
        )
    } else {
        match bearer {
            None => AuthStepView::Try(Mechanism::OAuthBearer),
            Some(AttemptView::Accepted) => AuthStepView::SignedIn,
            Some(AttemptView::Declined(e)) => AuthStepView::TerminallyRefused("OAUTHBEARER: "@ + e),
            Some(AttemptView::Failed(e)) => AuthStepView::Wire(e),
        }
    }
}

/// The next step, given what has been tried so far. `first` is the attempt with
/// PLAIN, or with OAUTHBEARER where there is a token; `second` is the attempt with
/// LOGIN, whether or not PLAIN was tried before it.
pub open spec fn auth_step(
    auth: ManageSieveAuth,
    offers: Offers,
    first: Option<AttemptView>,
    second: Option<AttemptView>,
) -> AuthStepView {
    match auth {
        ManageSieveAuth::Basic { .. } => basic_step(offers, first, second),
        ManageSieveAuth::Bearer { .. } => bearer_step(offers, first),
    }
}

fn after_plain(offers: &Offers, declined: Option<&str>, login: Option<&Attempt>) -> (r: AuthStep)
    ensures
        r@ == login_step(*offers, text::opt_str(declined), opt_attempt(login)),
{
    if offers.login {
        match login {
            None => AuthStep::Try(Mechanism::Login),
            Some(Attempt::Accepted) => AuthStep::SignedIn,
            Some(Attempt::Declined(e)) => {
                let head = text::joined("LOGIN: ", e.as_str());
                match declined {
                    Some(p) => {
                        let tail = text::joined("; PLAIN: ", p);
                        AuthStep::TerminallyRefused(text::joined(head.as_str(), tail.as_str()))
                    },
                    None => AuthStep::TerminallyRefused(head),
                }
            },
            Some(Attempt::Failed(e)) => AuthStep::Wire(e.clone()),
        }
    } else {
        match declined {
            Some(p) => AuthStep::TerminallyRefused(text::joined("PLAIN: ", p)),
            None => AuthStep::NoUsableMechanism(
                text::joined3(
                    "server SASL list lacks PLAIN and LOGIN (advertised: ",
                    offers.advertised.as_str(),
                    ")",
                ),
            ),
        }
    }
}

/// Decides how to go on with signing in; see [`auth_step`], also for which attempt
/// is `first` and which is `second`.
pub fn do_authenticate(
    auth: &ManageSieveAuth,
    offers: &Offers,
    first: Option<&Attempt>,
    second: Option<&Attempt>,
) -> (r: AuthStep)
    ensures
        r@ == auth_step(*auth, *offers, opt_attempt(first), opt_attempt(second)),
{
    match auth {
        ManageSieveAuth::Basic { .. } => if offers.plain {
            match first {
                None => AuthStep::Try(Mechanism::Plain),
                Some(Attempt::Accepted) => AuthStep::SignedIn,
                Some(Attempt::Failed(e)) => AuthStep::Wire(e.clone()),
                Some(Attempt::Declined(p)) => after_plain(offers, Some(p.as_str()), second),
            }
        } else {
            after_plain(offers, None, second)
        },
        ManageSieveAuth::Bearer { .. } => if !offers.oauthbearer {
            AuthStep::NoUsableMechanism(
                text::joined3(
                    "server does not advertise OAUTHBEARER (advertised: ",
                    offers.advertised.as_str(),
                    ")",
                ),
            )
        } else {
            match first {
                None => AuthStep::Try(Mechanism::OAuthBearer),
                Some(Attempt::Accepted) => AuthStep::SignedIn,
                Some(Attempt::Declined(e)) => AuthStep::TerminallyRefused(
                    text::joined("OAUTHBEARER: ", e.as_str()),
                ),
                Some(Attempt::Failed(e)) => AuthStep::Wire(e.clone()),
            }
        },
    }
}

/// Only ways of signing in that the server offers and that suit the credentials
/// are tried, and no way twice.
pub proof fn only_offered_mechanisms_are_tried(
    auth: ManageSieveAuth,
    offers: Offers,
    first: Option<AttemptView>,
    second: Option<AttemptView>,
)
    ensures
        match auth_step(auth, offers, first, second) {
            AuthStepView::Try(Mechanism::Plain) => auth is Basic && offers.plain && first is None,
            AuthStepView::Try(Mechanism::Login) => auth is Basic && offers.login && second is None,
            AuthStepView::Try(Mechanism::OAuthBearer) => auth is Bearer && offers.oauthbearer && first is None,
            _ => true,
        },
        first is Some && second is Some ==> !(auth_step(auth, offers, first, second) is Try),
{
}

/// Signing in succeeds only where the server accepted an attempt.
pub proof fn signing_in_takes_an_acceptance(
    auth: ManageSieveAuth,
    offers: Offers,
    first: Option<AttemptView>,
    second: Option<AttemptView>,
)
    ensures
        auth_step(auth, offers, first, second) is SignedIn ==> first == Some(AttemptView::Accepted) || second
            == Some(AttemptView::Accepted),
{
}

/// What becomes of the run once signing in has ended.
pub open spec fn auth_outcome(auth: ManageSieveAuth, step: AuthStepView) -> Result<Seq<char>, ErrorView> {
    match step {
        AuthStepView::TerminallyRefused(t) => Err(ErrorView::Connection("auth failed: "@ + t)),
        AuthStepView::NoUsableMechanism(t) => Err(ErrorView::Connection(t)),
        AuthStepView::Wire(t) => Err(ErrorView::Connection(t)),
        _ => Ok(user_of(auth)),
    }
}

/// The account that was signed in to, or the error that ends the run.
pub fn authenticate(auth: &ManageSieveAuth, step: AuthStep) -> (r: Result<String, Error>)
    requires
        !(step is Try),
    ensures
        match r {
            Ok(a) => auth_outcome(*auth, step@) == Ok::<Seq<char>, ErrorView>(a@),
            Err(e) => auth_outcome(*auth, step@) == Err::<Seq<char>, ErrorView>(e@),
        },
{
    match step {
        AuthStep::TerminallyRefused(t) => Err(Error::Connection(text::joined("auth failed: ", t.as_str()))),
        AuthStep::NoUsableMechanism(t) => Err(Error::Connection(t)),
        AuthStep::Wire(t) => Err(Error::Connection(t)),
        _ => Ok(account_id_for(auth)),
    }
}

/// Why a lost connection could not be made again.
#[derive(Debug)]
pub enum ReconnectFailure {
    Wire(String),
    Protocol(String),
    Unsupported(String),
}

/// What signing in again after a lost connection came to.
pub fn reconnect(step: AuthStep) -> (r: Result<(), ReconnectFailure>)
    requires
        !(step is Try),
    ensures
        match step@ {
            AuthStepView::SignedIn => r is Ok,
            AuthStepView::Wire(t) => r matches Err(ReconnectFailure::Wire(x)) && x@ == t,
            AuthStepView::TerminallyRefused(t) => r matches Err(ReconnectFailure::Protocol(x)) && x@
                == "auth refused on reconnect: "@ + t,
            AuthStepView::NoUsableMechanism(t) => r matches Err(ReconnectFailure::Unsupported(x)) && x@ == t,
            _ => true,
        },
{
    match step {
        AuthStep::Wire(t) => Err(ReconnectFailure::Wire(t)),
        AuthStep::TerminallyRefused(t) => Err(
            ReconnectFailure::Protocol(text::joined("auth refused on reconnect: ", t.as_str())),
        ),
        AuthStep::NoUsableMechanism(t) => Err(ReconnectFailure::Unsupported(t)),
        _ => Ok(()),
    }
}

/// The error for an archive that holds scripts of another source.
pub open spec fn source_conflict(url: Seq<char>, account: Seq<char>) -> Seq<char> {
    "archive already records managesieve source "@ + url + (" / "@ + account
        + "; re-run with --allow-source-change or use a fresh archive"@)
}

/// Whether the import may go on, given the other source that the archive records.
pub fn check_source(existing: Option<(&str, &str)>, allow_source_change: bool) -> (r: Result<(), Error>)
    ensures
        match existing {
            Some((url, account)) if !allow_source_change => r matches Err(e) && e@ == ErrorView::SourceChange(
                source_conflict(url@, account@),
            ),
            _ => r is Ok,
        },
{
    match existing {
        Some((url, account)) if !allow_source_change => {
            let tail = text::joined3(
                " / ",
                account,
                "; re-run with --allow-source-change or use a fresh archive",
            );
            Err(
                Error::SourceChange(
                    text::joined3("archive already records managesieve source ", url, tail.as_str()),
                ),
            )
        },
        _ => Ok(()),
    }
}

/// What kind of failure a command met.
#[derive(Debug, Clone, Copy, PartialEq, Eq, Structural)]
pub enum Disposition {
    Transient,
    TransportDrop,
    Referral,
    Permanent,
    PerScriptRecoverable,
    FeatureNegotiation,
}

/// How often a command has been tried again.
#[derive(Debug, Clone, Copy, PartialEq, Eq, Structural)]
pub struct Retries {
    pub transient: u32,
    pub transport: u32,
}

impl Retries {
    /// No attempt was repeated yet.
    pub fn begin() -> (r: Retries)
        ensures
            r == (Retries { transient: 0, transport: 0 }),
    {
        Retries { transient: 0, transport: 0 }
    }
}

/// What to do about a failed command.
#[derive(Debug, Clone, Copy, PartialEq, Eq, Structural)]
pub enum RetryStep {
    /// Wait and send the command again.
    Wait(Retries),
    /// Wait, connect anew, and send the command again.
    Reconnect(Retries),
    GiveUp,
}

/// A command is sent again after a passing failure, and after a lost connection,
/// `max` times each.
pub open spec fn retry_step(n: Retries, max: u32, d: Disposition) -> RetryStep {
    match d {
        Disposition::Transient => if n.transient >= max {
            RetryStep::GiveUp
        } else {
            RetryStep::Wait(Retries { transient: (n.transient + 1) as u32, ..n })
        },
        Disposition::TransportDrop => if n.transport >= max {
            RetryStep::GiveUp
        } else {
            RetryStep::Reconnect(Retries { transport: (n.transport + 1) as u32, ..n })
        },
        _ => RetryStep::GiveUp,
    }
}

/// What to do when a script could not be fetched; see [`retry_step`].
pub fn getscript_with_retry(n: Retries, max: u32, d: Disposition) -> (r: RetryStep)
    ensures
        r == retry_step(n, max, d),
{
    match d {
        Disposition::Transient => if n.transient >= max {
            RetryStep::GiveUp
        } else {
            RetryStep::Wait(Retries { transient: n.transient + 1, transport: n.transport })
        },
        Disposition::TransportDrop => if n.transport >= max {
            RetryStep::GiveUp
        } else {
            RetryStep::Reconnect(Retries { transient: n.transient, transport: n.transport + 1 })
        },
        _ => RetryStep::GiveUp,
    }
}

/// The attempts that are left.
pub open spec fn attempts_left(n: Retries, max: u32) -> int {
    (max - n.transient) + (max - n.transport)
}

/// A command is not repeated forever: each repetition leaves one attempt fewer,
/// and there are never fewer than none.
pub proof fn retries_end(n: Retries, max: u32, d: Disposition)
    requires
        n.transient <= max,
        n.transport <= max,
    ensures
        match retry_step(n, max, d) {
            RetryStep::Wait(m) => m.transient <= max && m.transport <= max && 0 <= attempts_left(m, max)
                < attempts_left(n, max),
            RetryStep::Reconnect(m) => m.transient <= max && m.transport <= max && 0 <= attempts_left(m, max)
                < attempts_left(n, max),
            RetryStep::GiveUp => true,
        },
{
}

/// Why listing the scripts is given up.
pub open spec fn listing_error(d: Disposition, shown: Seq<char>) -> Seq<char> {
    match d {
        Disposition::Transient => "LISTSCRIPTS retries exhausted: "@ + shown,
        Disposition::TransportDrop => "LISTSCRIPTS transport drop, retries exhausted: "@ + shown,
        Disposition::Referral => "LISTSCRIPTS referral: "@ + shown
            + "; vandelay does not follow referrals"@,
        _ => "LISTSCRIPTS failed: "@ + shown,
    }
}

/// What to do when the scripts could not be listed: the command is sent again, or
/// the run ends.
pub fn listscripts_with_retry(n: Retries, max: u32, d: Disposition, shown: &str) -> (r: Result<
    RetryStep,
    Error,
>)
    ensures
        match retry_step(n, max, d) {
            RetryStep::GiveUp => r matches Err(e) && e@ == ErrorView::Connection(listing_error(d, shown@)),
            step => r == Ok::<RetryStep, Error>(step),
        },
{
    match getscript_with_retry(n, max, d) {
        RetryStep::GiveUp => {
            let message = match d {
                Disposition::Transient => text::joined("LISTSCRIPTS retries exhausted: ", shown),
                Disposition::TransportDrop => text::joined(
                    "LISTSCRIPTS transport drop, retries exhausted: ",
                    shown,
                ),
                Disposition::Referral => text::joined3(
                    "LISTSCRIPTS referral: ",
                    shown,
                    "; vandelay does not follow referrals",
                ),
                _ => text::joined("LISTSCRIPTS failed: ", shown),
            };
            Err(Error::Connection(message))
        },
        step => Ok(step),
    }
}

/// The error for a listing whose connection could not be made again.
pub fn listing_reconnect_failed(shown: &str) -> (r: Error)
    ensures
        r@ == ErrorView::Connection("LISTSCRIPTS reconnect failed: "@ + shown@),
{
    Error::Connection(text::joined("LISTSCRIPTS reconnect failed: ", shown))
}

/// The error for a listing that cannot be read.
pub fn listing_unreadable(shown: &str) -> (r: Error)
    ensures
        r@ == ErrorView::Connection("LISTSCRIPTS parse: "@ + shown@),
{
    Error::Connection(text::joined("LISTSCRIPTS parse: ", shown))
}

/// What a script that could not be fetched does to the run: nothing but being
/// counted, or the end.
pub open spec fn fetch_error(name: Seq<char>, d: Disposition, shown: Seq<char>) -> Option<Seq<char>> {
    let script = text::debug_text(name);
    match d {
        Disposition::Referral => Some(
            "ManageSieve referral on GETSCRIPT "@ + script + (": "@ + shown
                + "; vandelay does not follow referrals"@),
        ),
        Disposition::TransportDrop => Some(
            "GETSCRIPT "@ + script + (" transport drop exhausted retries: "@ + shown),
        ),
        Disposition::FeatureNegotiation => Some("GETSCRIPT "@ + script + (": "@ + shown)),
        _ => None,
    }
}

/// Takes in that a script could not be fetched; see [`fetch_error`].
pub fn script_not_fetched(name: &str, d: Disposition, shown: &str, counts: &mut TypeCounts) -> (r: Result<
    (),
    Error,
>)
    requires
        old(counts).room(1),
    ensures
        match fetch_error(name@, d, shown@) {
            Some(m) => r matches Err(e) && e@ == ErrorView::Connection(m) && *final(counts) == *old(counts),
            None => r is Ok && *final(counts) == (TypeCounts {
                failed: (old(counts).failed + 1) as u64,
                ..*old(counts)
            }),
        },
{
    match d {
        Disposition::Referral => {
            let script = text::quoted(name);
            let tail = text::joined3(": ", shown, "; vandelay does not follow referrals");
            Err(
                Error::Connection(
                    text::joined3("ManageSieve referral on GETSCRIPT ", script.as_str(), tail.as_str()),
                ),
            )
        },
        Disposition::TransportDrop => {
            let script = text::quoted(name);
            let tail = text::joined(" transport drop exhausted retries: ", shown);
            Err(Error::Connection(text::joined3("GETSCRIPT ", script.as_str(), tail.as_str())))
        },
        Disposition::FeatureNegotiation => {
            let script = text::quoted(name);
            let tail = text::joined(": ", shown);
            Err(Error::Connection(text::joined3("GETSCRIPT ", script.as_str(), tail.as_str())))
        },
        _ => {
            counts.failed = counts.failed + 1;
            Ok(())
        },
    }
}

/// How a script of the server that the archive has already compares to it.
#[derive(Debug, Clone, Copy, PartialEq, Eq, Structural)]
pub enum PresentOutcome {
    Unchanged,
    ActiveOnly,
    ContentUpdated,
}

/// What is to be done about a script.
#[derive(Debug)]
pub enum Action {
    New { name: String, active: bool },
    Present { name: String, local_id: i64, outcome: PresentOutcome, active: bool },
    Vanished { name: String, local_id: i64 },
}

/// How writing to the archive went; a new script is given its number.
#[derive(Debug, Clone, Copy, PartialEq, Eq, Structural)]
pub enum Written {
    Done(i64),
    Failed,
}

/// Whether an action writes to the archive.
pub open spec fn writes(a: Action) -> bool {
    !(a matches Action::Present { outcome: PresentOutcome::Unchanged, .. }) && !(a matches Action::Present {
        outcome: PresentOutcome::ActiveOnly,
        ..
    })
}

/// See [`writes`].
pub fn needs_write(a: &Action) -> (r: bool)
    ensures
        r == writes(*a),
{
    match a {
        Action::Present { outcome: PresentOutcome::ContentUpdated, .. } => true,
        Action::Present { .. } => false,
        _ => true,
    }
}

/// The counters after an action.
pub open spec fn counted(c: TypeCounts, a: Action, w: Written) -> TypeCounts {
    if writes(a) && w is Failed {
        TypeCounts { failed: (c.failed + 1) as u64, ..c }
    } else {
        match a {
            Action::New { .. } => TypeCounts {
                created: (c.created + 1) as u64,
                fetched: (c.fetched + 1) as u64,
                ..c
            },
            Action::Present { outcome: PresentOutcome::ContentUpdated, .. } => TypeCounts {
                fetched: (c.fetched + 1) as u64,
                ..c
            },
            Action::Present { .. } => TypeCounts { skipped: (c.skipped + 1) as u64, ..c },
            Action::Vanished { .. } => TypeCounts { deleted: (c.deleted + 1) as u64, ..c },
        }
    }
}

/// The script that is active after an action, by its number. A new script that
/// could not be written is not active in the archive.
pub open spec fn active_after(active: Option<i64>, a: Action, w: Written) -> Option<i64> {
    match a {
        Action::New { active: true, .. } => match w {
            Written::Done(id) => Some(id),
            Written::Failed => active,
        },
        Action::Present { active: true, local_id, .. } => Some(local_id),
        _ => active,
    }
}

/// Takes in how an action went.
pub fn settle_action(a: &Action, w: Written, active: &mut Option<i64>, counts: &mut TypeCounts)
    requires
        old(counts).room(1),
    ensures
        *final(counts) == counted(*old(counts), *a, w),
        *final(active) == active_after(*old(active), *a, w),
{
    let failed = match w {
        Written::Failed => needs_write(a),
        Written::Done(_) => false,
    };
    if failed {
        counts.failed = counts.failed + 1;
    } else {
        match a {
            Action::New { .. } => {
                counts.created = counts.created + 1;
                counts.fetched = counts.fetched + 1;
            },
            Action::Present { outcome: PresentOutcome::ContentUpdated, .. } => {
                counts.fetched = counts.fetched + 1;
            },
            Action::Present { .. } => {
                counts.skipped = counts.skipped + 1;
            },
            Action::Vanished { .. } => {
                counts.deleted = counts.deleted + 1;
            },
        }
    }
    match a {
        Action::New { active: true, .. } => match w {
            Written::Done(id) => {
                *active = Some(id);
            },
            Written::Failed => {},
        },
        Action::Present { active: true, local_id, .. } => {
            *active = Some(*local_id);
        },
        _ => {},
    }
}

/// The counters after the first `n` actions.
pub open spec fn counted_all(c: TypeCounts, actions: Seq<Action>, w: Seq<Written>, n: nat) -> TypeCounts
    decreases n,
{
    if n == 0 {
        c
    } else {
        counted(counted_all(c, actions, w, (n - 1) as nat), actions[n - 1], w[n - 1])
    }
}

/// The counters that a dry run shows for the first `n` actions.
pub open spec fn foreseen(c: TypeCounts, actions: Seq<Action>, n: nat) -> TypeCounts
    decreases n,
{
    if n == 0 {
        c
    } else {
        let before = foreseen(c, actions, (n - 1) as nat);
        match actions[n - 1] {
            Action::New { .. } => TypeCounts {
                created: (before.created + 1) as u64,
                fetched: (before.fetched + 1) as u64,
                ..before
            },
            Action::Present { outcome: PresentOutcome::ContentUpdated, .. } => TypeCounts {
                fetched: (before.fetched + 1) as u64,
                ..before
            },
            Action::Present { .. } => TypeCounts { skipped: (before.skipped + 1) as u64, ..before },
            Action::Vanished { .. } => TypeCounts { deleted: (before.deleted + 1) as u64, ..before },
        }
    }
}

/// A dry run shows what a run comes to where every write succeeds.
pub proof fn a_dry_run_foretells_the_counts(c: TypeCounts, actions: Seq<Action>, w: Seq<Written>, n: nat)
    requires
        n <= actions.len(),
        forall|i: int| 0 <= i < n ==> !(#[trigger] w[i] is Failed),
    ensures
        foreseen(c, actions, n) == counted_all(c, actions, w, n),
    decreases n,
{
    if n > 0 {
        a_dry_run_foretells_the_counts(c, actions, w, (n - 1) as nat);
        assert(!(w[n - 1] is Failed));
    }
}

/// Every script that the plan names is counted exactly once: as fetched, skipped,
/// deleted or failed.
pub proof fn every_action_is_counted(c: TypeCounts, actions: Seq<Action>, w: Seq<Written>, n: nat)
    requires
        n <= actions.len(),
        c.room(n as int),
    ensures
        ({
            let r = counted_all(c, actions, w, n);
            &&& r.fetched + r.skipped + r.deleted + r.failed == c.fetched + c.skipped + c.deleted + c.failed + n
            &&& r.created <= c.created + n && r.fetched <= c.fetched + n && r.skipped <= c.skipped + n
            &&& r.deleted <= c.deleted + n && r.failed <= c.failed + n
        }),
    decreases n,
{
    if n > 0 {
        every_action_is_counted(c, actions, w, (n - 1) as nat);
    }
}

/// What a run came to, for its one kind of objects.
pub struct Summary {
    /// The name of the kind.
    pub type_token: &'static str,
    pub counts: TypeCounts,
    pub retries_observed: u64,
    pub retry_after_sleeps: u64,
}

/// What a run would do, without doing it; see [`foreseen`].
pub fn build_dry_run_summary(actions: &Vec<Action>, counts: TypeCounts, retries: u64, sleeps: u64) -> (r: Summary)
    requires
        counts.room(actions@.len() as int),
    ensures
        r.type_token@ == "sievescript"@,
        r.counts == foreseen(counts, actions@, actions@.len()),
        r.retries_observed == retries,
        r.retry_after_sleeps == sleeps,
{
    let mut c = counts;
    let mut i: usize = 0;
    while i < actions.len()
        invariant
            i <= actions.len(),
            counts.room(actions@.len() as int),
            c == foreseen(counts, actions@, i as nat),
            c.created <= counts.created + i,
            c.fetched <= counts.fetched + i,
            c.skipped <= counts.skipped + i,
            c.deleted <= counts.deleted + i,
        decreases actions.len() - i,
    {
        match &actions[i] {
            Action::New { .. } => {
                c.created = c.created + 1;
                c.fetched = c.fetched + 1;
            },
            Action::Present { outcome: PresentOutcome::ContentUpdated, .. } => {
                c.fetched = c.fetched + 1;
            },
            Action::Present { .. } => {
                c.skipped = c.skipped + 1;
            },
            Action::Vanished { .. } => {
                c.deleted = c.deleted + 1;
            },
        }
        i += 1;
    }
    Summary { type_token: "sievescript", counts: c, retries_observed: retries, retry_after_sleeps: sleeps }
}

/// The place of the script with a name among those fetched: the last one, where
/// the server lists a name more than once.
pub open spec fn place_of(names: Seq<Seq<char>>, name: Seq<char>, n: nat) -> Option<int>
    decreases n,
{
    if n == 0 {
        None
    } else if names[n - 1] == name {
        Some(n - 1)
    } else {
        place_of(names, name, (n - 1) as nat)
    }
}

/// See [`place_of`].
pub fn fetched_place(names: &Vec<String>, name: &str) -> (r: Option<usize>)
    ensures
        match r {
            Some(i) => place_of(text::texts(names@), name@, names@.len()) == Some(i as int),
            None => place_of(text::texts(names@), name@, names@.len()) is None,
        },
{
    let ghost all = text::texts(names@);
    let mut n: usize = names.len();
    while n > 0
        invariant
            n <= names.len(),
            all == text::texts(names@),
            place_of(all, name@, names@.len()) == place_of(all, name@, n as nat),
        decreases n,
    {
        assert(all[n - 1] == names@[n - 1]@);
        if text::same(names[n - 1].as_str(), name) {
            return Some(n - 1);
        }
        n -= 1;
    }
    None
}

/// The script that is active after the first `n` actions, by its number.
pub open spec fn active_all(actions: Seq<Action>, w: Seq<Written>, n: nat) -> Option<i64>
    decreases n,
{
    if n == 0 {
        None
    } else {
        active_after(active_all(actions, w, (n - 1) as nat), actions[n - 1], w[n - 1])
    }
}

/// How a run ends.
pub struct RunEnd {
    pub summary: Summary,
    /// The script that is to be marked as the active one, and no other.
    pub active: Option<i64>,
    /// Whether blobs that nothing refers to any more are dropped.
    pub drop_orphans: bool,
}

/// Takes in how each action of the plan went, in order. Blobs that nothing refers
/// to any more are dropped only where nothing failed.
pub fn run(actions: &Vec<Action>, written: &Vec<Written>, counts: TypeCounts, retries: u64, sleeps: u64) -> (r:
    RunEnd)
    requires
        written@.len() == actions@.len(),
        counts.room(actions@.len() as int),
    ensures
        r.summary.type_token@ == "sievescript"@,
        r.summary.counts == counted_all(counts, actions@, written@, actions@.len()),
        r.summary.retries_observed == retries,
        r.summary.retry_after_sleeps == sleeps,
        r.active == active_all(actions@, written@, actions@.len()),
        r.drop_orphans == (counted_all(counts, actions@, written@, actions@.len()).failed == 0),
{
    let mut c = counts;
    let mut active: Option<i64> = None;
    let mut i: usize = 0;
    while i < actions.len()
        invariant
            i <= actions.len(),
            written@.len() == actions@.len(),
            counts.room(actions@.len() as int),
            c == counted_all(counts, actions@, written@, i as nat),
            active == active_all(actions@, written@, i as nat),
            c.created <= counts.created + i,
            c.fetched <= counts.fetched + i,
            c.updated == counts.updated,
            c.skipped <= counts.skipped + i,
            c.deleted <= counts.deleted + i,
            c.failed <= counts.failed + i,
        decreases actions.len() - i,
    {
        settle_action(&actions[i], written[i], &mut active, &mut c);
        i += 1;
    }
    RunEnd {
        summary: Summary {
            type_token: "sievescript",
            counts: c,
            retries_observed: retries,
            retry_after_sleeps: sleeps,
        },
        active,
        drop_orphans: c.failed == 0,
    }
}

} // verus!
