//! What the functions that talk to servers give back, call by call.

use vstd::prelude::*;
use vstd::string::*;

use crate::dav::client::{
    body_limit, execute, same_origin, Answer, DavClient, DavHttpResponse, DavOutcome, Next, Progress, WireRequest,
};
use crate::exchange_ews::oauth as ews;
use crate::exchange_graph::error::GraphError;
use crate::exchange_graph::oauth;
use crate::exchange_graph::oauth::{
    device_code_flow, first_delay, poll_allowed, polling_allowed, read_token_file, refresh_access_token,
    run_device_code_polling_against, Acquisition, OAuthFlow, PollStep, RefreshEvent, RefreshStep, RefreshTries,
    LONGEST,
};
use crate::imap::client::{untagged_views, ConnectMode, Greeting, ImapClient, RunStep};
use crate::imap::error::{ImapError, ImapErrorView};
use crate::imap::response::{Response, ResponseView, StatusLine, Untagged, UntaggedView};
use crate::jmap::account::{resolve, AccountSelector, Resolution};
use crate::jmap::blobxfer::{lookup_blob, lookup_call, upload_bytes, BlobLookup};
use crate::jmap::error::JmapError;
use crate::json::{Json, JsonView};
use crate::sync::import_managesieve::coordinator::{account_id_for, ManageSieveAuth};
use crate::text;

verus! {

/// Credentials are never sent in the clear: a session that is to be secured is, or is
/// not used where the server cannot secure it.
pub proof fn sessions_are_secured_or_not_used(
    c: &ImapClient,
    mode: ConnectMode,
    r: Result<bool, ImapError>,
    is_tls: bool,
    s: Result<(), ImapError>,
)
    requires
        call_ensures(ImapClient::connect, (c, mode), r),
        call_ensures(ImapClient::starttls, (is_tls,), s),
    ensures
        mode is StartTls && c@.can("STARTTLS"@) ==> r == Ok::<bool, ImapError>(true),
        mode is StartTls && !c@.can("STARTTLS"@) ==> r is Err && r->Err_0@ is Unsupported,
        mode is ImplicitTls || mode is Plain ==> r == Ok::<bool, ImapError>(false),
        s is Ok <==> !is_tls,
{
}

/// A greeting is taken over with what it says of the server's abilities; a server that
/// turns the session away, or does not greet, ends it.
pub proof fn greetings_are_taken_over(c: &mut ImapClient, r: Response, shown: &str, g: Result<Greeting, ImapError>)
    requires
        call_ensures(ImapClient::read_greeting, (c, r, shown), g),
    ensures
        r@ is Untagged && r@->Untagged_0 is StatusLine ==> g is Ok && g->Ok_0.status == r@->Untagged_0->StatusLine_0.status
            && g->Ok_0.text@ == r@->Untagged_0->StatusLine_0.text,
        r@ is Untagged && r@->Untagged_0 is Bye ==> g is Err && g->Err_0@ == ImapErrorView::Bye(
            r@->Untagged_0->Bye_0,
        ),
        r@ is Tagged || r@ is Continuation ==> g is Err && g->Err_0@ is Protocol,
        g is Err ==> final(c)@ == old(c)@,
{
}

/// What a server needs to be able to do is asked for before it is used.
pub proof fn abilities_are_needed(
    c: &ImapClient,
    enable: Result<(), ImapError>,
    compress: Result<(), ImapError>,
    login: Result<(), ImapError>,
)
    requires
        call_ensures(ImapClient::can_enable, (c,), enable),
        call_ensures(ImapClient::compress_deflate, (c,), compress),
        call_ensures(ImapClient::login, (c,), login),
    ensures
        enable is Ok <==> c@.can("ENABLE"@),
        compress is Ok <==> c@.can("COMPRESS=DEFLATE"@),
        login is Ok <==> !c@.capabilities.contains("LOGINDISABLED"@),
{
}

/// A command with a literal is sent only to a server that takes literals unasked;
/// commands are numbered one after the other.
pub proof fn commands_are_numbered(
    c: &mut ImapClient,
    command: &str,
    has_literal: bool,
    r: Result<(String, String), ImapError>,
)
    requires
        call_ensures(ImapClient::begin, (c, command, has_literal), r),
        old(c)@.commands < u64::MAX,
    ensures
        final(c)@.commands == old(c)@.commands + 1,
        r is Ok <==> !has_literal || old(c)@.can("LITERAL+"@) || old(c)@.can("LITERAL-"@),
        r is Ok ==> {
            let (tag, line) = r->Ok_0;
            &&& tag@ == crate::imap::client::tag_text((old(c)@.commands + 1) as nat)
            &&& line@ == crate::imap::client::command_line(tag@, command@)
        },
{
}

/// A session is closed by a command once; afterwards it is closed.
pub proof fn sessions_are_closed_once(c: &mut ImapClient, r: bool)
    requires
        call_ensures(ImapClient::logout, (c,), r),
    ensures
        r <==> !old(c)@.closed,
        final(c)@.closed,
        final(c)@.capabilities == old(c)@.capabilities,
{
}

/// A code may be asked after until it expires, and no longer.
pub proof fn codes_expire(
    elapsed: u128,
    expires_in: u64,
    a: bool,
    b: bool,
    interval: u64,
    delay: u128,
)
    requires
        call_ensures(poll_allowed, (elapsed, expires_in), a),
        call_ensures(polling_allowed, (elapsed, expires_in), b),
        call_ensures(first_delay, (interval,), delay),
    ensures
        a <==> elapsed < expires_in * 1_000_000_000,
        expires_in > 0 ==> a == b,
        expires_in == 0 ==> !a && (b <==> elapsed < 1_000_000_000),
        delay == interval * 1_000_000_000,
{
}

/// A token at hand is used as it is; without one a device code is asked for, of the
/// authority and in the name of the application.
pub proof fn a_token_at_hand_is_used(flow: &OAuthFlow, r: Acquisition)
    requires
        call_ensures(oauth::acquire, (flow,), r),
    ensures
        flow matches OAuthFlow::PreAcquired { token } ==> r is Token && r->Token_0.access_token@ == token@
            && r->Token_0.refresh_token is None && r->Token_0.expires_in is None,
        flow matches OAuthFlow::DeviceCode { authority, client_id } ==> r is AskForCode && r->endpoint@ == authority@
            + "/oauth2/v2.0/devicecode"@ && crate::laws::sign_in::carries(r->body@, "client_id"@, client_id@),
{
    if let OAuthFlow::DeviceCode { authority, client_id } = flow {
        crate::laws::sign_in::code_requests_name_the_application(client_id@);
    }
    if let OAuthFlow::PreAcquired { token } = flow {
        crate::laws::sign_in::tokens_are_kept_with_their_claims(token@, None, None);
        assert(r->Token_0@.access_token == token@);
        assert(r->Token_0@.refresh_token is None);
    }
}

/// While the user signs in, the time between questions stays unless the server asks for
/// more; five seconds are then added, or twenty milliseconds where the questions are
/// put by other means.
pub proof fn the_server_sets_the_pace(
    status: u16,
    payload: &Json,
    m: Map<Seq<char>, JsonView>,
    delay: u128,
    e: Seq<char>,
    a: PollStep,
    b: PollStep,
)
    requires
        call_ensures(device_code_flow, (status, payload, delay), a),
        call_ensures(run_device_code_polling_against, (status, payload, delay), b),
        delay < LONGEST - 5_000_000_000,
        payload@ == JsonView::Object(m),
        !(200 <= status <= 299),
        m.dom().contains("error"@),
        m["error"@] == JsonView::Str(e),
    ensures
        e == "authorization_pending"@ ==> a == PollStep::Again(delay) && b == PollStep::Again(delay),
        e == "slow_down"@ ==> a is Again && a->Again_0 == delay + 5_000_000_000 && b is Again && b->Again_0 == delay
            + 20_000_000,
        e == "expired_token"@ || e == "authorization_declined"@ || e == "bad_verification_code"@ ==> a is Failed && b
            is Failed,
{
    crate::laws::sign_in::token_answers_are_read(status, m, Seq::empty(), e);
    let response = crate::exchange_graph::oauth::token_response(status, JsonView::Object(m));
    crate::laws::sign_in::the_server_decides_on_asking_again(response, delay, 5_000_000_000);
    crate::laws::sign_in::the_server_decides_on_asking_again(response, delay, 20_000_000);
}

/// A new token is asked for again where the last attempt did not reach the server or
/// the server was at fault, four times at most; a token ends the attempts, and a
/// refusal does.
pub proof fn new_tokens_are_asked_for_again(n: RefreshTries, event: RefreshEvent, r: RefreshStep)
    requires
        call_ensures(refresh_access_token, (n, event), r),
        n.wf(),
    ensures
        event is SendFailed && n.attempts < 3 ==> r is Retry && r->Retry_0 == n.delay_ms && r->Retry_1.attempts
            == n.attempts + 1,
        event is SendFailed && n.attempts == 3 ==> r is Failed,
        event matches RefreshEvent::Answered(status, json) ==> (500 <= status <= 599 && n.attempts < 3 ==> r is Retry)
            && (200 <= status <= 299 && json@.text_at("access_token"@) is Some ==> r is Done
            && r->Done_0.access_token@ == json@.text_at("access_token"@)->0) && (400 <= status <= 499 ==> r is Failed),
{
    if let RefreshEvent::Answered(status, json) = event {
        if 200 <= status <= 299 && json@.text_at("access_token"@) is Some {
            let t = crate::exchange_graph::oauth::token_response(status, json@);
            assert(t is Token);
            assert(r->Done_0@.access_token == json@.text_at("access_token"@)->0);
        }
    }
}

/// The token in a file is its text without the whitespace around it; an empty file has
/// none.
pub proof fn token_files_hold_a_token(raw: &str, r: Result<String, GraphError>)
    requires
        call_ensures(read_token_file, (raw,), r),
    ensures
        r is Ok <==> text::trim_text(raw@).len() > 0,
        r is Ok ==> r->Ok_0@ == text::trim_text(raw@),
{
}

/// An account is taken by its id as it stands, by its name where the session has an
/// account of that name, and else through the server's principals where there are any.
pub proof fn accounts_are_selected(
    selector: &AccountSelector,
    accounts: &Vec<(String, String)>,
    capabilities: &Vec<String>,
    r: Resolution,
    i: int,
)
    requires
        call_ensures(resolve, (selector, accounts, capabilities), r),
    ensures
        selector matches AccountSelector::Id(id) ==> r is Account && r->Account_0@ == id@,
        selector matches AccountSelector::Name(name) ==> {
            let asks = text::texts(capabilities@).contains("urn:ietf:params:jmap:principals"@);
            let none = forall|k: int| 0 <= k < accounts@.len() ==> (#[trigger] accounts@[k]).1@ != name@;
            &&& 0 <= i < accounts@.len() && accounts@[i].1@ == name@ && (forall|k: int|
                0 <= k < i ==> (#[trigger] accounts@[k]).1@ != name@) ==> r is Account && r->Account_0@
                == accounts@[i].0@
            &&& none && asks ==> r is AskPrincipals
            &&& none && !asks ==> r is Failed && r->Failed_0@ is Account
        },
{
    if let AccountSelector::Name(name) = selector {
        let v = crate::jmap::account::account_views(accounts@);
        assert(forall|k: int| 0 <= k < accounts@.len() ==> #[trigger] v[k] == (accounts@[k].0@, accounts@[k].1@));
        if 0 <= i < accounts@.len() && accounts@[i].1@ == name@ && (forall|k: int|
            0 <= k < i ==> (#[trigger] accounts@[k]).1@ != name@) {
            assert forall|k: int| 0 <= k < i implies (#[trigger] v[k]).1 != name@ by {
                assert(accounts@[k].1@ != name@);
            }
            crate::laws::lookups::names_stand_for_accounts(v, name@, 0, i);
        }
        if forall|k: int| 0 <= k < accounts@.len() ==> (#[trigger] accounts@[k]).1@ != name@ {
            assert forall|k: int| 0 <= k < v.len() implies (#[trigger] v[k]).1 != name@ by {
                assert(accounts@[k].1@ != name@);
            }
            crate::laws::lookups::names_stand_for_accounts(v, name@, 0, 0);
        }
    }
}

/// An uploaded blob has the id that the server gives it. A blob is looked up only where
/// the server can be asked; one that does not know the question cannot be.
pub proof fn blobs_are_looked_up_where_that_can_be(
    response: &Json,
    id: Result<String, JmapError>,
    capabilities: &Vec<String>,
    account: &str,
    blob: &str,
    call: Option<Json>,
    e: JmapError,
    r: Result<BlobLookup, JmapError>,
)
    requires
        call_ensures(upload_bytes, (response,), id),
        call_ensures(lookup_call, (capabilities, account, blob), call),
        call_ensures(lookup_blob, (Err::<Json, JmapError>(e), blob), r),
    ensures
        id is Ok <==> response@.text_at("blobId"@) is Some,
        id is Ok ==> id->Ok_0@ == response@.text_at("blobId"@)->0,
        call is Some <==> text::texts(capabilities@).contains("urn:ietf:params:jmap:blob"@),
        e@ is UnknownMethod ==> r is Ok && r->Ok_0 is Unsupported,
        !(e@ is UnknownMethod) ==> r == Err::<BlobLookup, JmapError>(e),
{
}

/// A request goes to its address with credentials, says how deep it goes and holds its
/// body; a plain one holds none.
pub proof fn requests_are_made_as_asked(
    c: &DavClient,
    url: &str,
    depth: u8,
    body: &str,
    find: WireRequest,
    report: WireRequest,
    plain: WireRequest,
)
    requires
        call_ensures(DavClient::propfind, (c, url, depth, body), find),
        call_ensures(DavClient::report, (c, url, depth, body), report),
        call_ensures(DavClient::get, (c, url), plain),
    ensures
        find.method@ == "PROPFIND"@ && report.method@ == "REPORT"@ && plain.method@ == "GET"@,
        find.url@ == url@ && report.url@ == url@ && plain.url@ == url@,
        find.depth == Some(depth) && report.depth == Some(depth) && plain.depth is None,
        find.body is Some && find.body->0@ == body.spec_bytes() && report.body is Some && report.body->0@
            == body.spec_bytes() && plain.body is None,
        find.include_auth && report.include_auth && plain.include_auth,
{
}

/// How much of a reply is read depends on its status: nothing of a redirect, and of a
/// failure far less than of a success.
pub proof fn bodies_are_read_up_to_a_limit(status: u16, has_location: bool, r: Option<u64>)
    requires
        call_ensures(body_limit, (status, has_location), r),
    ensures
        200 <= status <= 299 ==> r is Some && r->0 == 512 * 1024 * 1024,
        (status == 301 || status == 302 || status == 303 || status == 307 || status == 308) && has_location ==> r
            is None,
        400 <= status ==> r is Some && r->0 == 64 * 1024,
{
}

/// Credentials go along with a redirect only to the host and port that the request was
/// made for.
pub proof fn credentials_stay_with_their_host(
    p: &mut Progress,
    method: &str,
    max: u32,
    answer: Answer,
    outcome: DavOutcome,
    r: Next<DavHttpResponse>,
)
    requires
        call_ensures(execute, (p, method, max, answer, outcome), r),
        old(p).attempt < u32::MAX,
        old(p)@.include_auth,
        !(r is Fail),
    ensures
        final(p)@.include_auth ==> final(p)@.current == old(p)@.current || same_origin(
            old(p)@.original,
            final(p)@.current,
        ),
        final(p)@.original == old(p)@.original,
        200 <= answer.response.status <= 299 ==> r is Done && r->value@ == answer.response@,
{
}

/// Codes and tokens are asked for of the authority of the tenant.
pub proof fn authorities_are_asked(
    tenant: &str,
    a: String,
    authority: &str,
    code: String,
    token: String,
    client_id: &str,
    refresh_token: &str,
    again: (String, String),
)
    requires
        call_ensures(oauth::default_authority, (tenant,), a),
        call_ensures(oauth::device_code_endpoint, (authority,), code),
        call_ensures(oauth::token_endpoint, (authority,), token),
        call_ensures(ews::refresh_with_token, (tenant, client_id, refresh_token), again),
    ensures
        a@ == "https://login.microsoftonline.com/"@ + tenant@,
        code@ == authority@ + "/oauth2/v2.0/devicecode"@,
        token@ == authority@ + "/oauth2/v2.0/token"@,
        again.0@ == "https://login.microsoftonline.com/"@ + tenant@ + "/oauth2/v2.0/token"@,
        crate::laws::sign_in::carries(again.1@, "refresh_token"@, refresh_token@),
        crate::laws::sign_in::carries(again.1@, "client_id"@, client_id@),
{
    crate::laws::sign_in::refresh_requests_hold_the_token(client_id@, refresh_token@);
}

/// An application begins with the token at hand, its secret or a code, as it was told.
pub proof fn applications_begin_as_told(flow: &ews::OAuthFlow, r: ews::Acquisition)
    requires
        call_ensures(ews::acquire, (flow,), r),
    ensures
        flow matches ews::OAuthFlow::PreAcquired { token } ==> r is Token && r->Token_0@.access_token == token@,
        flow matches ews::OAuthFlow::ClientCredentials { tenant, client_id, client_secret } ==> r is AskForToken
            && r->AskForToken_endpoint@ == "https://login.microsoftonline.com/"@ + tenant@ + "/oauth2/v2.0/token"@
            && crate::laws::sign_in::carries(r->AskForToken_body@, "client_secret"@, client_secret@)
            && crate::laws::sign_in::carries(r->AskForToken_body@, "client_id"@, client_id@),
        flow matches ews::OAuthFlow::DeviceCode { tenant, client_id } ==> r is AskForCode
            && r->AskForCode_endpoint@ == "https://login.microsoftonline.com/"@ + tenant@
            + "/oauth2/v2.0/devicecode"@ && crate::laws::sign_in::carries(
            r->AskForCode_body@,
            "client_id"@,
            client_id@,
        ),
{
    match flow {
        ews::OAuthFlow::PreAcquired { token } => {},
        ews::OAuthFlow::ClientCredentials { tenant, client_id, client_secret } => {
            crate::laws::sign_in::applications_ask_with_their_secret(client_id@, client_secret@, tenant@);
        },
        ews::OAuthFlow::DeviceCode { tenant, client_id } => {
            crate::laws::sign_in::code_requests_name_the_application(client_id@);
        },
    }
}

/// A server that never says what it can do is not used; what it enables is kept.
pub proof fn servers_must_say_what_they_can_do(
    c: &mut ImapClient,
    untagged: &Vec<Untagged>,
    r: Result<(), ImapError>,
    d: &mut ImapClient,
    enabled: Vec<String>,
)
    requires
        call_ensures(ImapClient::send_capability, (c, untagged), r),
        call_ensures(ImapClient::enable, (d, untagged), enabled),
    ensures
        r is Ok <==> final(c)@.capabilities.len() > 0,
        final(c)@.closed == old(c)@.closed && final(c)@.commands == old(c)@.commands,
        old(d)@.utf8_accept ==> final(d)@.utf8_accept,
        final(d)@.utf8_accept <==> old(d)@.utf8_accept || crate::imap::client::names_utf8(text::texts(enabled@)),
        final(d)@.capabilities == old(d)@.capabilities,
{
}

/// What a server says before it answers a command is kept in the order it came; the
/// answer itself, and a server that leaves, add nothing to it.
pub proof fn what_comes_before_an_answer_is_kept(
    c: &mut ImapClient,
    tag: &str,
    untagged: &mut Vec<Untagged>,
    r: Response,
    s: RunStep,
)
    requires
        call_ensures(ImapClient::run_collect, (c, tag, untagged, r), s),
    ensures
        !(s@ is HandOn),
        r@ is Untagged && !(r@->Untagged_0 is Bye) ==> s@ is More && untagged_views(final(untagged)@)
            == untagged_views(old(untagged)@).push(r@->Untagged_0),
        !(r@ is Untagged) || r@->Untagged_0 is Bye ==> !(s@ is More) && untagged_views(final(untagged)@)
            == untagged_views(old(untagged)@),
        r@ is Untagged && r@->Untagged_0 is Bye ==> final(c)@.closed && s@ is Failed,
        r@ matches ResponseView::Untagged(UntaggedView::Capability(caps)) ==> final(c)@.capabilities == caps.to_set(),
        r@ is Continuation ==> s@ is Failed,
        r@ is Tagged && r@->Tagged_tag != tag@ ==> s@ is Failed && final(c)@ == old(c)@,
{
}

/// The account of a script server is named after the user who signs in.
pub proof fn accounts_are_named_after_the_user(auth: &ManageSieveAuth, r: String)
    requires
        call_ensures(account_id_for, (auth,), r),
    ensures
        auth matches ManageSieveAuth::Basic { user, .. } ==> r@ == user@,
        auth matches ManageSieveAuth::Bearer { user, .. } ==> r@ == user@,
{
}

} // verus!
