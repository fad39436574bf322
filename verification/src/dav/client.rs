//! The WebDAV client: what a request carries, and what follows from each reply.
//!
//! A request is sent, and sent again, until it has an answer or fails. The
//! functions here decide after each reply what comes next; sending, sleeping and
//! reading bodies is left to the caller.

use vstd::prelude::*;
use vstd::string::*;

use crate::address;
use crate::jmap::error::{JmapError, JmapErrorView};
use crate::text;

verus! {

/// How many redirects a request follows.
pub const MAX_DAV_REDIRECTS: u32 = 5;

/// How many bytes of a successful reply are read.
pub const MAX_BODY: u64 = 536_870_912;

/// How many bytes of any other reply are read.
pub const MAX_ERROR_BODY: u64 = 65_536;

/// How a reply that is neither a success nor a redirect is to be taken.
#[derive(Debug, Clone, Copy, PartialEq, Eq, Structural)]
pub enum DavOutcome {
    Success,
    Vanished,
    Auth,
    Fatal,
    Retryable,
}

/// A complete reply.
pub struct DavHttpResponse {
    pub status: u16,
    pub body: Vec<u8>,
    pub etag: Option<String>,
    pub content_type: Option<String>,
    pub last_modified: Option<String>,
}

/// The view of a [`DavHttpResponse`].
pub struct ResponseView {
    pub status: u16,
    pub body: Seq<u8>,
    pub etag: Option<Seq<char>>,
    pub content_type: Option<Seq<char>>,
    pub last_modified: Option<Seq<char>>,
}

impl View for DavHttpResponse {
    type V = ResponseView;

    open spec fn view(&self) -> ResponseView {
        ResponseView {
            status: self.status,
            body: self.body@,
            etag: text::opt_text(self.etag),
            content_type: text::opt_text(self.content_type),
            last_modified: text::opt_text(self.last_modified),
        }
    }
}

/// A reply with the headers that are looked at. `retry_after` is in
/// milliseconds.
pub struct Answer {
    pub response: DavHttpResponse,
    pub retry_after: Option<u64>,
    pub location: Option<String>,
}

/// Whether a status means success.
pub open spec fn is_success(status: u16) -> bool {
    200 <= status < 300
}

/// Whether a status means that the resource is elsewhere.
pub open spec fn is_redirect(status: u16) -> bool {
    status == 301 || status == 302 || status == 303 || status == 307 || status == 308
}

fn success_status(status: u16) -> (r: bool)
    ensures
        r == is_success(status),
{
    200 <= status && status < 300
}

/// See [`is_redirect`].
pub fn is_redirect_status(status: u16) -> (r: bool)
    ensures
        r == is_redirect(status),
{
    status == 301 || status == 302 || status == 303 || status == 307 || status == 308
}

/// The host and port of a URL.
pub open spec fn origin_of(u: Seq<char>) -> Option<(Seq<char>, Option<u16>)> {
    match address::url_parse(u) {
        Ok(p) => match p.host {
            Some(h) => Some((h, p.port_or_default)),
            None => None,
        },
        Err(_) => None,
    }
}

/// Whether two URLs name the same host and port.
pub open spec fn same_origin(a: Seq<char>, b: Seq<char>) -> bool {
    origin_of(a) is Some && origin_of(b) is Some && origin_of(a) == origin_of(b)
}

/// The host and port among the parts of a URL.
pub fn host_and_port(parts: address::UrlParts) -> (r: Option<(String, Option<u16>)>)
    ensures
        match parts@.host {
            Some(h) => r matches Some((host, port)) && host@ == h && port == parts@.port_or_default,
            None => r is None,
        },
{
    match parts.host {
        Some(h) => Some((h, parts.port_or_default)),
        None => None,
    }
}

fn url_host_and_port(u: &str) -> (r: Option<(String, Option<u16>)>)
    ensures
        match r {
            Some((h, p)) => origin_of(u@) == Some((h@, p)),
            None => origin_of(u@) is None,
        },
{
    match address::parse_url(u) {
        Ok(p) => host_and_port(p),
        Err(_) => None,
    }
}

fn same_port(a: Option<u16>, b: Option<u16>) -> (r: bool)
    ensures
        r == (a == b),
{
    match (a, b) {
        (Some(x), Some(y)) => x == y,
        (None, None) => true,
        _ => false,
    }
}

/// Whether two hosts with their ports are known and the same.
pub fn same_places(a: Option<(String, Option<u16>)>, b: Option<(String, Option<u16>)>) -> (r: bool)
    ensures
        r == match (a, b) {
            (Some((h, p)), Some((i, q))) => h@ == i@ && p == q,
            _ => false,
        },
{
    match (a, b) {
        (Some((h, p)), Some((i, q))) => text::same(h.as_str(), i.as_str()) && same_port(p, q),
        _ => false,
    }
}

/// See [`same_origin`].
pub fn same_host(a: &str, b: &str) -> (r: bool)
    ensures
        r == same_origin(a@, b@),
{
    same_places(url_host_and_port(a), url_host_and_port(b))
}

/// Where a redirect from `current` leads, or why its location leads nowhere; see
/// [`address::url_join`].
pub fn resolve_redirect(current: &str, location: &str) -> (r: Result<String, String>)
    ensures
        joined_view(r) == address::url_join(current@, location@),
{
    address::join_url(current, location)
}

/// What of a body goes into a message: its text, at most 512 bytes of it.
pub open spec fn truncated(body: Seq<u8>) -> Seq<char> {
    text::clipped(text::lossy_text(body), 512)
}

/// See [`truncated`].
pub fn truncate(body: &[u8]) -> (r: String)
    ensures
        r@ == truncated(body@),
{
    text::clip(text::from_lossy(body).as_str(), 512)
}

/// How far a request has come.
pub struct Progress {
    pub original: String,
    pub current: String,
    pub redirects: u32,
    pub attempt: u32,
    pub include_auth: bool,
    pub retries: u64,
    pub retry_after_sleeps: u64,
}

/// The view of [`Progress`].
pub struct ProgressView {
    pub original: Seq<char>,
    pub current: Seq<char>,
    pub redirects: u32,
    pub attempt: u32,
    pub include_auth: bool,
    pub retries: u64,
    pub retry_after_sleeps: u64,
}

impl View for Progress {
    type V = ProgressView;

    open spec fn view(&self) -> ProgressView {
        ProgressView {
            original: self.original@,
            current: self.current@,
            redirects: self.redirects,
            attempt: self.attempt,
            include_auth: self.include_auth,
            retries: self.retries,
            retry_after_sleeps: self.retry_after_sleeps,
        }
    }
}

impl ProgressView {
    /// What holds at every point of a request that is retried at most `max`
    /// times: the bounds on redirects and retries are kept, and credentials go
    /// nowhere but to the origin that the request was made for.
    pub open spec fn holds(self, max: u32) -> bool {
        &&& self.redirects <= MAX_DAV_REDIRECTS
        &&& self.attempt <= max
        &&& self.include_auth ==> self.current == self.original || same_origin(self.original, self.current)
    }
}

impl Progress {
    /// A request that has not been sent yet.
    pub fn begin(url: &str) -> (r: Progress)
        ensures
            r@ == (ProgressView {
                original: url@,
                current: url@,
                redirects: 0,
                attempt: 0,
                include_auth: true,
                retries: 0,
                retry_after_sleeps: 0,
            }),
            forall|max: u32| #[trigger] r@.holds(max),
    {
        Progress {
            original: url.to_owned(),
            current: url.to_owned(),
            redirects: 0,
            attempt: 0,
            include_auth: true,
            retries: 0,
            retry_after_sleeps: 0,
        }
    }
}

/// What comes after a reply. Delays are the caller's to choose.
pub enum Next<T> {
    /// Send again at once.
    Send,
    /// Send again once the server's throttle, which may have named a delay in
    /// milliseconds, has passed.
    Throttled { retry_after: Option<u64> },
    /// The request is answered. `calm` says whether the rate limiter is told of
    /// a success.
    Done { value: T, calm: bool },
    /// The request fails.
    Fail(JmapError),
}

/// The view of [`Next`].
pub enum NextView<T> {
    Send,
    Throttled { retry_after: Option<u64> },
    Done { value: T, calm: bool },
    Fail(JmapErrorView),
}

/// What a redirect leads to: the next URL, `Authorization` only while it stays
/// with the origin; a failure where there were too many or the location makes no
/// URL.
pub open spec fn after_redirect(p: ProgressView, joined: Result<Seq<char>, Seq<char>>) -> (
    ProgressView,
    Option<JmapErrorView>,
) {
    if p.redirects >= MAX_DAV_REDIRECTS {
        (
            p,
            Some(
                JmapErrorView::Connect(
                    "too many redirects ("@ + text::decimal_text(p.redirects as nat) + (") starting from "@
                        + p.original),
                ),
            ),
        )
    } else {
        let q = ProgressView { redirects: (p.redirects + 1) as u32, ..p };
        match joined {
            Err(e) => (q, Some(JmapErrorView::Connect("redirect: "@ + e))),
            Ok(next) => (
                ProgressView {
                    include_auth: p.include_auth && same_origin(p.original, next),
                    current: next,
                    ..q
                },
                None,
            ),
        }
    }
}

/// The view of a joined URL or of why there is none.
pub open spec fn joined_view(joined: Result<String, String>) -> Result<Seq<char>, Seq<char>> {
    match joined {
        Ok(u) => Ok(u@),
        Err(e) => Err(e@),
    }
}

/// What a throttled reply leads to: another attempt while there is one left.
pub open spec fn after_throttle(
    p: ProgressView,
    max: u32,
    retry_after: Option<u64>,
    complaint: Seq<char>,
) -> (ProgressView, Option<JmapErrorView>) {
    let q = ProgressView {
        attempt: (p.attempt + 1) as u32,
        retries: wrapped_next(p.retries),
        ..p
    };
    if q.attempt > max {
        (q, Some(JmapErrorView::RetriesExhausted(complaint)))
    } else {
        (
            ProgressView {
                retry_after_sleeps: if retry_after is Some {
                    wrapped_next(q.retry_after_sleeps)
                } else {
                    q.retry_after_sleeps
                },
                ..q
            },
            None,
        )
    }
}

/// The next value of a counter, which starts over after its last.
pub open spec fn wrapped_next(n: u64) -> u64 {
    if n == u64::MAX {
        0
    } else {
        (n + 1) as u64
    }
}

fn next_count(n: u64) -> (r: u64)
    ensures
        r == wrapped_next(n),
{
    if n == u64::MAX {
        0
    } else {
        n + 1
    }
}

/// What a failed transport leads to. An error that will not go away fails the
/// request; any other is tried again while an attempt is left. `shown` is the
/// error as it is reported.
pub open spec fn after_transport(
    p: ProgressView,
    max: u32,
    err: JmapErrorView,
    shown: Seq<char>,
) -> (ProgressView, Option<JmapErrorView>) {
    if err is Connect {
        (p, Some(err))
    } else {
        let q = ProgressView {
            attempt: (p.attempt + 1) as u32,
            retries: wrapped_next(p.retries),
            ..p
        };
        if q.attempt > max {
            (q, Some(JmapErrorView::RetriesExhausted(shown)))
        } else {
            (q, None)
        }
    }
}

/// Where a location leads from a URL; where there is no location, nowhere.
pub open spec fn location_at(current: Seq<char>, location: Option<Seq<char>>) -> Result<Seq<char>, Seq<char>> {
    match location {
        Some(l) => address::url_join(current, l),
        None => Err(Seq::empty()),
    }
}

fn join_location(current: &str, location: &Option<String>) -> (r: Result<String, String>)
    ensures
        joined_view(r) == location_at(current@, text::opt_text(*location)),
{
    match location {
        Some(l) => resolve_redirect(current, l.as_str()),
        None => {
            let nowhere = String::new();
            assert(nowhere@ =~= Seq::<char>::empty());
            Err(nowhere)
        },
    }
}

/// The view of an optional error.
pub open spec fn opt_error(e: Option<JmapError>) -> Option<JmapErrorView> {
    match e {
        Some(x) => Some(x@),
        None => None,
    }
}

/// See [`after_redirect`].
fn follow(p: &mut Progress, joined: Result<String, String>) -> (r: Option<JmapError>)
    ensures
        (final(p)@, opt_error(r)) == after_redirect(old(p)@, joined_view(joined)),
{
    if p.redirects >= MAX_DAV_REDIRECTS {
        let tail = text::joined(") starting from ", p.original.as_str());
        let count: u128 = p.redirects as u128;
        return Some(
            JmapError::Connect(
                text::joined3("too many redirects (", text::decimal(count).as_str(), tail.as_str()),
            ),
        );
    }
    p.redirects = p.redirects + 1;
    match joined {
        Err(e) => Some(JmapError::Connect(text::joined("redirect: ", e.as_str()))),
        Ok(next) => {
            if p.include_auth && !same_host(p.original.as_str(), next.as_str()) {
                p.include_auth = false;
            }
            p.current = next;
            None
        },
    }
}

/// See [`after_throttle`].
fn throttle(p: &mut Progress, max: u32, retry_after: Option<u64>, complaint: String) -> (r: Option<JmapError>)
    requires
        old(p).attempt < u32::MAX,
    ensures
        (final(p)@, opt_error(r)) == after_throttle(old(p)@, max, retry_after, complaint@),
{
    p.attempt = p.attempt + 1;
    p.retries = next_count(p.retries);
    if p.attempt > max {
        return Some(JmapError::RetriesExhausted(complaint));
    }
    if retry_after.is_some() {
        p.retry_after_sleeps = next_count(p.retry_after_sleeps);
    }
    None
}

/// Decides what a failed transport leads to; see [`after_transport`]. Where the
/// result is no error, the request is sent again after the delay for the attempt
/// that it has come to.
pub fn handle_transport(p: &mut Progress, max: u32, err: JmapError, shown: String) -> (r: Option<JmapError>)
    requires
        old(p).attempt < u32::MAX,
    ensures
        (final(p)@, opt_error(r)) == after_transport(old(p)@, max, err@, shown@),
        old(p)@.holds(max) && r is None ==> final(p)@.holds(max),
{
    let gone = match &err {
        JmapError::Connect(_) => true,
        _ => false,
    };
    if gone {
        return Some(err);
    }
    p.attempt = p.attempt + 1;
    p.retries = next_count(p.retries);
    if p.attempt > max {
        return Some(JmapError::RetriesExhausted(shown));
    }
    None
}

/// The text for a status: `server returned {status}: {body}`.
pub open spec fn server_returned(status: u16, body: Seq<u8>) -> Seq<char> {
    "server returned "@ + text::decimal_text(status as nat) + (": "@ + truncated(body))
}

fn returned_text(status: u16, body: &[u8]) -> (r: String)
    ensures
        r@ == server_returned(status, body@),
{
    let tail = text::joined(": ", truncate(body).as_str());
    text::joined3("server returned ", text::decimal(status as u128).as_str(), tail.as_str())
}

/// The text for a request that is refused again and again.
pub open spec fn kept_returning(what: Seq<char>, status: u16) -> Seq<char> {
    what + " kept returning "@ + text::decimal_text(status as nat)
}

fn kept_text(what: &str, status: u16) -> (r: String)
    ensures
        r@ == kept_returning(what@, status),
{
    text::joined3(what, " kept returning ", text::decimal(status as u128).as_str())
}

/// A method and a URL.
pub open spec fn line_of(method: Seq<char>, url: Seq<char>) -> Seq<char> {
    method + " "@ + url
}

/// The text for a redirect that names no location.
pub open spec fn no_location(line: Seq<char>, status: u16, tail: Seq<char>) -> Seq<char> {
    line + " returned "@ + text::decimal_text(status as nat) + (" without Location"@ + tail)
}

fn no_location_text(line: &str, status: u16, tail: &str) -> (r: String)
    ensures
        r@ == no_location(line@, status, tail@),
{
    let mut out = text::joined3(line, " returned ", text::decimal(status as u128).as_str());
    out.append(text::joined(" without Location", tail).as_str());
    out
}

/// A request that is sent again at once, unless it failed.
pub open spec fn sent_on<T>(step: (ProgressView, Option<JmapErrorView>)) -> (ProgressView, NextView<T>) {
    (
        step.0,
        match step.1 {
            Some(e) => NextView::Fail(e),
            None => NextView::Send,
        },
    )
}

/// A request that is sent again after the throttle's delay, unless it failed.
pub open spec fn throttled_on<T>(
    step: (ProgressView, Option<JmapErrorView>),
    retry_after: Option<u64>,
) -> (ProgressView, NextView<T>) {
    (
        step.0,
        match step.1 {
            Some(e) => NextView::Fail(e),
            None => NextView::Throttled { retry_after },
        },
    )
}

/// What a reply that is read as a whole leads to. `joined` is the location
/// joined to the current URL, and `outcome` how the status and body are to be
/// taken where they are neither a success nor a redirect.
pub open spec fn after_reply(
    p: ProgressView,
    method: Seq<char>,
    max: u32,
    response: ResponseView,
    retry_after: Option<u64>,
    location: Option<Seq<char>>,
    joined: Result<Seq<char>, Seq<char>>,
    outcome: DavOutcome,
) -> (ProgressView, NextView<ResponseView>) {
    let line = line_of(method, p.current);
    if is_success(response.status) {
        (p, NextView::Done { value: response, calm: true })
    } else if is_redirect(response.status) {
        if location is Some {
            sent_on(after_redirect(p, joined))
        } else {
            (
                p,
                NextView::Fail(
                    JmapErrorView::Connect(
                        no_location(line, response.status, ": "@ + truncated(response.body)),
                    ),
                ),
            )
        }
    } else {
        match outcome {
            DavOutcome::Vanished | DavOutcome::Success => (
                p,
                NextView::Done {
                    value: ResponseView { etag: None, content_type: None, last_modified: None, ..response },
                    calm: false,
                },
            ),
            DavOutcome::Auth => (
                p,
                NextView::Fail(JmapErrorView::Auth(server_returned(response.status, response.body))),
            ),
            DavOutcome::Fatal => (
                p,
                NextView::Fail(
                    JmapErrorView::HttpStatus { status: response.status, body: truncated(response.body) },
                ),
            ),
            DavOutcome::Retryable => throttled_on(
                after_throttle(p, max, retry_after, kept_returning(line, response.status)),
                retry_after,
            ),
        }
    }
}

/// The view of what comes next after a complete reply.
pub open spec fn next_response(n: Next<DavHttpResponse>) -> NextView<ResponseView> {
    match n {
        Next::Send => NextView::Send,
        Next::Throttled { retry_after } => NextView::Throttled { retry_after },
        Next::Done { value, calm } => NextView::Done { value: value@, calm },
        Next::Fail(e) => NextView::Fail(e@),
    }
}

/// As [`execute`], with the location already joined to the current URL.
pub fn execute_joined(
    p: &mut Progress,
    method: &str,
    max: u32,
    answer: Answer,
    joined: Result<String, String>,
    outcome: DavOutcome,
) -> (r: Next<DavHttpResponse>)
    requires
        old(p).attempt < u32::MAX,
        outcome == DavOutcome::Success ==> is_success(answer.response.status) || is_redirect(
            answer.response.status,
        ),
    ensures
        (final(p)@, next_response(r)) == after_reply(
            old(p)@,
            method@,
            max,
            answer.response@,
            answer.retry_after,
            text::opt_text(answer.location),
            joined_view(joined),
            outcome,
        ),
        old(p)@.holds(max) && !(r is Fail) ==> final(p)@.holds(max),
{
    let status: u16 = answer.response.status;
    if success_status(status) {
        return Next::Done { value: answer.response, calm: true };
    }
    let line = text::joined3(method, " ", p.current.as_str());
    if is_redirect_status(status) {
        if answer.location.is_some() {
            return match follow(p, joined) {
                Some(e) => Next::Fail(e),
                None => Next::Send,
            };
        }
        let tail = text::joined(": ", truncate(answer.response.body.as_slice()).as_str());
        return Next::Fail(JmapError::Connect(no_location_text(line.as_str(), status, tail.as_str())));
    }
    match outcome {
        DavOutcome::Vanished | DavOutcome::Success => {
            let response = DavHttpResponse {
                status,
                body: answer.response.body,
                etag: None,
                content_type: None,
                last_modified: None,
            };
            Next::Done { value: response, calm: false }
        },
        DavOutcome::Auth => Next::Fail(
            JmapError::Auth(returned_text(status, answer.response.body.as_slice())),
        ),
        DavOutcome::Fatal => Next::Fail(
            JmapError::HttpStatus { status, body: truncate(answer.response.body.as_slice()) },
        ),
        DavOutcome::Retryable => match throttle(
            p,
            max,
            answer.retry_after,
            kept_text(line.as_str(), status),
        ) {
            Some(e) => Next::Fail(e),
            None => Next::Throttled { retry_after: answer.retry_after },
        },
    }
}

/// Decides what a reply to a `PROPFIND`, `REPORT` or `GET` that is read as a
/// whole leads to; see [`after_reply`]. A location is taken against the current
/// URL. A status that is neither a success nor a redirect is not taken for a
/// success.
pub fn execute(p: &mut Progress, method: &str, max: u32, answer: Answer, outcome: DavOutcome) -> (r: Next<
    DavHttpResponse,
>)
    requires
        old(p).attempt < u32::MAX,
        outcome == DavOutcome::Success ==> is_success(answer.response.status) || is_redirect(
            answer.response.status,
        ),
    ensures
        (final(p)@, next_response(r)) == after_reply(
            old(p)@,
            method@,
            max,
            answer.response@,
            answer.retry_after,
            text::opt_text(answer.location),
            location_at(old(p)@.current, text::opt_text(answer.location)),
            outcome,
        ),
        old(p)@.holds(max) && !(r is Fail) ==> final(p)@.holds(max),
{
    let joined = join_location(p.current.as_str(), &answer.location);
    execute_joined(p, method, max, answer, joined, outcome)
}

/// A reply whose body is streamed: `Body` hands the body on with these headers,
/// `Missing` stands for a resource that is not there.
pub enum DavStream {
    Body {
        status: u16,
        etag: Option<String>,
        content_type: Option<String>,
        last_modified: Option<String>,
    },
    Missing { status: u16 },
}

/// The view of a [`DavStream`].
pub enum StreamView {
    Body {
        status: u16,
        etag: Option<Seq<char>>,
        content_type: Option<Seq<char>>,
        last_modified: Option<Seq<char>>,
    },
    Missing { status: u16 },
}

impl View for DavStream {
    type V = StreamView;

    open spec fn view(&self) -> StreamView {
        match self {
            DavStream::Body { status, etag, content_type, last_modified } => StreamView::Body {
                status: *status,
                etag: text::opt_text(*etag),
                content_type: text::opt_text(*content_type),
                last_modified: text::opt_text(*last_modified),
            },
            DavStream::Missing { status } => StreamView::Missing { status: *status },
        }
    }
}

/// What a status that a streamed download cannot use leads to.
pub open spec fn after_status(
    p: ProgressView,
    max: u32,
    status: u16,
    body: Seq<u8>,
    retry_after: Option<u64>,
    outcome: DavOutcome,
) -> (ProgressView, NextView<StreamView>) {
    match outcome {
        DavOutcome::Vanished | DavOutcome::Fatal => (
            p,
            NextView::Fail(JmapErrorView::HttpStatus { status, body: truncated(body) }),
        ),
        DavOutcome::Auth => (
            p,
            NextView::Fail(JmapErrorView::Auth("server returned "@ + text::decimal_text(status as nat))),
        ),
        DavOutcome::Retryable => throttled_on(
            after_throttle(p, max, retry_after, kept_returning("GET stream"@, status)),
            retry_after,
        ),
        DavOutcome::Success => (p, NextView::Send),
    }
}

/// What a reply to a streamed download leads to. The body is that of a reply
/// which is neither a success, a missing resource nor a redirect to a location.
pub open spec fn after_stream_reply(
    p: ProgressView,
    max: u32,
    response: ResponseView,
    retry_after: Option<u64>,
    location: Option<Seq<char>>,
    joined: Result<Seq<char>, Seq<char>>,
    outcome: DavOutcome,
) -> (ProgressView, NextView<StreamView>) {
    let status = response.status;
    if is_success(status) {
        (
            p,
            NextView::Done {
                value: StreamView::Body {
                    status,
                    etag: response.etag,
                    content_type: response.content_type,
                    last_modified: response.last_modified,
                },
                calm: true,
            },
        )
    } else if status == 404 || status == 410 {
        (p, NextView::Done { value: StreamView::Missing { status }, calm: true })
    } else if is_redirect(status) && location is Some {
        sent_on(after_redirect(p, joined))
    } else {
        after_status(p, max, status, response.body, retry_after, outcome)
    }
}

/// The view of what comes next after a reply whose body is streamed.
pub open spec fn next_stream(n: Next<DavStream>) -> NextView<StreamView> {
    match n {
        Next::Send => NextView::Send,
        Next::Throttled { retry_after } => NextView::Throttled { retry_after },
        Next::Done { value, calm } => NextView::Done { value: value@, calm },
        Next::Fail(e) => NextView::Fail(e@),
    }
}

/// See [`after_status`].
pub fn handle_status(
    p: &mut Progress,
    max: u32,
    status: u16,
    body: &[u8],
    retry_after: Option<u64>,
    outcome: DavOutcome,
) -> (r: Next<DavStream>)
    requires
        old(p).attempt < u32::MAX,
    ensures
        (final(p)@, next_stream(r)) == after_status(old(p)@, max, status, body@, retry_after, outcome),
        old(p)@.holds(max) && !(r is Fail) ==> final(p)@.holds(max),
{
    match outcome {
        DavOutcome::Vanished | DavOutcome::Fatal => Next::Fail(
            JmapError::HttpStatus { status, body: truncate(body) },
        ),
        DavOutcome::Auth => Next::Fail(
            JmapError::Auth(text::joined("server returned ", text::decimal(status as u128).as_str())),
        ),
        DavOutcome::Retryable => match throttle(p, max, retry_after, kept_text("GET stream", status)) {
            Some(e) => Next::Fail(e),
            None => Next::Throttled { retry_after },
        },
        DavOutcome::Success => Next::Send,
    }
}

/// As [`get_stream`], with the location already joined to the current URL.
pub fn get_stream_joined(
    p: &mut Progress,
    max: u32,
    answer: Answer,
    joined: Result<String, String>,
    outcome: DavOutcome,
) -> (r: Next<DavStream>)
    requires
        old(p).attempt < u32::MAX,
    ensures
        (final(p)@, next_stream(r)) == after_stream_reply(
            old(p)@,
            max,
            answer.response@,
            answer.retry_after,
            text::opt_text(answer.location),
            joined_view(joined),
            outcome,
        ),
        old(p)@.holds(max) && !(r is Fail) ==> final(p)@.holds(max),
{
    let status: u16 = answer.response.status;
    if success_status(status) {
        return Next::Done {
            value: DavStream::Body {
                status,
                etag: answer.response.etag,
                content_type: answer.response.content_type,
                last_modified: answer.response.last_modified,
            },
            calm: true,
        };
    }
    if status == 404 || status == 410 {
        return Next::Done { value: DavStream::Missing { status }, calm: true };
    }
    if is_redirect_status(status) && answer.location.is_some() {
        return match follow(p, joined) {
            Some(e) => Next::Fail(e),
            None => Next::Send,
        };
    }
    handle_status(p, max, status, answer.response.body.as_slice(), answer.retry_after, outcome)
}

/// Decides what a reply to a streamed download leads to; see
/// [`after_stream_reply`]. A location is taken against the current URL.
pub fn get_stream(p: &mut Progress, max: u32, answer: Answer, outcome: DavOutcome) -> (r: Next<DavStream>)
    requires
        old(p).attempt < u32::MAX,
    ensures
        (final(p)@, next_stream(r)) == after_stream_reply(
            old(p)@,
            max,
            answer.response@,
            answer.retry_after,
            text::opt_text(answer.location),
            location_at(old(p)@.current, text::opt_text(answer.location)),
            outcome,
        ),
        old(p)@.holds(max) && !(r is Fail) ==> final(p)@.holds(max),
{
    let joined = join_location(p.current.as_str(), &answer.location);
    get_stream_joined(p, max, answer, joined, outcome)
}

/// The start of a multistatus reply: `Parse` has its body read against a base
/// URL, `Empty` stands for a collection that is not there.
pub enum MultiStatus {
    Parse { status: u16, base: String, final_url: String },
    Empty { status: u16, final_url: String },
}

/// The view of a [`MultiStatus`].
pub enum MultiView {
    Parse { status: u16, base: Seq<char>, final_url: Seq<char> },
    Empty { status: u16, final_url: Seq<char> },
}

impl View for MultiStatus {
    type V = MultiView;

    open spec fn view(&self) -> MultiView {
        match self {
            MultiStatus::Parse { status, base, final_url } => MultiView::Parse {
                status: *status,
                base: base@,
                final_url: final_url@,
            },
            MultiStatus::Empty { status, final_url } => MultiView::Empty {
                status: *status,
                final_url: final_url@,
            },
        }
    }
}

/// What a reply to a request for a multistatus leads to. Responses are read
/// against `base_url` unless the request was redirected. `body` is that of a
/// reply which is neither a redirect nor a success, or why it could not be read.
pub open spec fn after_multistatus_reply(
    p: ProgressView,
    method: Seq<char>,
    base_url: Seq<char>,
    max: u32,
    status: u16,
    body: Result<Seq<u8>, Seq<char>>,
    retry_after: Option<u64>,
    location: Option<Seq<char>>,
    joined: Result<Seq<char>, Seq<char>>,
    outcome: DavOutcome,
) -> (ProgressView, NextView<MultiView>) {
    if is_redirect(status) {
        if location is Some {
            sent_on(after_redirect(p, joined))
        } else {
            (
                p,
                NextView::Fail(
                    JmapErrorView::Connect(no_location(line_of(method, p.current), status, Seq::empty())),
                ),
            )
        }
    } else if is_success(status) {
        (
            p,
            NextView::Done {
                value: MultiView::Parse {
                    status,
                    base: if p.current == p.original {
                        base_url
                    } else {
                        p.current
                    },
                    final_url: p.current,
                },
                calm: true,
            },
        )
    } else {
        match body {
            Err(e) => (p, NextView::Fail(JmapErrorView::Transport("reading error body: "@ + e))),
            Ok(bytes) => match outcome {
                DavOutcome::Vanished | DavOutcome::Success => (
                    p,
                    NextView::Done { value: MultiView::Empty { status, final_url: p.current }, calm: false },
                ),
                DavOutcome::Auth => (p, NextView::Fail(JmapErrorView::Auth(server_returned(status, bytes)))),
                DavOutcome::Fatal => (
                    p,
                    NextView::Fail(JmapErrorView::HttpStatus { status, body: truncated(bytes) }),
                ),
                DavOutcome::Retryable => throttled_on(
                    after_throttle(
                        p,
                        max,
                        retry_after,
                        kept_returning(line_of(method, p.original), status),
                    ),
                    retry_after,
                ),
            },
        }
    }
}

/// The view of what comes next after a reply to a request for a multistatus.
pub open spec fn next_multi(n: Next<MultiStatus>) -> NextView<MultiView> {
    match n {
        Next::Send => NextView::Send,
        Next::Throttled { retry_after } => NextView::Throttled { retry_after },
        Next::Done { value, calm } => NextView::Done { value: value@, calm },
        Next::Fail(e) => NextView::Fail(e@),
    }
}

/// The view of a body that may not have been readable.
pub open spec fn body_view(body: Result<Vec<u8>, String>) -> Result<Seq<u8>, Seq<char>> {
    match body {
        Ok(b) => Ok(b@),
        Err(e) => Err(e@),
    }
}

/// A reply to a request for a multistatus. `body` is read only where the status
/// is neither a redirect nor a success.
pub struct MultiAnswer {
    pub status: u16,
    pub body: Result<Vec<u8>, String>,
    pub retry_after: Option<u64>,
    pub location: Option<String>,
}

/// As [`stream_multistatus`], with the location already joined to the current
/// URL.
pub fn stream_multistatus_joined(
    p: &mut Progress,
    method: &str,
    base_url: &str,
    max: u32,
    answer: MultiAnswer,
    joined: Result<String, String>,
    outcome: DavOutcome,
) -> (r: Next<MultiStatus>)
    requires
        old(p).attempt < u32::MAX,
        outcome == DavOutcome::Success ==> is_success(answer.status) || is_redirect(answer.status),
    ensures
        (final(p)@, next_multi(r)) == after_multistatus_reply(
            old(p)@,
            method@,
            base_url@,
            max,
            answer.status,
            body_view(answer.body),
            answer.retry_after,
            text::opt_text(answer.location),
            joined_view(joined),
            outcome,
        ),
        old(p)@.holds(max) && !(r is Fail) ==> final(p)@.holds(max),
{
    let status: u16 = answer.status;
    if is_redirect_status(status) {
        if answer.location.is_some() {
            return match follow(p, joined) {
                Some(e) => Next::Fail(e),
                None => Next::Send,
            };
        }
        let line = text::joined3(method, " ", p.current.as_str());
        let empty = String::new();
        return Next::Fail(JmapError::Connect(no_location_text(line.as_str(), status, empty.as_str())));
    }
    if success_status(status) {
        let base = if text::same(p.current.as_str(), p.original.as_str()) {
            base_url.to_owned()
        } else {
            p.current.clone()
        };
        return Next::Done { value: MultiStatus::Parse { status, base, final_url: p.current.clone() }, calm: true };
    }
    match answer.body {
        Err(e) => Next::Fail(JmapError::Transport(text::joined("reading error body: ", e.as_str()))),
        Ok(bytes) => match outcome {
            DavOutcome::Vanished | DavOutcome::Success => Next::Done {
                value: MultiStatus::Empty { status, final_url: p.current.clone() },
                calm: false,
            },
            DavOutcome::Auth => Next::Fail(JmapError::Auth(returned_text(status, bytes.as_slice()))),
            DavOutcome::Fatal => Next::Fail(
                JmapError::HttpStatus { status, body: truncate(bytes.as_slice()) },
            ),
            DavOutcome::Retryable => {
                let line = text::joined3(method, " ", p.original.as_str());
                match throttle(p, max, answer.retry_after, kept_text(line.as_str(), status)) {
                    Some(e) => Next::Fail(e),
                    None => Next::Throttled { retry_after: answer.retry_after },
                }
            },
        },
    }
}

/// Decides what a reply to a request for a multistatus leads to; see
/// [`after_multistatus_reply`]. A location is taken against the current URL. A
/// status that is neither a success nor a redirect is not taken for a success.
pub fn stream_multistatus(
    p: &mut Progress,
    method: &str,
    base_url: &str,
    max: u32,
    answer: MultiAnswer,
    outcome: DavOutcome,
) -> (r: Next<MultiStatus>)
    requires
        old(p).attempt < u32::MAX,
        outcome == DavOutcome::Success ==> is_success(answer.status) || is_redirect(answer.status),
    ensures
        (final(p)@, next_multi(r)) == after_multistatus_reply(
            old(p)@,
            method@,
            base_url@,
            max,
            answer.status,
            body_view(answer.body),
            answer.retry_after,
            text::opt_text(answer.location),
            location_at(old(p)@.current, text::opt_text(answer.location)),
            outcome,
        ),
        old(p)@.holds(max) && !(r is Fail) ==> final(p)@.holds(max),
{
    let joined = join_location(p.current.as_str(), &answer.location);
    stream_multistatus_joined(p, method, base_url, max, answer, joined, outcome)
}

/// How much of the body of a reply is read: none of a redirect to a location,
/// at most [`MAX_BODY`] of a success, at most [`MAX_ERROR_BODY`] of the rest.
pub fn body_limit(status: u16, has_location: bool) -> (r: Option<u64>)
    ensures
        r == if is_redirect(status) && has_location {
            None::<u64>
        } else if is_success(status) {
            Some(MAX_BODY)
        } else {
            Some(MAX_ERROR_BODY)
        },
{
    if is_redirect_status(status) && has_location {
        None
    } else if success_status(status) {
        Some(MAX_BODY)
    } else {
        Some(MAX_ERROR_BODY)
    }
}

/// A request as it goes out.
pub struct WireRequest {
    pub method: String,
    pub url: String,
    pub body: Option<Vec<u8>>,
    pub content_type: Option<String>,
    pub depth: Option<u8>,
    pub accept: String,
    pub include_auth: bool,
}

/// A header and its value.
pub type Header = (Seq<char>, Seq<char>);

/// A list of headers with one more, where there is a value for it.
pub open spec fn with_header(h: Seq<Header>, name: Seq<char>, value: Option<Seq<char>>) -> Seq<Header> {
    match value {
        Some(v) => h.push((name, v)),
        None => h,
    }
}

/// The headers of a request.
pub open spec fn headers_of(req: WireRequest, user_agent: Seq<char>, auth: Seq<char>) -> Seq<Header> {
    let h = with_header(Seq::empty(), "Accept"@, Some(req.accept@));
    let h = with_header(h, "User-Agent"@, Some(user_agent));
    let h = with_header(
        h,
        "Authorization"@,
        if req.include_auth {
            Some(auth)
        } else {
            None
        },
    );
    let h = with_header(
        h,
        "Depth"@,
        match req.depth {
            Some(d) => Some(text::decimal_text(d as nat)),
            None => None,
        },
    );
    with_header(h, "Content-Type"@, text::opt_text(req.content_type))
}

/// The views of a list of headers.
pub open spec fn header_views(h: Seq<(String, String)>) -> Seq<Header> {
    Seq::new(h.len(), |i: int| (h[i].0@, h[i].1@))
}

fn add_header(h: &mut Vec<(String, String)>, name: &str, value: Option<&str>)
    ensures
        header_views(final(h)@) == with_header(header_views(old(h)@), name@, text::opt_str(value)),
{
    match value {
        Some(v) => {
            let ghost was = header_views(h@);
            h.push((name.to_owned(), v.to_owned()));
            assert(header_views(h@) =~= was.push((name@, v@)));
        },
        None => {},
    }
}

/// See [`headers_of`].
pub fn request_headers(req: &WireRequest, user_agent: &str, auth: &str) -> (r: Vec<(String, String)>)
    ensures
        header_views(r@) == headers_of(*req, user_agent@, auth@),
{
    let mut h: Vec<(String, String)> = Vec::new();
    assert(header_views(h@) =~= Seq::<Header>::empty());
    add_header(&mut h, "Accept", Some(req.accept.as_str()));
    add_header(&mut h, "User-Agent", Some(user_agent));
    if req.include_auth {
        add_header(&mut h, "Authorization", Some(auth));
    }
    match req.depth {
        Some(d) => {
            let shown = text::decimal(d as u128);
            add_header(&mut h, "Depth", Some(shown.as_str()));
        },
        None => {},
    }
    add_header(&mut h, "Content-Type", text::borrowed(&req.content_type));
    h
}

/// Credentials go out with a request exactly where it says so.
pub proof fn credentials_only_where_asked(req: WireRequest, user_agent: Seq<char>, auth: Seq<char>)
    ensures
        (exists|i: int|
            0 <= i < headers_of(req, user_agent, auth).len() && (#[trigger] headers_of(req, user_agent, auth)[i]).0
                == "Authorization"@) <==> req.include_auth,
{
    reveal_strlit("Accept");
    reveal_strlit("User-Agent");
    reveal_strlit("Authorization");
    reveal_strlit("Depth");
    reveal_strlit("Content-Type");
    let h = headers_of(req, user_agent, auth);
    if req.include_auth {
        assert(h[2].0 == "Authorization"@);
    } else {
        assert forall|i: int| 0 <= i < h.len() implies (#[trigger] h[i]).0 != "Authorization"@ by {
            assert("Accept"@.len() == 6);
            assert("User-Agent"@.len() == 10);
            assert("Authorization"@.len() == 13);
            assert("Depth"@.len() == 5);
            assert("Content-Type"@.len() == 12);
        }
    }
}

/// A `PROPFIND` or `REPORT` with an XML body; a `GET` without one.
pub open spec fn xml_request(
    method: Seq<char>,
    url: Seq<char>,
    depth: u8,
    body: Seq<u8>,
    r: WireRequest,
) -> bool {
    &&& r.method@ == method
    &&& r.url@ == url
    &&& r.body matches Some(b) && b@ == body
    &&& text::opt_text(r.content_type) == Some("application/xml; charset=utf-8"@)
    &&& r.depth == Some(depth)
    &&& r.accept@ == "application/xml, text/xml;q=0.9, */*;q=0.5"@
    &&& r.include_auth
}

fn xml(method: &str, url: &str, depth: u8, body: &str) -> (r: WireRequest)
    ensures
        xml_request(method@, url@, depth, body.spec_bytes(), r),
{
    WireRequest {
        method: method.to_owned(),
        url: url.to_owned(),
        body: Some(body.as_bytes_vec()),
        content_type: Some("application/xml; charset=utf-8".to_owned()),
        depth: Some(depth),
        accept: "application/xml, text/xml;q=0.9, */*;q=0.5".to_owned(),
        include_auth: true,
    }
}

/// A client: how it presents itself, how often it tries again, and what it has
/// seen so far.
pub struct DavClient {
    pub authorization: String,
    pub user_agent: String,
    pub max_retries: u32,
    pub retries: u64,
    pub sleeps: u64,
}

impl DavClient {
    /// A client that has sent nothing yet.
    pub fn new(authorization: &str, version: &str, max_retries: u32) -> (r: DavClient)
        ensures
            r.authorization@ == authorization@,
            r.user_agent@ == "vandelay/"@ + version@,
            r.max_retries == max_retries,
            r.retries == 0,
            r.sleeps == 0,
    {
        DavClient {
            authorization: authorization.to_owned(),
            user_agent: text::joined("vandelay/", version),
            max_retries,
            retries: 0,
            sleeps: 0,
        }
    }

    /// How often requests were repeated.
    pub fn retries_observed(&self) -> (r: u64)
        ensures
            r == self.retries,
    {
        self.retries
    }

    /// How often a server named the time to wait.
    pub fn retry_after_sleeps(&self) -> (r: u64)
        ensures
            r == self.sleeps,
    {
        self.sleeps
    }

    /// Takes in what a request has seen; the counters start over after their last.
    pub fn absorb(&mut self, p: &Progress)
        ensures
            final(self).retries == (old(self).retries + p.retries) % 0x1_0000_0000_0000_0000,
            final(self).sleeps == (old(self).sleeps + p.retry_after_sleeps) % 0x1_0000_0000_0000_0000,
            final(self).authorization == old(self).authorization,
            final(self).user_agent == old(self).user_agent,
            final(self).max_retries == old(self).max_retries,
    {
        self.retries = self.retries.wrapping_add(p.retries);
        self.sleeps = self.sleeps.wrapping_add(p.retry_after_sleeps);
    }

    /// The headers of a request of this client; see [`headers_of`].
    pub fn headers(&self, req: &WireRequest) -> (r: Vec<(String, String)>)
        ensures
            header_views(r@) == headers_of(*req, self.user_agent@, self.authorization@),
    {
        request_headers(req, self.user_agent.as_str(), self.authorization.as_str())
    }

    /// The first request of a `PROPFIND`.
    pub fn propfind(&self, url: &str, depth: u8, body: &str) -> (r: WireRequest)
        ensures
            xml_request("PROPFIND"@, url@, depth, body.spec_bytes(), r),
    {
        xml("PROPFIND", url, depth, body)
    }

    /// The first request of a `REPORT`.
    pub fn report(&self, url: &str, depth: u8, body: &str) -> (r: WireRequest)
        ensures
            xml_request("REPORT"@, url@, depth, body.spec_bytes(), r),
    {
        xml("REPORT", url, depth, body)
    }

    /// The first request of a `GET`.
    pub fn get(&self, url: &str) -> (r: WireRequest)
        ensures
            r.method@ == "GET"@,
            r.url@ == url@,
            r.body is None,
            r.content_type is None,
            r.depth is None,
            r.accept@ == "*/*"@,
            r.include_auth,
    {
        WireRequest {
            method: "GET".to_owned(),
            url: url.to_owned(),
            body: None,
            content_type: None,
            depth: None,
            accept: "*/*".to_owned(),
            include_auth: true,
        }
    }
}

/// Why a request could not be sent.
pub enum SendFailure {
    Io(String),
    Timeout(String),
    HostNotFound,
    ConnectionFailed,
    BodyStalled,
    Tls(String),
    TooManyRedirects,
    RedirectFailed,
    TlsRequired,
    Other(String),
}

/// The error for a request that could not be sent. Those that another attempt
/// may overcome are transport errors.
pub open spec fn send_error(f: SendFailure) -> JmapErrorView {
    match f {
        SendFailure::Io(m) => JmapErrorView::Transport("io: "@ + m@),
        SendFailure::Timeout(m) => JmapErrorView::Transport("timeout: "@ + m@),
        SendFailure::HostNotFound => JmapErrorView::Transport("host not found"@),
        SendFailure::ConnectionFailed => JmapErrorView::Transport("connection failed"@),
        SendFailure::BodyStalled => JmapErrorView::Transport("body stalled"@),
        SendFailure::Tls(m) => JmapErrorView::Transport("tls: "@ + m@),
        SendFailure::TooManyRedirects => JmapErrorView::Connect("too many redirects"@),
        SendFailure::RedirectFailed => JmapErrorView::Connect("redirect failed"@),
        SendFailure::TlsRequired => JmapErrorView::Connect(
            "server requires TLS but transport is unsecured"@,
        ),
        SendFailure::Other(m) => JmapErrorView::Connect(m@),
    }
}

/// See [`send_error`].
pub fn map_send_failure(f: SendFailure) -> (r: JmapError)
    ensures
        r@ == send_error(f),
{
    match f {
        SendFailure::Io(m) => JmapError::Transport(text::joined("io: ", m.as_str())),
        SendFailure::Timeout(m) => JmapError::Transport(text::joined("timeout: ", m.as_str())),
        SendFailure::HostNotFound => JmapError::Transport("host not found".to_owned()),
        SendFailure::ConnectionFailed => JmapError::Transport("connection failed".to_owned()),
        SendFailure::BodyStalled => JmapError::Transport("body stalled".to_owned()),
        SendFailure::Tls(m) => JmapError::Transport(text::joined("tls: ", m.as_str())),
        SendFailure::TooManyRedirects => JmapError::Connect("too many redirects".to_owned()),
        SendFailure::RedirectFailed => JmapError::Connect("redirect failed".to_owned()),
        SendFailure::TlsRequired => JmapError::Connect(
            "server requires TLS but transport is unsecured".to_owned(),
        ),
        SendFailure::Other(m) => JmapError::Connect(m),
    }
}

/// The number of times a request can still be sent after this point.
pub open spec fn sends_left(p: ProgressView, max: u32) -> int {
    (MAX_DAV_REDIRECTS - p.redirects) + (max - p.attempt)
}

/// Requests end: each reply that has a request sent again uses up a redirect or
/// an attempt, so that it is sent at most `1 + 5 + max` times.
pub proof fn requests_end(
    p: ProgressView,
    method: Seq<char>,
    max: u32,
    response: ResponseView,
    retry_after: Option<u64>,
    location: Option<Seq<char>>,
    joined: Result<Seq<char>, Seq<char>>,
    outcome: DavOutcome,
)
    requires
        p.holds(max),
        p.attempt < u32::MAX,
    ensures
        ({
            let (q, n) = after_reply(p, method, max, response, retry_after, location, joined, outcome);
            n is Send || n is Throttled ==> q.holds(max) && 0 <= sends_left(q, max) == sends_left(p, max) - 1
        }),
{
}

/// Multistatus requests end, as other requests do.
pub proof fn multistatus_requests_end(
    p: ProgressView,
    method: Seq<char>,
    base_url: Seq<char>,
    max: u32,
    status: u16,
    body: Result<Seq<u8>, Seq<char>>,
    retry_after: Option<u64>,
    location: Option<Seq<char>>,
    joined: Result<Seq<char>, Seq<char>>,
    outcome: DavOutcome,
)
    requires
        p.holds(max),
        p.attempt < u32::MAX,
    ensures
        ({
            let (q, n) = after_multistatus_reply(
                p,
                method,
                base_url,
                max,
                status,
                body,
                retry_after,
                location,
                joined,
                outcome,
            );
            n is Send || n is Throttled ==> q.holds(max) && 0 <= sends_left(q, max) == sends_left(p, max) - 1
        }),
{
}

/// Streamed downloads end, as other requests do, as long as no status that a
/// download cannot use is taken for a success.
pub proof fn streamed_downloads_end(
    p: ProgressView,
    max: u32,
    response: ResponseView,
    retry_after: Option<u64>,
    location: Option<Seq<char>>,
    joined: Result<Seq<char>, Seq<char>>,
    outcome: DavOutcome,
)
    requires
        p.holds(max),
        p.attempt < u32::MAX,
        outcome != DavOutcome::Success,
    ensures
        ({
            let (q, n) = after_stream_reply(p, max, response, retry_after, location, joined, outcome);
            n is Send || n is Throttled ==> q.holds(max) && 0 <= sends_left(q, max) == sends_left(p, max) - 1
        }),
{
}

/// A failed transport uses up an attempt too.
pub proof fn failed_transports_end(p: ProgressView, max: u32, err: JmapErrorView, shown: Seq<char>)
    requires
        p.holds(max),
        p.attempt < u32::MAX,
    ensures
        ({
            let (q, e) = after_transport(p, max, err, shown);
            e is None ==> q.holds(max) && 0 <= sends_left(q, max) == sends_left(p, max) - 1
        }),
{
}

/// Once a redirect has left the origin, credentials are not sent again: they are
/// dropped where the next URL has another host or port, and no redirect brings
/// them back.
pub proof fn credentials_stay_with_the_origin(p: ProgressView, next: Seq<char>)
    requires
        p.redirects < MAX_DAV_REDIRECTS,
    ensures
        after_redirect(p, Ok(next)).0.current == next,
        after_redirect(p, Ok(next)).0.include_auth ==> p.include_auth && same_origin(p.original, next),
        !p.include_auth ==> !after_redirect(p, Ok(next)).0.include_auth,
{
}

} // verus!
