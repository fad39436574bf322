//! Requests over the web: what replies lead to, and what listings hold.

use vstd::prelude::*;
use vstd::string::*;

use crate::dav::client::{
    after_multistatus_reply, after_reply, after_stream_reply, after_throttle, after_transport, headers_of,
    is_redirect, is_success, same_origin, send_error, truncated, DavOutcome, MultiView, NextView, ProgressView,
    ResponseView, SendFailure, StreamView, WireRequest,
};
use crate::exchange_graph::api::{all_entries, escaped_segment, id_path, ids_in, meta_of, metas_in, top_text};
use crate::jmap::error::JmapErrorView;
use crate::json::JsonView;
use crate::text;

verus! {

/// Statuses from 200 to 299 are successes, and five others lead elsewhere.
pub proof fn statuses_are_told_apart(status: u16)
    ensures
        is_success(status) <==> 200 <= status <= 299,
        is_redirect(status) <==> status == 301 || status == 302 || status == 303 || status == 307 || status == 308,
        !(is_success(status) && is_redirect(status)),
{
}

/// A reply that is a success is handed on as it is, in each way of reading replies.
pub proof fn successes_are_handed_on(
    p: ProgressView,
    method: Seq<char>,
    base_url: Seq<char>,
    max: u32,
    response: ResponseView,
    body: Result<Seq<u8>, Seq<char>>,
    retry_after: Option<u64>,
    location: Option<Seq<char>>,
    joined: Result<Seq<char>, Seq<char>>,
    outcome: DavOutcome,
)
    requires
        200 <= response.status <= 299,
    ensures
        after_reply(p, method, max, response, retry_after, location, joined, outcome) == (
            p,
            NextView::Done { value: response, calm: true },
        ),
        after_stream_reply(p, max, response, retry_after, location, joined, outcome) == (
            p,
            NextView::Done {
                value: StreamView::Body {
                    status: response.status,
                    etag: response.etag,
                    content_type: response.content_type,
                    last_modified: response.last_modified,
                },
                calm: true,
            },
        ),
        ({
            let r = after_multistatus_reply(
                p,
                method,
                base_url,
                max,
                response.status,
                body,
                retry_after,
                location,
                joined,
                outcome,
            );
            &&& r.0 == p
            &&& r.1 == NextView::Done {
                value: MultiView::Parse {
                    status: response.status,
                    base: if p.current == p.original {
                        base_url
                    } else {
                        p.current
                    },
                    final_url: p.current,
                },
                calm: true,
            }
        }),
{
}

/// Whether a request goes on at another address, in its own way.
pub open spec fn goes_on<T>(
    p: ProgressView,
    next: Seq<char>,
    step: (ProgressView, NextView<T>),
) -> bool {
    &&& step.1 is Send
    &&& step.0.current == next
    &&& step.0.original == p.original
    &&& step.0.redirects == p.redirects + 1
    &&& step.0.attempt == p.attempt
    &&& step.0.include_auth <==> p.include_auth && same_origin(p.original, next)
}

/// A redirect to a location is followed, up to five times. Credentials go along exactly
/// while the location is with the server that the request was made for.
pub proof fn redirects_are_followed(
    p: ProgressView,
    method: Seq<char>,
    base_url: Seq<char>,
    max: u32,
    response: ResponseView,
    body: Result<Seq<u8>, Seq<char>>,
    retry_after: Option<u64>,
    location: Seq<char>,
    next: Seq<char>,
    outcome: DavOutcome,
)
    requires
        response.status == 301 || response.status == 302 || response.status == 303 || response.status == 307
            || response.status == 308,
    ensures
        ({
            let whole = after_reply(p, method, max, response, retry_after, Some(location), Ok(next), outcome);
            let stream = after_stream_reply(p, max, response, retry_after, Some(location), Ok(next), outcome);
            let multi = after_multistatus_reply(
                p,
                method,
                base_url,
                max,
                response.status,
                body,
                retry_after,
                Some(location),
                Ok(next),
                outcome,
            );
            &&& p.redirects < 5 ==> goes_on(p, next, whole) && goes_on(p, next, stream) && goes_on(p, next, multi)
            &&& p.redirects >= 5 ==> {
                &&& whole.1 is Fail && whole.1->Fail_0 is Connect
                &&& stream.1 is Fail && stream.1->Fail_0 is Connect
                &&& multi.1 is Fail && multi.1->Fail_0 is Connect
            }
        }),
{
}

/// A redirect that leads nowhere fails: one without a location, and one whose location
/// makes no address.
pub proof fn redirects_to_nowhere_fail(
    p: ProgressView,
    method: Seq<char>,
    base_url: Seq<char>,
    max: u32,
    response: ResponseView,
    body: Result<Seq<u8>, Seq<char>>,
    retry_after: Option<u64>,
    location: Seq<char>,
    why: Seq<char>,
    joined: Result<Seq<char>, Seq<char>>,
    outcome: DavOutcome,
)
    requires
        response.status == 301 || response.status == 302 || response.status == 303 || response.status == 307
            || response.status == 308,
    ensures
        ({
            let none = after_reply(p, method, max, response, retry_after, None, joined, outcome);
            let multi = after_multistatus_reply(
                p,
                method,
                base_url,
                max,
                response.status,
                body,
                retry_after,
                None,
                joined,
                outcome,
            );
            let bad = after_reply(p, method, max, response, retry_after, Some(location), Err(why), outcome);
            &&& none.0 == p && none.1 is Fail && none.1->Fail_0 == JmapErrorView::Connect(
                method + " "@ + p.current + " returned "@ + text::decimal_text(response.status as nat) + (
                " without Location"@ + (": "@ + truncated(response.body))),
            )
            &&& multi.0 == p && multi.1 is Fail && multi.1->Fail_0 is Connect
            &&& bad.1 is Fail && bad.1->Fail_0 is Connect
            &&& p.redirects < 5 ==> bad.1->Fail_0 == JmapErrorView::Connect("redirect: "@ + why)
        }),
{
}

/// What a request does after a throttle or a failed attempt: it is tried again while
/// the attempts last, and then gives up.
pub open spec fn tried_again(p: ProgressView, max: u32, q: ProgressView, e: Option<JmapErrorView>) -> bool {
    &&& q.attempt == p.attempt + 1
    &&& q.current == p.current
    &&& q.original == p.original
    &&& q.redirects == p.redirects
    &&& q.include_auth == p.include_auth
    &&& e is None <==> p.attempt < max
    &&& e is Some ==> e->0 is RetriesExhausted
}

/// A throttled request is tried again while the attempts last, and the time that the
/// server names is handed on.
pub proof fn throttled_requests_are_tried_again(
    p: ProgressView,
    method: Seq<char>,
    max: u32,
    response: ResponseView,
    retry_after: Option<u64>,
    location: Option<Seq<char>>,
    joined: Result<Seq<char>, Seq<char>>,
    complaint: Seq<char>,
)
    requires
        p.attempt < u32::MAX,
        !(200 <= response.status <= 299),
        !is_redirect(response.status),
    ensures
        ({
            let (q, e) = after_throttle(p, max, retry_after, complaint);
            let r = after_reply(p, method, max, response, retry_after, location, joined, DavOutcome::Retryable);
            &&& tried_again(p, max, q, e)
            &&& p.attempt < max && retry_after is Some && p.retry_after_sleeps < u64::MAX ==> q.retry_after_sleeps
                == p.retry_after_sleeps + 1
            &&& p.attempt < max && retry_after is None ==> q.retry_after_sleeps == p.retry_after_sleeps
            &&& p.retries < u64::MAX ==> q.retries == p.retries + 1
            &&& r.0.attempt == p.attempt + 1
            &&& p.attempt < max ==> r.1 == NextView::<ResponseView>::Throttled { retry_after }
            &&& p.attempt >= max ==> r.1 is Fail && r.1->Fail_0 is RetriesExhausted
        }),
{
}

/// A request that did not get through is tried again while the attempts last, unless
/// the error is one that will not go away.
pub proof fn failed_requests_are_tried_again(p: ProgressView, max: u32, err: JmapErrorView, shown: Seq<char>)
    requires
        p.attempt < u32::MAX,
    ensures
        ({
            let (q, e) = after_transport(p, max, err, shown);
            &&& err is Connect ==> q == p && e == Some(err)
            &&& !(err is Connect) ==> tried_again(p, max, q, e)
            &&& !(err is Connect) && e is Some ==> e->0 == JmapErrorView::RetriesExhausted(shown)
        }),
{
}

/// A reply that is no success and no redirect is taken as its outcome says: what is
/// gone is an empty answer, a refusal of the credentials is told as that, and any other
/// fails with its status.
pub proof fn refusals_are_told(
    p: ProgressView,
    method: Seq<char>,
    base_url: Seq<char>,
    max: u32,
    response: ResponseView,
    retry_after: Option<u64>,
    location: Option<Seq<char>>,
    joined: Result<Seq<char>, Seq<char>>,
    why: Seq<char>,
)
    requires
        !(200 <= response.status <= 299),
        !is_redirect(response.status),
    ensures
        ({
            let gone = after_reply(p, method, max, response, retry_after, location, joined, DavOutcome::Vanished);
            let auth = after_reply(p, method, max, response, retry_after, location, joined, DavOutcome::Auth);
            let fatal = after_reply(p, method, max, response, retry_after, location, joined, DavOutcome::Fatal);
            let mgone = after_multistatus_reply(
                p,
                method,
                base_url,
                max,
                response.status,
                Ok(response.body),
                retry_after,
                location,
                joined,
                DavOutcome::Vanished,
            );
            let mauth = after_multistatus_reply(
                p,
                method,
                base_url,
                max,
                response.status,
                Ok(response.body),
                retry_after,
                location,
                joined,
                DavOutcome::Auth,
            );
            let unread = after_multistatus_reply(
                p,
                method,
                base_url,
                max,
                response.status,
                Err(why),
                retry_after,
                location,
                joined,
                DavOutcome::Fatal,
            );
            let told = "server returned "@ + text::decimal_text(response.status as nat) + (": "@ + truncated(
                response.body,
            ));
            &&& gone.1 is Done && gone.1->value.status == response.status && gone.1->value.body == response.body
                && gone.1->value.etag is None && !gone.1->calm
            &&& auth.1 is Fail && auth.1->Fail_0 == JmapErrorView::Auth(told)
            &&& fatal.1 is Fail && fatal.1->Fail_0 == JmapErrorView::HttpStatus {
                status: response.status,
                body: truncated(response.body),
            }
            &&& gone.0 == p && auth.0 == p && fatal.0 == p
            &&& mgone.1 is Done && mgone.1->value == (MultiView::Empty {
                status: response.status,
                final_url: p.current,
            })
            &&& mauth.1 is Fail && mauth.1->Fail_0 == JmapErrorView::Auth(told)
            &&& unread.1 is Fail && unread.1->Fail_0 == JmapErrorView::Transport("reading error body: "@ + why)
        }),
{
}

/// A download of what is not there ends without an error; any other refusal of a
/// download is told.
pub proof fn missing_downloads_are_no_errors(
    p: ProgressView,
    max: u32,
    response: ResponseView,
    retry_after: Option<u64>,
    location: Option<Seq<char>>,
    joined: Result<Seq<char>, Seq<char>>,
    outcome: DavOutcome,
)
    ensures
        ({
            let r = after_stream_reply(p, max, response, retry_after, location, joined, outcome);
            let other = !(200 <= response.status <= 299) && !is_redirect(response.status) && response.status != 404
                && response.status != 410;
            &&& response.status == 404 || response.status == 410 ==> r.0 == p && r.1 is Done && r.1->value == (
            StreamView::Missing { status: response.status })
            &&& other && outcome is Auth ==> r.1 is Fail && r.1->Fail_0 is Auth
            &&& other && (outcome is Fatal || outcome is Vanished) ==> r.1 is Fail && r.1->Fail_0
                == (JmapErrorView::HttpStatus { status: response.status, body: truncated(response.body) })
            &&& other && outcome is Retryable && p.attempt < max && p.attempt < u32::MAX ==> r.1
                == NextView::<StreamView>::Throttled { retry_after }
        }),
{
}

/// A request has a header for what it accepts, who sends it, how deep it goes and what
/// it holds, and credentials exactly where it is to have them.
pub proof fn requests_carry_their_headers(req: WireRequest, user_agent: Seq<char>, auth: Seq<char>)
    ensures
        ({
            let h = headers_of(req, user_agent, auth);
            &&& h.contains(("Accept"@, req.accept@))
            &&& h.contains(("User-Agent"@, user_agent))
            &&& req.include_auth ==> h.contains(("Authorization"@, auth))
            &&& !req.include_auth ==> forall|i: int| 0 <= i < h.len() ==> (#[trigger] h[i]).0 != "Authorization"@
            &&& req.depth is Some ==> h.contains(("Depth"@, text::decimal_text(req.depth->0 as nat)))
            &&& req.content_type is Some ==> h.contains(("Content-Type"@, req.content_type->0@))
            &&& req.depth is None ==> forall|i: int| 0 <= i < h.len() ==> (#[trigger] h[i]).0 != "Depth"@
            &&& req.content_type is None ==> forall|i: int|
                0 <= i < h.len() ==> (#[trigger] h[i]).0 != "Content-Type"@
        }),
{
    reveal_strlit("Accept");
    reveal_strlit("User-Agent");
    reveal_strlit("Authorization");
    reveal_strlit("Depth");
    reveal_strlit("Content-Type");
    assert("Accept"@.len() == 6);
    assert("User-Agent"@.len() == 10);
    assert("Authorization"@.len() == 13);
    assert("Depth"@.len() == 5);
    assert("Content-Type"@.len() == 12);
    let h = headers_of(req, user_agent, auth);
    assert(h[0] == ("Accept"@, req.accept@));
    assert(h[1] == ("User-Agent"@, user_agent));
    if req.include_auth {
        assert(h[2] == ("Authorization"@, auth));
    }
    let at: int = if req.include_auth {
        3
    } else {
        2
    };
    if req.depth is Some {
        assert(h[at] == ("Depth"@, text::decimal_text(req.depth->0 as nat)));
    }
    if req.content_type is Some {
        assert(h[h.len() - 1] == ("Content-Type"@, req.content_type->0@));
    }
}

/// What another attempt may overcome is told apart from what it cannot: a broken or
/// slow connection from a server that cannot be used.
pub proof fn passing_failures_are_told_from_lasting_ones(f: SendFailure)
    ensures
        f is Io || f is Timeout || f is HostNotFound || f is ConnectionFailed || f is BodyStalled || f is Tls
            <==> send_error(f) is Transport,
        f is TooManyRedirects || f is RedirectFailed || f is TlsRequired || f is Other <==> send_error(f) is Connect,
        f matches SendFailure::Io(m) ==> send_error(f) == JmapErrorView::Transport("io: "@ + m@),
        f matches SendFailure::Timeout(m) ==> send_error(f) == JmapErrorView::Transport("timeout: "@ + m@),
        f matches SendFailure::Tls(m) ==> send_error(f) == JmapErrorView::Transport("tls: "@ + m@),
        f matches SendFailure::Other(m) ==> send_error(f) == JmapErrorView::Connect(m@),
        f is HostNotFound ==> send_error(f) == JmapErrorView::Transport("host not found"@),
        f is ConnectionFailed ==> send_error(f) == JmapErrorView::Transport("connection failed"@),
        f is BodyStalled ==> send_error(f) == JmapErrorView::Transport("body stalled"@),
        f is TooManyRedirects ==> send_error(f) == JmapErrorView::Connect("too many redirects"@),
        f is RedirectFailed ==> send_error(f) == JmapErrorView::Connect("redirect failed"@),
        f is TlsRequired ==> send_error(f) == JmapErrorView::Connect(
            "server requires TLS but transport is unsecured"@,
        ),
{
}

proof fn lemma_entries_prefix(pages: Seq<JsonView>, p: JsonView, n: nat)
    requires
        n <= pages.len(),
    ensures
        all_entries(pages.push(p), n) == all_entries(pages, n),
    decreases n,
{
    if n > 0 {
        lemma_entries_prefix(pages, p, (n - 1) as nat);
        assert(pages.push(p)[n - 1] == pages[n - 1]);
    }
}

/// A listing in pages is that of its pages one after the other; a page without entries
/// adds none.
pub proof fn pages_are_put_together(
    pages: Seq<JsonView>,
    p: Map<Seq<char>, JsonView>,
    entries: Seq<JsonView>,
)
    ensures
        all_entries(Seq::empty(), 0).len() == 0,
        p.dom().contains("value"@) && p["value"@] == JsonView::Array(entries) ==> all_entries(
            pages.push(JsonView::Object(p)),
            pages.len() + 1,
        ) == all_entries(pages, pages.len()) + entries,
        !p.dom().contains("value"@) ==> all_entries(pages.push(JsonView::Object(p)), pages.len() + 1) == all_entries(
            pages,
            pages.len(),
        ),
{
    lemma_entries_prefix(pages, JsonView::Object(p), pages.len());
    assert(pages.push(JsonView::Object(p))[pages.len() as int] == JsonView::Object(p));
    assert(all_entries(pages, pages.len()) + Seq::<JsonView>::empty() =~= all_entries(pages, pages.len()));
}

/// Every entry with an id is listed by it, in order, and messages with their state.
pub proof fn entries_are_listed_by_id(entries: Seq<JsonView>, n: nat, i: int, id: Seq<char>)
    requires
        0 <= i < n <= entries.len(),
        entries[i].text_at("id"@) == Some(id),
    ensures
        ids_in(entries, n).contains(id),
        metas_in(entries, n).contains((id, meta_of(entries[i]))),
    decreases n,
{
    let ids = ids_in(entries, n);
    let metas = metas_in(entries, n);
    let e = (id, meta_of(entries[i]));
    if i == n - 1 {
        assert(ids[ids.len() - 1] == id);
        assert(metas[metas.len() - 1] == e);
    } else {
        entries_are_listed_by_id(entries, (n - 1) as nat, i, id);
        let ids1 = ids_in(entries, (n - 1) as nat);
        let metas1 = metas_in(entries, (n - 1) as nat);
        let a = choose|a: int| 0 <= a < ids1.len() && ids1[a] == id;
        assert(ids[a] == id);
        let b = choose|b: int| 0 <= b < metas1.len() && metas1[b] == e;
        assert(metas[b] == e);
    }
}

/// A message is read where its listing says so, and flagged where the flag is set; what
/// is not said is not so.
pub proof fn message_states_are_read(v: Map<Seq<char>, JsonView>, f: Map<Seq<char>, JsonView>, s: Seq<char>)
    ensures
        ({
            let m = meta_of(JsonView::Object(v));
            &&& m.is_read <==> v.dom().contains("isRead"@) && v["isRead"@] == JsonView::Bool(true)
            &&& !v.dom().contains("flag"@) ==> !m.flagged
            &&& v.dom().contains("flag"@) && v["flag"@] == JsonView::Object(f) && f.dom().contains("flagStatus"@)
                && f["flagStatus"@] == JsonView::Str(s) ==> (m.flagged <==> s == "flagged"@)
            &&& v.dom().contains("flag"@) && v["flag"@] == JsonView::Object(f) && !f.dom().contains("flagStatus"@)
                ==> !m.flagged
        }),
{
}

/// An id stands in a path such that it can be told from any other id, and a page asks
/// for as many entries as it was told to.
pub proof fn paths_name_their_object(
    head: Seq<char>,
    a: Seq<char>,
    b: Seq<char>,
    tail: Seq<char>,
    top: usize,
)
    ensures
        id_path(head, a, tail) == id_path(head, b, tail) ==> vstd::utf8::encode_utf8(a) == vstd::utf8::encode_utf8(b),
        text::begins(id_path(head, a, tail), head),
        top_text(head, top, tail) == head + "$top="@ + (text::decimal_text(top as nat) + tail),
{
    let x = id_path(head, a, tail);
    let y = id_path(head, b, tail);
    assert(x.take(head.len() as int) =~= head);
    if x == y {
        let n = escaped_segment(a).len();
        assert(x.len() == head.len() + n + tail.len());
        assert(y.len() == head.len() + escaped_segment(b).len() + tail.len());
        assert(escaped_segment(a) =~= x.subrange(head.len() as int, head.len() + n as int));
        assert(escaped_segment(b) =~= y.subrange(head.len() as int, head.len() + n as int));
        crate::web::percent_encoding_is_injective(vstd::utf8::encode_utf8(a), vstd::utf8::encode_utf8(b));
    }
}

} // verus!
