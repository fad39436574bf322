//! Finding the endpoint of a mailbox.

use vstd::prelude::*;
use vstd::string::*;

use crate::address::UrlView;
use crate::exchange_ews::autodiscover::{
    after_answer, after_lookup, after_v2, candidates_for, domain_of, escaped_char, escaped_text, is_endpoint,
    outcome_of, pieces_read, pox_of, pox_request, read_on, record_address, reference_char, search_begun, spells,
    v1_answer, v2_address, v2_answer, DiscoverySource, PoxView, ReadingView, SearchView, StepView,
};
use crate::exchange_ews::dns::SrvView;
use crate::exchange_ews::error::EwsErrorView;
use crate::exchange_ews::xml::XmlEventView;
use crate::json::JsonView;
use crate::text;

verus! {

/// An endpoint that an address names is found at once, whichever address it is and
/// whatever came before.
pub proof fn named_endpoints_are_found(s: SearchView, u: Seq<char>)
    ensures
        after_answer(s, PoxView::EwsUrl(u)).1 == StepView::Found(u, DiscoverySource::V1),
        after_v2(s, Some(u)).1 == StepView::Found(u, DiscoverySource::V2),
{
}

/// A search fails only where no address named an endpoint, and finds by an answer only
/// what that answer named, or the URL that was supplied.
pub proof fn searches_fail_only_without_an_endpoint(s: SearchView, p: PoxView)
    ensures
        after_answer(s, p).1 is Failed ==> !(p is EwsUrl),
        after_answer(s, p).1 matches StepView::Found(u, source) ==> (source == DiscoverySource::V1 && p
            == PoxView::EwsUrl(u)) || (source == DiscoverySource::SuppliedUrl && s.supplied == Some(u) && !(p is EwsUrl)),
        after_answer(s, p).1 is Failed && !(p is RedirectAddr) && !(p is RedirectUrl) ==> s.supplied is None && s.next
            >= s.candidates.len(),
{
}

/// Addresses are asked one after the other, each about the mailbox: the first once the
/// addresses are known, the next after one that names nothing.
pub proof fn addresses_are_asked_in_order(s: SearchView, candidates: Seq<Seq<char>>)
    ensures
        candidates.len() > 0 ==> ({
            let (t, step) = after_lookup(s, candidates);
            &&& step == StepView::Ask { url: candidates[0], email: s.email }
            &&& t.next == 1 && t.candidates == candidates && t.phase is Candidate && t.email == s.email && t.supplied
                == s.supplied
        }),
        s.next < s.candidates.len() ==> ({
            let (t, step) = after_answer(s, PoxView::Failed);
            &&& step == StepView::Ask { url: s.candidates[s.next as int], email: s.email }
            &&& t.next == s.next + 1 && t.candidates == s.candidates && t.phase is Candidate && t.email == s.email
                && t.supplied == s.supplied && t.redirects == s.redirects && t.url_redirects == s.url_redirects
        }),
        s.next >= s.candidates.len() && s.supplied is None ==> after_answer(s, PoxView::Failed).1 == StepView::Failed(
            EwsErrorView::AutodiscoverFailed(
                "tried "@ + text::decimal_text(s.tried) + " candidate(s), none returned a v1 EwsUrl"@,
            ),
        ),
        s.next >= s.candidates.len() && s.supplied is Some ==> after_answer(s, PoxView::Failed).1 == StepView::Found(
            s.supplied->0,
            DiscoverySource::SuppliedUrl,
        ),
{
}

proof fn lemma_at_splits(user: Seq<char>, domain: Seq<char>)
    requires
        !user.contains('@'),
        !domain.contains('@'),
    ensures
        domain_of(user + seq!['@'] + domain) == Some(domain),
{
    let email = user + seq!['@'] + domain;
    let at = user.len() as int;
    assert(email[at] == '@');
    assert(email.contains('@'));
    email.index_of_first_ensures('@');
    domain.index_of_first_ensures('@');
    let i = email.index_of_first('@')->0;
    if i < at {
        assert(email[i] == user[i]);
        assert(user.contains(user[i]));
    }
    if i > at {
        assert(email[at] != '@');
    }
    assert(email.take(i) =~= user);
    assert(email.skip(i + 1) =~= domain);
    assert(text::split_first(email, '@') == Some((user, domain)));
    assert(text::split_first(domain, '@') is None);
    reveal_with_fuel(text::pieces, 2);
    assert(text::pieces(domain, '@') =~= seq![domain]);
    let parts = text::pieces(email, '@');
    assert(parts =~= seq![user] + seq![domain]);
    assert(parts[1] == domain);
}

/// A mailbox is looked for where its domain says: after the newer way found nothing,
/// the addresses of the domain are looked up; a mailbox that stands for another is
/// looked for under the other, four times at most; an address that sends the client to
/// another is followed once.
pub proof fn mailboxes_are_looked_for_by_domain(s: SearchView, user: Seq<char>, domain: Seq<char>, u: Seq<char>)
    requires
        !user.contains('@'),
        !domain.contains('@'),
    ensures
        ({
            let email = user + seq!['@'] + domain;
            let (looking, asked) = after_v2(SearchView { email, ..s }, None);
            let (other, turned) = after_answer(s, PoxView::RedirectAddr(email));
            let (sent, on) = after_answer(s, PoxView::RedirectUrl(u));
            &&& asked == StepView::LookUp(domain) && looking.phase is Candidates && looking.email == email
            &&& !(s.phase is Redirected) && s.redirects < 4 ==> turned == StepView::LookUp(domain) && other.email == email
                && other.redirects == s.redirects + 1 && other.phase is Candidates
            &&& !(s.phase is Redirected) && s.redirects >= 4 ==> turned == StepView::Failed(
                EwsErrorView::AutodiscoverLoop,
            )
            &&& !(s.phase is Redirected) && s.url_redirects == 0 ==> on == (StepView::Ask { url: u, email: s.email })
                && sent.url_redirects == 1 && sent.phase is Redirected
            &&& !(s.phase is Redirected) && s.url_redirects >= 1 ==> on == StepView::Failed(
                EwsErrorView::AutodiscoverLoop,
            )
        }),
{
    lemma_at_splits(user, domain);
}

/// A search begins with the URL that was supplied where that is an endpoint, else by
/// asking in the newer way about the mailbox; without either it cannot begin.
pub proof fn searches_begin_with_what_is_known(url: Seq<char>, email: Seq<char>, any: Option<Seq<char>>)
    ensures
        search_begun(Some(url), true, any) == StepView::Found(url, DiscoverySource::SuppliedUrl),
        search_begun(any, false, Some(email)) == StepView::AskV2(v2_address(email)),
        search_begun(any, false, None) is Failed,
        v2_address(email) == "https://outlook.office365.com/autodiscover/autodiscover.json?Email="@
            + crate::web::percent_encoded(vstd::utf8::encode_utf8(email)) + "&Protocol=Ews"@,
{
    reveal_strlit("https://outlook.office365.com");
    reveal_strlit("/autodiscover/autodiscover.json?Email=");
    reveal_strlit("https://outlook.office365.com/autodiscover/autodiscover.json?Email=");
    let head = "https://outlook.office365.com/autodiscover/autodiscover.json?Email="@;
    let a = "https://outlook.office365.com"@;
    let b = "/autodiscover/autodiscover.json?Email="@;
    assert(head =~= a + b);
    let mid = crate::web::percent_encoded(vstd::utf8::encode_utf8(email));
    assert(v2_address(email) =~= a + b + mid + "&Protocol=Ews"@);
}

/// The answer in the newer way counts where it succeeded, speaks of the protocol, in
/// whatever case, and names a URL.
pub proof fn answers_in_the_newer_way_are_read(status: u16, m: Map<Seq<char>, JsonView>, u: Seq<char>, why: Seq<char>)
    ensures
        200 <= status < 300 && m.dom().contains("Protocol"@) && m["Protocol"@] == JsonView::Str("Ews"@)
            && m.dom().contains("Url"@) && m["Url"@] == JsonView::Str(u) ==> v2_answer(
            status,
            Ok(JsonView::Object(m)),
        ) == Ok::<Seq<char>, EwsErrorView>(u),
        !(200 <= status < 300) ==> v2_answer(status, Ok(JsonView::Object(m))) is Err,
        v2_answer(status, Err(why)) is Err,
        m.dom().contains("Protocol"@) && m["Protocol"@] == JsonView::Str("Ews"@) && !m.dom().contains("Url"@)
            ==> v2_answer(status, Ok(JsonView::Object(m))) is Err,
        !m.dom().contains("Protocol"@) ==> v2_answer(status, Ok(JsonView::Object(m))) is Err,
        v2_answer(status, Ok(JsonView::Object(m))) matches Ok(x) ==> m.dom().contains("Url"@) && m["Url"@]
            == JsonView::Str(x),
{
    reveal_strlit("Ews");
    reveal_strlit("");
    assert(text::small_text(""@).len() != text::small_text("Ews"@).len());
}

/// The answer in the older way counts where it succeeded and could be read.
pub proof fn answers_in_the_older_way_are_read(url: Seq<char>, status: u16, body: Seq<u8>, why: Seq<char>)
    ensures
        200 <= status < 300 ==> v1_answer(url, status, Ok(body)) == pox_of(crate::exchange_ews::xml::xml_events(body)),
        !(200 <= status < 300) ==> v1_answer(url, status, Ok(body)) is Err,
        v1_answer(url, status, Err(why)) is Err,
{
}

/// A URL is an endpoint where it is secured and has Exchange's path, in whatever case.
pub proof fn endpoints_are_known_by_their_url(u: UrlView, e: Seq<char>)
    ensures
        u.scheme == "https"@ && u.path == "/EWS/Exchange.asmx"@ ==> is_endpoint(Ok(u)),
        u.scheme == "https"@ && u.path == "/ews/exchange.asmx"@ ==> is_endpoint(Ok(u)),
        u.scheme != "https"@ ==> !is_endpoint(Ok(u)),
        u.path.len() != 18 ==> !is_endpoint(Ok(u)),
        !is_endpoint(Err(e)),
{
    reveal_strlit("/EWS/Exchange.asmx");
    reveal_strlit("/ews/exchange.asmx");
    assert(text::small_text("/ews/exchange.asmx"@) =~= text::small_text("/EWS/Exchange.asmx"@));
    assert(text::small_text(u.path).len() == u.path.len());
}

/// The addresses of a domain: two that are usual, then one for each service record, in
/// their order, at its host and port.
pub proof fn domains_have_addresses(domain: Seq<char>, records: Seq<SrvView>, i: int, host: Seq<char>)
    ensures
        ({
            let c = candidates_for(domain, records);
            &&& c.len() == 2 + records.len()
            &&& c[0] == "https://autodiscover."@ + domain + "/autodiscover/autodiscover.xml"@
            &&& c[1] == "https://"@ + domain + "/autodiscover/autodiscover.xml"@
            &&& 0 <= i < records.len() && !host.contains('.') && records[i].target == host + seq!['.'] && host.len() > 0
                && records[i].port == 443 ==> c[2 + i] == "https://"@ + host + "/autodiscover/autodiscover.xml"@
            &&& 0 <= i < records.len() && !host.contains('.') && records[i].target == host && host.len() > 0
                && records[i].port != 443 ==> c[2 + i] == "https://"@ + host + ":"@ + text::decimal_text(
                records[i].port as nat,
            ) + "/autodiscover/autodiscover.xml"@
        }),
{
    reveal_strlit("");
    let c = candidates_for(domain, records);
    if 0 <= i < records.len() {
        assert(c[2 + i] == record_address(records[i]));
        if !host.contains('.') && host.len() > 0 {
            assert(host.contains(host.last()));
            let dotted = host + seq!['.'];
            assert(dotted.last() == '.');
            assert(dotted.drop_last() =~= host);
            reveal_with_fuel(text::trimmed_end, 2);
            assert(text::trimmed_end(host, '.') == host);
            assert(text::trimmed_end(dotted, '.') == host);
            let tail = "/autodiscover/autodiscover.xml"@;
            assert("https://"@ + host + (""@ + tail) =~= "https://"@ + host + tail);
            let port = text::decimal_text(records[i].port as nat);
            assert("https://"@ + host + ((":"@ + port) + tail) =~= "https://"@ + host + ":"@ + port + tail);
        }
    }
}

/// A text is escaped character by character: each that means something in XML by its
/// name, every other as it is.
pub proof fn texts_are_escaped_by_character(a: Seq<char>, c: char)
    ensures
        escaped_text(Seq::empty(), 0) == Seq::<char>::empty(),
        escaped_text(a.push(c), a.len() + 1) == escaped_text(a, a.len()) + escaped_char(c),
        c == '&' ==> escaped_char(c) == "&amp;"@,
        c == '<' ==> escaped_char(c) == "&lt;"@,
        c == '>' ==> escaped_char(c) == "&gt;"@,
        c == '"' ==> escaped_char(c) == "&quot;"@,
        c != '&' && c != '<' && c != '>' && c != '"' ==> escaped_char(c) == seq![c],
{
    lemma_escaped_prefix(a.push(c), a, a.len());
}

proof fn lemma_escaped_prefix(s: Seq<char>, t: Seq<char>, n: nat)
    requires
        n <= s.len(),
        n <= t.len(),
        forall|i: int| 0 <= i < n ==> s[i] == #[trigger] t[i],
    ensures
        escaped_text(s, n) == escaped_text(t, n),
    decreases n,
{
    if n > 0 {
        lemma_escaped_prefix(s, t, (n - 1) as nat);
        assert(s[n - 1] == t[n - 1]);
    }
}

/// A request of the older way asks about the mailbox, in the schemas of the service.
pub proof fn requests_ask_about_the_mailbox(email: Seq<char>)
    ensures
        pox_request(email)
            == "<?xml version=\"1.0\" encoding=\"utf-8\"?><Autodiscover xmlns=\"http://schemas.microsoft.com/exchange/autodiscover/outlook/requestschema/2006\"><Request><EMailAddress>"@
            + escaped_text(email, email.len())
            + "</EMailAddress><AcceptableResponseSchema>http://schemas.microsoft.com/exchange/autodiscover/outlook/responseschema/2006a</AcceptableResponseSchema></Request></Autodiscover>"@,
{
    reveal_strlit("<?xml version=\"1.0\" encoding=\"utf-8\"?><Autodiscover xmlns=\"");
    reveal_strlit("http://schemas.microsoft.com/exchange/autodiscover/outlook/requestschema/2006");
    reveal_strlit("\"><Request><EMailAddress>");
    reveal_strlit("</EMailAddress><AcceptableResponseSchema>");
    reveal_strlit("http://schemas.microsoft.com/exchange/autodiscover/outlook/responseschema/2006a");
    reveal_strlit("</AcceptableResponseSchema></Request></Autodiscover>");
    reveal_strlit(
        "<?xml version=\"1.0\" encoding=\"utf-8\"?><Autodiscover xmlns=\"http://schemas.microsoft.com/exchange/autodiscover/outlook/requestschema/2006\"><Request><EMailAddress>",
    );
    reveal_strlit(
        "</EMailAddress><AcceptableResponseSchema>http://schemas.microsoft.com/exchange/autodiscover/outlook/responseschema/2006a</AcceptableResponseSchema></Request></Autodiscover>",
    );
    let mid = escaped_text(email, email.len());
    let head = "<?xml version=\"1.0\" encoding=\"utf-8\"?><Autodiscover xmlns=\""@
        + "http://schemas.microsoft.com/exchange/autodiscover/outlook/requestschema/2006"@
        + "\"><Request><EMailAddress>"@;
    let tail = "</EMailAddress><AcceptableResponseSchema>"@
        + "http://schemas.microsoft.com/exchange/autodiscover/outlook/responseschema/2006a"@
        + "</AcceptableResponseSchema></Request></Autodiscover>"@;
    assert(head
        =~= "<?xml version=\"1.0\" encoding=\"utf-8\"?><Autodiscover xmlns=\"http://schemas.microsoft.com/exchange/autodiscover/outlook/requestschema/2006\"><Request><EMailAddress>"@);
    assert(tail
        =~= "</EMailAddress><AcceptableResponseSchema>http://schemas.microsoft.com/exchange/autodiscover/outlook/responseschema/2006a</AcceptableResponseSchema></Request></Autodiscover>"@);
    assert(pox_request(email) =~= head + mid + tail);
}

/// Names are compared letter by letter, whatever their case.
pub proof fn names_are_compared_whatever_their_case(b: Seq<u8>, word: Seq<char>)
    requires
        forall|i: int| 0 <= i < word.len() ==> 'a' <= #[trigger] word[i] <= 'z' || 'A' <= word[i] <= 'Z',
    ensures
        b.len() == word.len() && (forall|i: int| 0 <= i < b.len() ==> #[trigger] b[i] as char == word[i]) ==> spells(
            b,
            word,
        ),
        spells(b, word) ==> b.len() == word.len() && forall|i: int|
            0 <= i < b.len() ==> #[trigger] b[i] as char == word[i] || b[i] + 32 == word[i] as int || b[i] - 32
                == word[i] as int,
{
    if spells(b, word) {
        assert forall|i: int| 0 <= i < b.len() implies #[trigger] b[i] as char == word[i] || b[i] + 32
            == word[i] as int || b[i] - 32 == word[i] as int by {
            assert(crate::exchange_ews::autodiscover::small_byte(b[i]) as char == text::small(word[i]));
        }
    }
    if b.len() == word.len() && (forall|i: int| 0 <= i < b.len() ==> #[trigger] b[i] as char == word[i]) {
        assert forall|i: int| 0 <= i < b.len() implies crate::exchange_ews::autodiscover::small_byte(
            #[trigger] b[i],
        ) as char == text::small(word[i]) by {
            assert(b[i] as char == word[i]);
        }
    }
}

/// The pieces of an element that holds a text.
pub open spec fn element(name: Seq<u8>, t: Seq<char>) -> Seq<XmlEventView> {
    seq![XmlEventView::Start(name), XmlEventView::Text(t), XmlEventView::End(name)]
}

/// A response after some pieces.
pub open spec fn read_all(r: ReadingView, events: Seq<XmlEventView>) -> ReadingView
    decreases events.len(),
{
    if events.len() == 0 {
        r
    } else {
        read_on(read_all(r, events.drop_last()), events.last())
    }
}

proof fn lemma_three(r: ReadingView, a: XmlEventView, b: XmlEventView, c: XmlEventView)
    ensures
        read_all(r, seq![a, b, c]) == read_on(read_on(read_on(r, a), b), c),
{
    reveal_with_fuel(read_all, 4);
    let all = seq![a, b, c];
    assert(all.drop_last() =~= seq![a, b]);
    assert(seq![a, b].drop_last() =~= seq![a]);
    assert(seq![a].drop_last() =~= Seq::<XmlEventView>::empty());
}

/// What the elements of a response are read as. An endpoint is read in the description
/// of a protocol of Exchange; what to do and where to turn are read wherever they
/// stand. Every element leaves what the others said as it was.
pub proof fn elements_of_a_response_are_read(r: ReadingView, name: Seq<u8>, t: Seq<char>)
    ensures
        ({
            let now = read_all(r, element(name, t));
            let exchange = r.protocol == Some("EXCH"@) || r.protocol == Some("EXPR"@);
            &&& spells(name, "EwsUrl"@) && exchange ==> now == (ReadingView {
                current: None,
                text: Seq::empty(),
                ews_url: Some(t),
                ..r
            })
            &&& spells(name, "EwsUrl"@) && !exchange ==> now.ews_url == r.ews_url
            &&& spells(name, "Type"@) ==> now == (ReadingView {
                current: None,
                text: Seq::empty(),
                protocol: Some(t),
                ..r
            })
            &&& spells(name, "Action"@) ==> now == (ReadingView {
                current: None,
                text: Seq::empty(),
                action: Some(t),
                ..r
            })
            &&& spells(name, "RedirectAddr"@) ==> now == (ReadingView {
                current: None,
                text: Seq::empty(),
                redirect_addr: Some(t),
                ..r
            })
            &&& spells(name, "RedirectUrl"@) ==> now == (ReadingView {
                current: None,
                text: Seq::empty(),
                redirect_url: Some(t),
                ..r
            })
            &&& spells(name, "Protocol"@) ==> read_on(r, XmlEventView::Start(name)).protocol is None && read_on(
                r,
                XmlEventView::End(name),
            ).protocol is None
        }),
{
    reveal_strlit("EwsUrl");
    reveal_strlit("Type");
    reveal_strlit("Action");
    reveal_strlit("RedirectAddr");
    reveal_strlit("RedirectUrl");
    reveal_strlit("Protocol");
    lemma_three(r, XmlEventView::Start(name), XmlEventView::Text(t), XmlEventView::End(name));
    assert(Seq::<char>::empty() + t =~= t);
    if spells(name, "EwsUrl"@) && spells(name, "Action"@) {
        assert(crate::exchange_ews::autodiscover::small_byte(name[0]) as char == text::small('E'));
        assert(crate::exchange_ews::autodiscover::small_byte(name[0]) as char == text::small('A'));
    }
    assert(text::small('E') != text::small('A'));
}

/// What a response comes to: a redirection where the response asks for it and says
/// where to, else the endpoint where there is one, else nothing.
pub proof fn responses_come_to_what_they_ask_for(r: ReadingView, t: Seq<char>)
    ensures
        r.action == Some("redirectAddr"@) && r.redirect_addr == Some(t) ==> outcome_of(r) == PoxView::RedirectAddr(t),
        r.action == Some("redirectUrl"@) && r.redirect_url == Some(t) ==> outcome_of(r) == PoxView::RedirectUrl(t),
        r.action != Some("redirectAddr"@) && r.action != Some("redirectUrl"@) && r.ews_url == Some(t) ==> outcome_of(r)
            == PoxView::EwsUrl(t),
        r.redirect_addr is None && r.redirect_url is None && r.ews_url == Some(t) ==> outcome_of(r) == PoxView::EwsUrl(t),
        r.redirect_addr is None && r.redirect_url is None && r.ews_url is None ==> outcome_of(r) is Failed,
{
    reveal_strlit("redirectAddr");
    reveal_strlit("redirectUrl");
    assert("redirectAddr"@.len() != "redirectUrl"@.len());
}

/// A document is read piece by piece from its start; the first error in it is the
/// outcome.
pub proof fn documents_are_read_piece_by_piece(
    r: ReadingView,
    depth: nat,
    e: XmlEventView,
    m: Seq<char>,
    rest: Seq<Result<XmlEventView, Seq<char>>>,
)
    requires
        depth < crate::exchange_ews::xml::DEEPEST,
    ensures
        pieces_read(r, depth, Seq::empty()) == Ok::<ReadingView, Seq<char>>(r),
        pieces_read(r, depth, seq![Ok::<XmlEventView, Seq<char>>(e)] + rest) == pieces_read(
            read_on(r, e),
            crate::exchange_ews::xml::nested(depth, e),
            rest,
        ),
        pieces_read(r, depth, seq![Err::<XmlEventView, Seq<char>>(m)] + rest) == Err::<ReadingView, Seq<char>>(m),
{
    assert((seq![Ok::<XmlEventView, Seq<char>>(e)] + rest).drop_first() =~= rest);
}

/// References stand for the characters that XML names, or that they number, in
/// decimal or in hexadecimal.
pub proof fn references_stand_for_characters(d: u8)
    requires
        48 <= d <= 57,
    ensures
        reference_char(seq![97, 109, 112]) == Some('&'),
        reference_char(seq![108, 116]) == Some('<'),
        reference_char(seq![103, 116]) == Some('>'),
        reference_char(seq![113, 117, 111, 116]) == Some('"'),
        reference_char(seq![97, 112, 111, 115]) == Some('\''),
        reference_char(seq![35, 52, d]) == Some(((40 + d - 48) as u32) as char),
        reference_char(seq![35, 120, 52, d]) == Some(((64 + d - 48) as u32) as char),
        reference_char(seq![35, 88, 52, d]) == Some(((64 + d - 48) as u32) as char),
{
    reveal_strlit("amp");
    reveal_strlit("lt");
    reveal_strlit("gt");
    reveal_strlit("quot");
    reveal_strlit("apos");
    reveal_with_fuel(crate::exchange_ews::autodiscover::digits_number, 3);
    let b: Seq<u8> = seq![35, 52, d];
    assert(b.skip(1) =~= seq![52, d]);
    assert(b.skip(1).drop_last() =~= seq![52u8]);
    assert(b.skip(1).drop_last().drop_last() =~= Seq::<u8>::empty());
    assert(b[0] as char != "amp"@[0]);
    let x: Seq<u8> = seq![35, 120, 52, d];
    assert(x.skip(2) =~= seq![52, d]);
    assert(x[0] as char != "quot"@[0]);
    assert(x[0] as char != "apos"@[0]);
    let y: Seq<u8> = seq![35, 88, 52, d];
    assert(y.skip(2) =~= seq![52, d]);
    assert(y[0] as char != "quot"@[0]);
    assert(y[0] as char != "apos"@[0]);
    assert(seq![52, d].drop_last() =~= seq![52u8]);
    let amp: Seq<u8> = seq![97, 109, 112];
    let lt: Seq<u8> = seq![108, 116];
    let gt: Seq<u8> = seq![103, 116];
    let quot: Seq<u8> = seq![113, 117, 111, 116];
    let apos: Seq<u8> = seq![97, 112, 111, 115];
    assert(crate::exchange_ews::autodiscover::is_exactly(amp, "amp"@));
    assert(crate::exchange_ews::autodiscover::is_exactly(lt, "lt"@));
    assert(gt[0] as char != "lt"@[0]);
    assert(crate::exchange_ews::autodiscover::is_exactly(gt, "gt"@));
    assert(crate::exchange_ews::autodiscover::is_exactly(quot, "quot"@));
    assert(apos[0] as char != "quot"@[0]);
    assert(crate::exchange_ews::autodiscover::is_exactly(apos, "apos"@));
}

} // verus!
