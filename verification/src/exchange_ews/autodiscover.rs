//! Finding the Exchange server of a mailbox.

use vstd::prelude::*;
use vstd::string::*;

use crate::address::{parse_url, url_parse, UrlView};
use crate::exchange_ews::dns::{record_views, SrvRecord, SrvView};
use crate::exchange_ews::error::{EwsError, EwsErrorView};
use crate::exchange_ews::oauth::body_view;
use crate::exchange_ews::xml::{
    char_with, nested, nesting, next_event, open_document, upcoming, xml_events, XmlEvent, XmlEventView, DEEPEST,
};
use crate::exchange_graph::oauth::{str_or, text_or};
use crate::json::{Json, JsonView};
use crate::text;
use crate::web::{percent_encoded, urlencode};

verus! {

/// Where the newer way of asking is offered.
pub const V2_HOST: &'static str = "https://outlook.office365.com";

/// The namespace of requests of the older way.
pub const POX_REQ_NS: &'static str =
    "http://schemas.microsoft.com/exchange/autodiscover/outlook/requestschema/2006";

/// The namespace of responses of the older way.
pub const POX_RESP_NS: &'static str =
    "http://schemas.microsoft.com/exchange/autodiscover/outlook/responseschema/2006a";

/// Whether the parts of a URL are those of an Exchange endpoint.
pub open spec fn is_endpoint(parsed: Result<UrlView, Seq<char>>) -> bool {
    match parsed {
        Ok(u) => u.scheme == "https"@ && text::small_text(u.path) == text::small_text("/EWS/Exchange.asmx"@),
        Err(_) => false,
    }
}

/// Whether a URL is that of an Exchange endpoint, so that nothing need be looked
/// up.
pub fn is_fully_qualified_ews_url(url: &str) -> (r: bool)
    ensures
        r == is_endpoint(url_parse(url@)),
{
    match parse_url(url) {
        Err(_) => false,
        Ok(u) => endpoint_parts(u.scheme.as_str(), u.path.as_str()),
    }
}

/// Whether a scheme and a path are those of an Exchange endpoint.
pub fn endpoint_parts(scheme: &str, path: &str) -> (r: bool)
    ensures
        r == (scheme@ == "https"@ && text::small_text(path@) == text::small_text("/EWS/Exchange.asmx"@)),
{
    text::same(scheme, "https") && text::same_ignoring_case(path, "/EWS/Exchange.asmx")
}

/// How an endpoint was found.
#[derive(Debug, Clone, Copy, PartialEq, Eq, Structural)]
pub enum DiscoverySource {
    V2,
    V1,
    SuppliedUrl,
}

/// An endpoint and how it was found.
#[derive(Debug)]
pub struct DiscoveryResult {
    pub ews_url: String,
    pub source: DiscoverySource,
}

/// The address that is asked in the newer way.
pub open spec fn v2_address(email: Seq<char>) -> Seq<char> {
    V2_HOST@ + "/autodiscover/autodiscover.json?Email="@ + (percent_encoded(vstd::utf8::encode_utf8(email))
        + "&Protocol=Ews"@)
}

/// See [`v2_address`].
pub fn v2_url(email: &str) -> (r: String)
    ensures
        r@ == v2_address(email@),
{
    let tail = text::joined(urlencode(email).as_str(), "&Protocol=Ews");
    text::joined3(V2_HOST, "/autodiscover/autodiscover.json?Email=", tail.as_str())
}

/// What an answer in the newer way says; `body` is an error where it could not be
/// read.
pub open spec fn v2_answer(status: u16, body: Result<JsonView, Seq<char>>) -> Result<Seq<char>, EwsErrorView> {
    if !(200 <= status < 300) {
        Err(EwsErrorView::AutodiscoverFailed("v2 returned http "@ + text::decimal_text(status as nat)))
    } else {
        match body {
            Err(shown) => Err(EwsErrorView::Malformed("v2 body: "@ + shown)),
            Ok(v) => if text::small_text(text_or(v, "Protocol"@, ""@)) != text::small_text("Ews"@) {
                Err(
                    EwsErrorView::AutodiscoverFailed(
                        "v2 returned protocol "@ + text::debug_text(text_or(v, "Protocol"@, ""@)),
                    ),
                )
            } else {
                match v.text_at("Url"@) {
                    None => Err(EwsErrorView::AutodiscoverFailed("v2 missing Url"@)),
                    Some(u) => Ok(u),
                }
            },
        }
    }
}

/// See [`v2_answer`].
pub fn autodiscover_v2(status: u16, body: Result<&Json, &str>) -> (r: Result<String, EwsError>)
    ensures
        match r {
            Ok(u) => v2_answer(status, body_view(body)) == Ok::<Seq<char>, EwsErrorView>(u@),
            Err(e) => v2_answer(status, body_view(body)) == Err::<Seq<char>, EwsErrorView>(e@),
        },
{
    if status < 200 || status >= 300 {
        let code = text::decimal(status as u128);
        return Err(EwsError::AutodiscoverFailed(text::joined("v2 returned http ", code.as_str())));
    }
    let json = match body {
        Ok(j) => j,
        Err(shown) => {
            return Err(EwsError::Malformed(text::joined("v2 body: ", shown)));
        },
    };
    let protocol = str_or(json, "Protocol", "");
    if !text::same_ignoring_case(protocol, "Ews") {
        let shown = text::quoted(protocol);
        return Err(EwsError::AutodiscoverFailed(text::joined("v2 returned protocol ", shown.as_str())));
    }
    match json.str_at("Url") {
        None => Err(EwsError::AutodiscoverFailed("v2 missing Url".to_owned())),
        Some(u) => Ok(u.to_owned()),
    }
}

/// What an answer in the older way says.
#[derive(Debug)]
pub enum PoxOutcome {
    EwsUrl(String),
    RedirectAddr(String),
    RedirectUrl(String),
    Failed,
}

/// The view of a [`PoxOutcome`].
pub enum PoxView {
    EwsUrl(Seq<char>),
    RedirectAddr(Seq<char>),
    RedirectUrl(Seq<char>),
    Failed,
}

impl View for PoxOutcome {
    type V = PoxView;

    open spec fn view(&self) -> PoxView {
        match self {
            PoxOutcome::EwsUrl(t) => PoxView::EwsUrl(t@),
            PoxOutcome::RedirectAddr(t) => PoxView::RedirectAddr(t@),
            PoxOutcome::RedirectUrl(t) => PoxView::RedirectUrl(t@),
            PoxOutcome::Failed => PoxView::Failed,
        }
    }
}

/// The address that a service record names.
pub open spec fn record_address(r: SrvView) -> Seq<char> {
    "https://"@ + text::trimmed_end(r.target, '.') + ((if r.port == 443 {
        ""@
    } else {
        ":"@ + text::decimal_text(r.port as nat)
    }) + "/autodiscover/autodiscover.xml"@)
}

/// The addresses that are tried for a domain: two that are usual, then those of
/// its service records.
pub open spec fn candidates_for(domain: Seq<char>, records: Seq<SrvView>) -> Seq<Seq<char>> {
    seq![
        "https://autodiscover."@ + domain + "/autodiscover/autodiscover.xml"@,
        "https://"@ + domain + "/autodiscover/autodiscover.xml"@,
    ] + Seq::new(records.len(), |i: int| record_address(records[i]))
}

/// See [`candidates_for`].
pub fn pox_candidates(domain: &str, records: &Vec<SrvRecord>) -> (r: Vec<String>)
    ensures
        text::texts(r@) == candidates_for(domain@, record_views(records@)),
{
    let ghost all = record_views(records@);
    let ghost want = candidates_for(domain@, all);
    let mut out: Vec<String> = Vec::new();
    out.push(text::joined3("https://autodiscover.", domain, "/autodiscover/autodiscover.xml"));
    out.push(text::joined3("https://", domain, "/autodiscover/autodiscover.xml"));
    assert(text::texts(out@) =~= want.take(2));
    let mut i: usize = 0;
    while i < records.len()
        invariant
            i <= records.len(),
            all == record_views(records@),
            want == candidates_for(domain@, all),
            text::texts(out@) == want.take(2 + i),
        decreases records.len() - i,
    {
        assert(all[i as int] == records@[i as int]@);
        let ghost was = text::texts(out@);
        let host = text::trim_end(records[i].target.as_str(), '.');
        let suffix = if records[i].port == 443 {
            "".to_owned()
        } else {
            text::joined(":", text::decimal(records[i].port as u128).as_str())
        };
        let tail = text::joined(suffix.as_str(), "/autodiscover/autodiscover.xml");
        out.push(text::joined3("https://", host.as_str(), tail.as_str()));
        assert(text::texts(out@) =~= was.push(record_address(all[i as int])));
        assert(want.take(2 + i + 1) =~= want.take(2 + i).push(want[2 + i]));
        i += 1;
    }
    assert(want.take(want.len() as int) =~= want);
    out
}

/// A text with the characters that mean something in XML replaced.
pub open spec fn escaped_char(c: char) -> Seq<char> {
    if c == '&' {
        "&amp;"@
    } else if c == '<' {
        "&lt;"@
    } else if c == '>' {
        "&gt;"@
    } else if c == '"' {
        "&quot;"@
    } else {
        seq![c]
    }
}

/// The first `n` characters of a text, escaped.
pub open spec fn escaped_text(s: Seq<char>, n: nat) -> Seq<char>
    decreases n,
{
    if n == 0 {
        Seq::empty()
    } else {
        escaped_text(s, (n - 1) as nat) + escaped_char(s[n - 1])
    }
}

/// See [`escaped_text`].
pub fn xml_escape(s: &str) -> (r: String)
    ensures
        r@ == escaped_text(s@, s@.len()),
{
    let chars = text::chars_of(s);
    let mut out = String::new();
    let mut i: usize = 0;
    while i < chars.len()
        invariant
            i <= chars.len(),
            chars@ == s@,
            out@ == escaped_text(s@, i as nat),
        decreases chars.len() - i,
    {
        let c: char = chars[i];
        if c == '&' {
            out = text::joined(out.as_str(), "&amp;");
        } else if c == '<' {
            out = text::joined(out.as_str(), "&lt;");
        } else if c == '>' {
            out = text::joined(out.as_str(), "&gt;");
        } else if c == '"' {
            out = text::joined(out.as_str(), "&quot;");
        } else {
            let ghost was = out@;
            out.push(c);
            assert(out@ =~= was + seq![c]);
        }
        i += 1;
    }
    out
}

/// A text that is escaped holds no markup: neither angle bracket nor quotation mark.
pub proof fn escaped_texts_hold_no_markup(s: Seq<char>, n: nat, i: int)
    requires
        n <= s.len(),
        0 <= i < escaped_text(s, n).len(),
    ensures
        escaped_text(s, n)[i] != '<',
        escaped_text(s, n)[i] != '>',
        escaped_text(s, n)[i] != '"',
    decreases n,
{
    let before = escaped_text(s, (n - 1) as nat);
    if i < before.len() {
        escaped_texts_hold_no_markup(s, (n - 1) as nat, i);
    } else {
        reveal_strlit("&amp;");
        reveal_strlit("&lt;");
        reveal_strlit("&gt;");
        reveal_strlit("&quot;");
        let k = i - before.len();
        assert(escaped_text(s, n)[i] == escaped_char(s[n - 1])[k]);
        assert(0 <= k < 6);
    }
}

/// The request of the older way.
pub open spec fn pox_request(email: Seq<char>) -> Seq<char> {
    "<?xml version=\"1.0\" encoding=\"utf-8\"?><Autodiscover xmlns=\""@ + POX_REQ_NS@
        + "\"><Request><EMailAddress>"@ + (escaped_text(email, email.len())
        + "</EMailAddress><AcceptableResponseSchema>"@ + (POX_RESP_NS@
        + "</AcceptableResponseSchema></Request></Autodiscover>"@))
}

/// See [`pox_request`].
pub fn pox_body(email: &str) -> (r: String)
    ensures
        r@ == pox_request(email@),
{
    let head = text::joined3(
        "<?xml version=\"1.0\" encoding=\"utf-8\"?><Autodiscover xmlns=\"",
        POX_REQ_NS,
        "\"><Request><EMailAddress>",
    );
    let end = text::joined(POX_RESP_NS, "</AcceptableResponseSchema></Request></Autodiscover>");
    let tail = text::joined3(
        xml_escape(email).as_str(),
        "</EMailAddress><AcceptableResponseSchema>",
        end.as_str(),
    );
    text::joined(head.as_str(), tail.as_str())
}

/// What part of a response a text belongs to.
#[derive(Debug, Clone, Copy, PartialEq, Eq, Structural)]
pub enum Field {
    Type,
    EwsUrl,
    Action,
    RedirectAddr,
    RedirectUrl,
}

/// A response as far as it has been read: the part that the reader is in, the text
/// gathered for it, the type of the protocol described, and what was found.
pub struct Reading {
    pub current: Option<Field>,
    pub text: String,
    pub protocol: Option<String>,
    pub ews_url: Option<String>,
    pub action: Option<String>,
    pub redirect_addr: Option<String>,
    pub redirect_url: Option<String>,
}

/// The view of a [`Reading`].
pub struct ReadingView {
    pub current: Option<Field>,
    pub text: Seq<char>,
    pub protocol: Option<Seq<char>>,
    pub ews_url: Option<Seq<char>>,
    pub action: Option<Seq<char>>,
    pub redirect_addr: Option<Seq<char>>,
    pub redirect_url: Option<Seq<char>>,
}

impl View for Reading {
    type V = ReadingView;

    open spec fn view(&self) -> ReadingView {
        ReadingView {
            current: self.current,
            text: self.text@,
            protocol: text::opt_text(self.protocol),
            ews_url: text::opt_text(self.ews_url),
            action: text::opt_text(self.action),
            redirect_addr: text::opt_text(self.redirect_addr),
            redirect_url: text::opt_text(self.redirect_url),
        }
    }
}

/// A letter of ASCII as a small one; other bytes stand for themselves.
pub open spec fn small_byte(b: u8) -> u8 {
    if 65 <= b <= 90 {
        (b + 32) as u8
    } else {
        b
    }
}

/// Whether bytes spell a word, whatever the case of the letters.
pub open spec fn spells(b: Seq<u8>, word: Seq<char>) -> bool {
    b.len() == word.len() && forall|i: int|
        0 <= i < b.len() ==> small_byte(#[trigger] b[i]) as char == text::small(word[i])
}

fn is_word(b: &Vec<u8>, word: &str) -> (r: bool)
    ensures
        r == spells(b@, word@),
{
    let w = text::chars_of(word);
    if b.len() != w.len() {
        return false;
    }
    let mut i: usize = 0;
    while i < b.len()
        invariant
            i <= b.len(),
            b.len() == w.len(),
            w@ == word@,
            forall|j: int| 0 <= j < i ==> small_byte(#[trigger] b@[j]) as char == text::small(word@[j]),
        decreases b.len() - i,
    {
        let x: u8 = b[i];
        let y: u8 = if 65 <= x && x <= 90 {
            x + 32
        } else {
            x
        };
        let c: char = w[i];
        let d: char = if 'A' <= c && c <= 'Z' {
            ((c as u32 + 32) as u8) as char
        } else {
            c
        };
        assert(d == text::small(word@[i as int]));
        if y as char != d {
            return false;
        }
        i += 1;
    }
    true
}

/// The part that an element begins. Where the endpoint is depends on the protocol
/// described: only two kinds count.
pub open spec fn field_begun(name: Seq<u8>, protocol: Option<Seq<char>>) -> Option<Field> {
    if spells(name, "Type"@) {
        Some(Field::Type)
    } else if spells(name, "EwsUrl"@) {
        if protocol == Some("EXPR"@) || protocol == Some("EXCH"@) {
            Some(Field::EwsUrl)
        } else {
            None
        }
    } else if spells(name, "Action"@) {
        Some(Field::Action)
    } else if spells(name, "RedirectAddr"@) {
        Some(Field::RedirectAddr)
    } else if spells(name, "RedirectUrl"@) {
        Some(Field::RedirectUrl)
    } else {
        None
    }
}

/// A response with the text of a part taken in.
pub open spec fn taken_in(r: ReadingView) -> ReadingView {
    match r.current {
        Some(Field::Type) => ReadingView { protocol: Some(r.text), ..r },
        Some(Field::EwsUrl) => ReadingView { ews_url: Some(r.text), ..r },
        Some(Field::Action) => ReadingView { action: Some(r.text), ..r },
        Some(Field::RedirectAddr) => ReadingView { redirect_addr: Some(r.text), ..r },
        Some(Field::RedirectUrl) => ReadingView { redirect_url: Some(r.text), ..r },
        None => r,
    }
}

/// A response after one more piece.
pub open spec fn read_on(r: ReadingView, e: XmlEventView) -> ReadingView {
    match e {
        XmlEventView::Start(name) => {
            let protocol = if spells(name, "Protocol"@) {
                None
            } else {
                r.protocol
            };
            ReadingView { text: Seq::empty(), protocol, current: field_begun(name, protocol), ..r }
        },
        XmlEventView::End(name) => {
            let t = taken_in(r);
            ReadingView {
                current: None,
                text: Seq::empty(),
                protocol: if spells(name, "Protocol"@) {
                    None
                } else {
                    t.protocol
                },
                ..t
            }
        },
        XmlEventView::Text(t) => ReadingView { text: r.text + t, ..r },
        XmlEventView::CData(b) => ReadingView { text: r.text + text::lossy_text(b), ..r },
        XmlEventView::Reference(b) => match reference_char(b) {
            Some(c) => ReadingView { text: r.text.push(c), ..r },
            None => r,
        },
        _ => r,
    }
}

/// The value of digits to a base, up to the largest character.
pub open spec fn digits_number(b: Seq<u8>, base: nat) -> Option<nat>
    decreases b.len(),
{
    if b.len() == 0 {
        Some(0)
    } else {
        match (digits_number(b.drop_last(), base), digit_number(b.last(), base)) {
            (Some(n), Some(d)) => if n * base + d <= 0x10ffff {
                Some(n * base + d)
            } else {
                None
            },
            _ => None,
        }
    }
}

/// The value of a digit to a base.
pub open spec fn digit_number(b: u8, base: nat) -> Option<nat> {
    if 48 <= b <= 57 {
        Some((b - 48) as nat)
    } else if base == 16 && 65 <= b <= 70 {
        Some((b - 55) as nat)
    } else if base == 16 && 97 <= b <= 102 {
        Some((b - 87) as nat)
    } else {
        None
    }
}

/// The character with a number; there are none among the surrogates.
pub open spec fn numbered_char(n: nat) -> Option<char> {
    if n <= 0xd7ff || 0xe000 <= n <= 0x10ffff {
        Some(n as char)
    } else {
        None
    }
}

/// The bytes of a word of ASCII.
pub open spec fn is_exactly(b: Seq<u8>, word: Seq<char>) -> bool {
    b.len() == word.len() && forall|i: int| 0 <= i < b.len() ==> #[trigger] b[i] as char == word[i]
}

/// The character that a reference stands for: one of the five that XML names, or
/// one given by its number.
pub open spec fn reference_char(b: Seq<u8>) -> Option<char> {
    if is_exactly(b, "amp"@) {
        Some('&')
    } else if is_exactly(b, "lt"@) {
        Some('<')
    } else if is_exactly(b, "gt"@) {
        Some('>')
    } else if is_exactly(b, "quot"@) {
        Some('"')
    } else if is_exactly(b, "apos"@) {
        Some('\'')
    } else if b.len() > 2 && b[0] == 35 && (b[1] == 120 || b[1] == 88) {
        match digits_number(b.skip(2), 16) {
            Some(n) => numbered_char(n),
            None => None,
        }
    } else if b.len() > 1 && b[0] == 35 {
        match digits_number(b.skip(1), 10) {
            Some(n) => numbered_char(n),
            None => None,
        }
    } else {
        None
    }
}

fn same_word(b: &Vec<u8>, word: &str) -> (r: bool)
    ensures
        r == is_exactly(b@, word@),
{
    let w = text::chars_of(word);
    if b.len() != w.len() {
        return false;
    }
    let mut i: usize = 0;
    while i < b.len()
        invariant
            i <= b.len(),
            b.len() == w.len(),
            w@ == word@,
            forall|j: int| 0 <= j < i ==> #[trigger] b@[j] as char == word@[j],
        decreases b.len() - i,
    {
        if b[i] as char != w[i] {
            return false;
        }
        i += 1;
    }
    true
}

fn read_digits(b: &Vec<u8>, from: usize, base: u32) -> (r: Option<u32>)
    requires
        from <= b@.len(),
        base == 10 || base == 16,
    ensures
        match r {
            Some(n) => digits_number(b@.skip(from as int), base as nat) == Some(n as nat) && n <= 0x10ffff,
            None => digits_number(b@.skip(from as int), base as nat) is None,
        },
{
    let ghost all = b@.skip(from as int);
    let mut n: u32 = 0;
    let mut i: usize = from;
    let mut ok = true;
    assert(all.take(0) =~= Seq::<u8>::empty());
    while i < b.len()
        invariant
            from <= i <= b@.len(),
            all == b@.skip(from as int),
            base == 10 || base == 16,
            n <= 0x10ffff,
            digits_number(all.take(i - from), base as nat) == if ok {
                Some(n as nat)
            } else {
                None::<nat>
            },
        decreases b.len() - i,
    {
        let x: u8 = b[i];
        let ghost next = all.take(i - from + 1);
        assert(next.drop_last() =~= all.take(i - from));
        assert(next.last() == x);
        let d: u32 = if 48 <= x && x <= 57 {
            (x - 48) as u32
        } else if base == 16 && 65 <= x && x <= 70 {
            (x - 55) as u32
        } else if base == 16 && 97 <= x && x <= 102 {
            (x - 87) as u32
        } else {
            99
        };
        if d == 99 || !ok {
            ok = false;
        } else {
            let m: u32 = if base == 16 {
                n * 16 + d
            } else {
                n * 10 + d
            };
            assert(m == n * base + d);
            if m > 0x10ffff {
                ok = false;
            } else {
                n = m;
            }
        }
        i += 1;
    }
    assert(all.take(all.len() as int) =~= all);
    if ok {
        Some(n)
    } else {
        None
    }
}

/// See [`reference_char`].
pub fn entity_to_char(b: &Vec<u8>) -> (r: Option<char>)
    ensures
        r == reference_char(b@),
{
    if same_word(b, "amp") {
        Some('&')
    } else if same_word(b, "lt") {
        Some('<')
    } else if same_word(b, "gt") {
        Some('>')
    } else if same_word(b, "quot") {
        Some('"')
    } else if same_word(b, "apos") {
        Some('\'')
    } else if b.len() > 2 && b[0] == 35 && (b[1] == 120 || b[1] == 88) {
        match read_digits(b, 2, 16) {
            Some(n) => char_with(n),
            None => None,
        }
    } else if b.len() > 1 && b[0] == 35 {
        match read_digits(b, 1, 10) {
            Some(n) => char_with(n),
            None => None,
        }
    } else {
        None
    }
}

/// A response of which nothing has been read.
pub open spec fn nothing_read() -> ReadingView {
    ReadingView {
        current: None,
        text: Seq::empty(),
        protocol: None,
        ews_url: None,
        action: None,
        redirect_addr: None,
        redirect_url: None,
    }
}

impl Reading {
    /// A response of which nothing has been read.
    pub fn begin() -> (r: Reading)
        ensures
            r@ == nothing_read(),
    {
        Reading {
            current: None,
            text: String::new(),
            protocol: None,
            ews_url: None,
            action: None,
            redirect_addr: None,
            redirect_url: None,
        }
    }

    fn is_relevant(&self) -> (r: bool)
        ensures
            r == (self@.protocol == Some("EXPR"@) || self@.protocol == Some("EXCH"@)),
    {
        match &self.protocol {
            Some(p) => text::same(p.as_str(), "EXPR") || text::same(p.as_str(), "EXCH"),
            None => false,
        }
    }

    fn begun(&self, name: &Vec<u8>) -> (r: Option<Field>)
        ensures
            r == field_begun(name@, self@.protocol),
    {
        if is_word(name, "Type") {
            Some(Field::Type)
        } else if is_word(name, "EwsUrl") {
            if self.is_relevant() {
                Some(Field::EwsUrl)
            } else {
                None
            }
        } else if is_word(name, "Action") {
            Some(Field::Action)
        } else if is_word(name, "RedirectAddr") {
            Some(Field::RedirectAddr)
        } else if is_word(name, "RedirectUrl") {
            Some(Field::RedirectUrl)
        } else {
            None
        }
    }

    /// Takes in one more piece; see [`read_on`].
    pub fn take(&mut self, e: XmlEvent)
        ensures
            final(self)@ == read_on(old(self)@, e@),
    {
        match e {
            XmlEvent::Start(name) => {
                self.text = String::new();
                if is_word(&name, "Protocol") {
                    self.protocol = None;
                }
                let f = self.begun(&name);
                self.current = f;
            },
            XmlEvent::End(name) => {
                let t = text::joined(self.text.as_str(), "");
                proof {
                    reveal_strlit("");
                    assert(t@ =~= old(self).text@);
                }
                match self.current {
                    Some(Field::Type) => {
                        self.protocol = Some(t);
                    },
                    Some(Field::EwsUrl) => {
                        self.ews_url = Some(t);
                    },
                    Some(Field::Action) => {
                        self.action = Some(t);
                    },
                    Some(Field::RedirectAddr) => {
                        self.redirect_addr = Some(t);
                    },
                    Some(Field::RedirectUrl) => {
                        self.redirect_url = Some(t);
                    },
                    None => {},
                }
                self.current = None;
                self.text = String::new();
                if is_word(&name, "Protocol") {
                    self.protocol = None;
                }
            },
            XmlEvent::Text(t) => {
                self.text = text::joined(self.text.as_str(), t.as_str());
            },
            XmlEvent::CData(b) => {
                let t = text::from_lossy(b.as_slice());
                self.text = text::joined(self.text.as_str(), t.as_str());
            },
            XmlEvent::Reference(b) => match entity_to_char(&b) {
                Some(c) => {
                    self.text.push(c);
                },
                None => {},
            },
            _ => {},
        }
    }

    /// What the response comes to; see [`outcome_of`].
    pub fn finish(self) -> (r: PoxOutcome)
        ensures
            r@ == outcome_of(self@),
    {
        let to_addr = match &self.action {
            Some(a) => text::same(a.as_str(), "redirectAddr"),
            None => false,
        };
        let to_url = match &self.action {
            Some(a) => text::same(a.as_str(), "redirectUrl"),
            None => false,
        };
        match self.redirect_addr {
            Some(a) if to_addr => {
                return PoxOutcome::RedirectAddr(a);
            },
            _ => {},
        }
        match self.redirect_url {
            Some(u) if to_url => {
                return PoxOutcome::RedirectUrl(u);
            },
            _ => {},
        }
        match self.ews_url {
            Some(u) => PoxOutcome::EwsUrl(u),
            None => PoxOutcome::Failed,
        }
    }
}

/// What a response comes to. A redirection counts only where the response asks
/// for it; else the endpoint does, and that of the last protocol that has one.
pub open spec fn outcome_of(r: ReadingView) -> PoxView {
    if r.redirect_addr is Some && r.action == Some("redirectAddr"@) {
        PoxView::RedirectAddr(r.redirect_addr->0)
    } else if r.redirect_url is Some && r.action == Some("redirectUrl"@) {
        PoxView::RedirectUrl(r.redirect_url->0)
    } else if r.ews_url is Some {
        PoxView::EwsUrl(r.ews_url->0)
    } else {
        PoxView::Failed
    }
}

/// What pieces come to behind `depth` open elements: the response, or the message of
/// the first error. A document that is nested too deeply is one.
pub open spec fn pieces_read(r: ReadingView, depth: nat, events: Seq<Result<XmlEventView, Seq<char>>>) -> Result<
    ReadingView,
    Seq<char>,
>
    decreases events.len(),
{
    if depth >= DEEPEST {
        Err("elements are nested too deeply"@)
    } else if events.len() == 0 {
        Ok(r)
    } else {
        match events[0] {
            Ok(e) => pieces_read(read_on(r, e), nested(depth, e), events.drop_first()),
            Err(m) => Err(m),
        }
    }
}

/// What a document comes to.
pub open spec fn pox_of(events: Seq<Result<XmlEventView, Seq<char>>>) -> Result<PoxView, EwsErrorView> {
    match pieces_read(nothing_read(), 0, events) {
        Ok(r) => Ok(outcome_of(r)),
        Err(m) => Err(EwsErrorView::Malformed(m)),
    }
}

/// See [`nested`].
pub fn depth_behind(depth: u32, e: &XmlEvent) -> (r: u32)
    requires
        depth < DEEPEST,
    ensures
        r == nested(depth as nat, e@),
{
    match e {
        XmlEvent::Start(_) => depth + 1,
        XmlEvent::End(_) => if depth > 0 {
            depth - 1
        } else {
            0
        },
        _ => depth,
    }
}

/// Reads a response of the older way.
pub fn parse_pox_response(body: &[u8]) -> (r: Result<PoxOutcome, EwsError>)
    ensures
        match r {
            Ok(p) => pox_of(xml_events(body@)) == Ok::<PoxView, EwsErrorView>(p@),
            Err(e) => pox_of(xml_events(body@)) == Err::<PoxView, EwsErrorView>(e@),
        },
{
    let mut xml = open_document(body);
    let mut reading = Reading::begin();
    let mut depth: u32 = 0;
    loop
        invariant
            depth == nesting(xml),
            pieces_read(nothing_read(), 0, xml_events(body@)) == pieces_read(
                reading@,
                depth as nat,
                upcoming(xml),
            ),
        decreases upcoming(xml).len(),
    {
        if depth >= DEEPEST {
            return Err(EwsError::Malformed("elements are nested too deeply".to_owned()));
        }
        match next_event(&mut xml) {
            Ok(XmlEvent::Eof) => {
                return Ok(reading.finish());
            },
            Ok(e) => {
                depth = depth_behind(depth, &e);
                reading.take(e);
            },
            Err(m) => {
                return Err(EwsError::Malformed(m));
            },
        }
    }
}

/// An endpoint is taken only from the description of a protocol that counts.
pub proof fn endpoints_are_those_of_exchange(r: ReadingView, e: XmlEventView)
    ensures
        read_on(r, e).current == Some(Field::EwsUrl) && r.current != Some(Field::EwsUrl) ==> read_on(r, e).protocol
            == Some("EXPR"@) || read_on(r, e).protocol == Some("EXCH"@),
        read_on(r, e).ews_url != r.ews_url ==> r.current == Some(Field::EwsUrl),
{
}

/// What an answer in the older way says; `body` is an error where it could not be
/// read.
pub open spec fn v1_answer(url: Seq<char>, status: u16, body: Result<Seq<u8>, Seq<char>>) -> Result<
    PoxView,
    EwsErrorView,
> {
    if !(200 <= status < 300) {
        Err(
            EwsErrorView::AutodiscoverFailed(url + " returned http "@ + text::decimal_text(status as nat)),
        )
    } else {
        match body {
            Err(shown) => Err(EwsErrorView::Malformed("v1 body: "@ + shown)),
            Ok(b) => pox_of(xml_events(b)),
        }
    }
}

/// The bytes of a body that may not have been readable.
pub open spec fn bytes_view(body: Result<&Vec<u8>, &str>) -> Result<Seq<u8>, Seq<char>> {
    match body {
        Ok(b) => Ok(b@),
        Err(e) => Err(e@),
    }
}

/// See [`v1_answer`].
pub fn autodiscover_v1(url: &str, status: u16, body: Result<&Vec<u8>, &str>) -> (r: Result<PoxOutcome, EwsError>)
    ensures
        match r {
            Ok(p) => v1_answer(url@, status, bytes_view(body)) == Ok::<PoxView, EwsErrorView>(p@),
            Err(e) => v1_answer(url@, status, bytes_view(body)) == Err::<PoxView, EwsErrorView>(e@),
        },
{
    if status < 200 || status >= 300 {
        let code = text::decimal(status as u128);
        return Err(EwsError::AutodiscoverFailed(text::joined3(url, " returned http ", code.as_str())));
    }
    match body {
        Err(shown) => Err(EwsError::Malformed(text::joined("v1 body: ", shown))),
        Ok(b) => parse_pox_response(b.as_slice()),
    }
}

/// What the search waits for.
#[derive(Debug, Clone, Copy, PartialEq, Eq, Structural)]
pub enum Phase {
    /// The answer in the newer way.
    V2,
    /// The addresses for a domain.
    Candidates,
    /// The answer of one of those addresses.
    Candidate,
    /// The answer of an address to which another one redirected.
    Redirected,
}

/// The search for an endpoint.
pub struct Search {
    pub supplied: Option<String>,
    pub email: String,
    pub phase: Phase,
    pub candidates: Vec<String>,
    /// The address to be tried next.
    pub next: usize,
    /// Redirections to another mailbox, and to another address.
    pub redirects: u8,
    pub url_redirects: u8,
    /// The addresses that have been tried.
    pub tried: u128,
}

/// The view of a [`Search`].
pub struct SearchView {
    pub supplied: Option<Seq<char>>,
    pub email: Seq<char>,
    pub phase: Phase,
    pub candidates: Seq<Seq<char>>,
    pub next: nat,
    pub redirects: u8,
    pub url_redirects: u8,
    pub tried: nat,
}

impl View for Search {
    type V = SearchView;

    open spec fn view(&self) -> SearchView {
        SearchView {
            supplied: text::opt_text(self.supplied),
            email: self.email@,
            phase: self.phase,
            candidates: text::texts(self.candidates@),
            next: self.next as nat,
            redirects: self.redirects,
            url_redirects: self.url_redirects,
            tried: self.tried as nat,
        }
    }
}

/// What to do next.
#[derive(Debug)]
pub enum Step {
    AskV2(String),
    /// Find the addresses for a domain.
    LookUp(String),
    /// Ask an address about a mailbox.
    Ask { url: String, email: String },
    Found(DiscoveryResult),
    Failed(EwsError),
}

/// The view of a [`Step`].
pub enum StepView {
    AskV2(Seq<char>),
    LookUp(Seq<char>),
    Ask { url: Seq<char>, email: Seq<char> },
    Found(Seq<char>, DiscoverySource),
    Failed(EwsErrorView),
}

impl View for Step {
    type V = StepView;

    open spec fn view(&self) -> StepView {
        match self {
            Step::AskV2(u) => StepView::AskV2(u@),
            Step::LookUp(d) => StepView::LookUp(d@),
            Step::Ask { url, email } => StepView::Ask { url: url@, email: email@ },
            Step::Found(r) => StepView::Found(r.ews_url@, r.source),
            Step::Failed(e) => StepView::Failed(e@),
        }
    }
}

/// How a search begins: with the answer, where the URL that was supplied is one.
pub open spec fn search_begun(supplied: Option<Seq<char>>, is_endpoint: bool, email: Option<Seq<char>>) -> StepView {
    if supplied is Some && is_endpoint {
        StepView::Found(supplied->0, DiscoverySource::SuppliedUrl)
    } else {
        match email {
            None => StepView::Failed(
                EwsErrorView::AutodiscoverFailed(
                    "either a fully-qualified --url or --mailbox is required"@,
                ),
            ),
            Some(e) => StepView::AskV2(v2_address(e)),
        }
    }
}

/// The domain of a mailbox.
pub open spec fn domain_of(email: Seq<char>) -> Option<Seq<char>> {
    let parts = text::pieces(email, '@');
    if parts.len() < 2 {
        None
    } else {
        Some(parts[1])
    }
}

/// A search that turns to the domain of its mailbox.
pub open spec fn turned(s: SearchView) -> (SearchView, StepView) {
    match domain_of(s.email) {
        None => (s, StepView::Failed(EwsErrorView::AutodiscoverFailed("--mailbox is not an email"@))),
        Some(d) => (SearchView { phase: Phase::Candidates, ..s }, StepView::LookUp(d)),
    }
}

/// A search that goes on to the next address, or ends.
pub open spec fn moved_on(s: SearchView) -> (SearchView, StepView) {
    if s.next < s.candidates.len() {
        (
            SearchView { phase: Phase::Candidate, next: s.next + 1, tried: s.tried + 1, ..s },
            StepView::Ask { url: s.candidates[s.next as int], email: s.email },
        )
    } else {
        (
            s,
            match s.supplied {
                Some(u) => StepView::Found(u, DiscoverySource::SuppliedUrl),
                None => StepView::Failed(
                    EwsErrorView::AutodiscoverFailed(
                        "tried "@ + text::decimal_text(s.tried)
                            + " candidate(s), none returned a v1 EwsUrl"@,
                    ),
                ),
            },
        )
    }
}

/// What follows from the answer in the newer way.
pub open spec fn after_v2(s: SearchView, url: Option<Seq<char>>) -> (SearchView, StepView) {
    match url {
        Some(u) => (s, StepView::Found(u, DiscoverySource::V2)),
        None => turned(s),
    }
}

/// What follows from the addresses for a domain.
pub open spec fn after_lookup(s: SearchView, candidates: Seq<Seq<char>>) -> (SearchView, StepView) {
    moved_on(SearchView { candidates, next: 0, ..s })
}

/// What follows from the answer of an address. A mailbox is redirected four times
/// at most, an address once.
pub open spec fn after_answer(s: SearchView, p: PoxView) -> (SearchView, StepView) {
    match p {
        PoxView::EwsUrl(u) => (s, StepView::Found(u, DiscoverySource::V1)),
        _ => if s.phase is Redirected {
            moved_on(s)
        } else {
            match p {
                PoxView::RedirectAddr(a) => if s.redirects >= 4 {
                    (s, StepView::Failed(EwsErrorView::AutodiscoverLoop))
                } else {
                    turned(SearchView { redirects: (s.redirects + 1) as u8, email: a, ..s })
                },
                PoxView::RedirectUrl(u) => if s.url_redirects >= 1 {
                    (s, StepView::Failed(EwsErrorView::AutodiscoverLoop))
                } else {
                    (
                        SearchView {
                            url_redirects: (s.url_redirects + 1) as u8,
                            tried: s.tried + 1,
                            phase: Phase::Redirected,
                            ..s
                        },
                        StepView::Ask { url: u, email: s.email },
                    )
                },
                _ => moved_on(s),
            }
        },
    }
}

impl SearchView {
    /// No more redirections than are followed, and no more addresses tried than
    /// there were.
    pub open spec fn wf(self) -> bool {
        &&& self.redirects <= 4
        &&& self.url_redirects <= 1
        &&& self.next <= self.candidates.len()
        &&& self.candidates.len() <= 0xffff_ffff_ffff_ffff
        &&& self.tried <= self.redirects * 0xffff_ffff_ffff_ffff + self.next + self.url_redirects
    }
}

/// Begins a search; see [`search_begun`].
pub fn discover(supplied: Option<&str>, email: Option<&str>) -> (r: (Search, Step))
    ensures
        r.1@ == search_begun(
            text::opt_str(supplied),
            supplied is Some && is_endpoint(url_parse(supplied->0@)),
            text::opt_str(email),
        ),
        r.0@.wf(),
        r.0@ == (SearchView {
            supplied: text::opt_str(supplied),
            email: match email {
                Some(e) => e@,
                None => ""@,
            },
            phase: Phase::V2,
            candidates: Seq::empty(),
            next: 0,
            redirects: 0,
            url_redirects: 0,
            tried: 0,
        }),
{
    let mailbox = match email {
        Some(e) => e,
        None => "",
    };
    let search = Search {
        supplied: text::owned(supplied),
        email: mailbox.to_owned(),
        phase: Phase::V2,
        candidates: Vec::new(),
        next: 0,
        redirects: 0,
        url_redirects: 0,
        tried: 0,
    };
    assert(text::texts(search.candidates@) =~= Seq::<Seq<char>>::empty());
    match supplied {
        Some(u) => {
            if is_fully_qualified_ews_url(u) {
                let found = DiscoveryResult { ews_url: u.to_owned(), source: DiscoverySource::SuppliedUrl };
                return (search, Step::Found(found));
            }
        },
        None => {},
    }
    let step = match email {
        None => Step::Failed(
            EwsError::AutodiscoverFailed("either a fully-qualified --url or --mailbox is required".to_owned()),
        ),
        Some(e) => Step::AskV2(v2_url(e)),
    };
    (search, step)
}

impl Search {
    fn turn(&mut self) -> (r: Step)
        ensures
            (final(self)@, r@) == turned(old(self)@),
    {
        let parts = text::split(self.email.as_str(), '@');
        assert(text::texts(parts@).len() == parts@.len());
        if parts.len() < 2 {
            return Step::Failed(EwsError::AutodiscoverFailed("--mailbox is not an email".to_owned()));
        }
        assert(text::texts(parts@)[1] == parts@[1]@);
        self.phase = Phase::Candidates;
        Step::LookUp(parts[1].clone())
    }

    fn move_on(&mut self) -> (r: Step)
        requires
            old(self)@.next <= old(self)@.candidates.len(),
            old(self)@.tried < u128::MAX,
        ensures
            (final(self)@, r@) == moved_on(old(self)@),
    {
        assert(text::texts(self.candidates@).len() == self.candidates@.len());
        if self.next < self.candidates.len() {
            let url = self.candidates[self.next].clone();
            assert(text::texts(self.candidates@)[self.next as int] == url@);
            self.next = self.next + 1;
            self.tried = self.tried + 1;
            self.phase = Phase::Candidate;
            return Step::Ask { url, email: self.email.clone() };
        }
        match &self.supplied {
            Some(u) => Step::Found(
                DiscoveryResult { ews_url: u.clone(), source: DiscoverySource::SuppliedUrl },
            ),
            None => {
                let n = text::decimal(self.tried);
                Step::Failed(
                    EwsError::AutodiscoverFailed(
                        text::joined3("tried ", n.as_str(), " candidate(s), none returned a v1 EwsUrl"),
                    ),
                )
            },
        }
    }

    /// Takes in the answer in the newer way; see [`after_v2`].
    pub fn answered_v2(&mut self, url: Option<&str>) -> (r: Step)
        requires
            old(self)@.wf(),
        ensures
            (final(self)@, r@) == after_v2(old(self)@, text::opt_str(url)),
            final(self)@.wf(),
    {
        match url {
            Some(u) => Step::Found(DiscoveryResult { ews_url: u.to_owned(), source: DiscoverySource::V2 }),
            None => self.turn(),
        }
    }

    /// Takes in the addresses for a domain; see [`after_lookup`].
    pub fn looked_up(&mut self, candidates: Vec<String>) -> (r: Step)
        requires
            old(self)@.wf(),
            old(self)@.tried <= old(self)@.redirects * 0xffff_ffff_ffff_ffff + old(self)@.url_redirects,
        ensures
            (final(self)@, r@) == after_lookup(old(self)@, text::texts(candidates@)),
            final(self)@.wf(),
    {
        let count: usize = candidates.len();
        assert(text::texts(candidates@).len() == count);
        self.candidates = candidates;
        self.next = 0;
        let step = self.move_on();
        assert(self@.candidates.len() == count);
        assert(self@.next <= self@.candidates.len());
        step
    }

    /// Takes in the answer of an address; see [`after_answer`].
    pub fn answered(&mut self, p: PoxOutcome) -> (r: Step)
        requires
            old(self)@.wf(),
        ensures
            (final(self)@, r@) == after_answer(old(self)@, p@),
            final(self)@.wf(),
            final(self)@.phase is Candidates && r is LookUp ==> final(self)@.tried <= final(self)@.redirects
                * 0xffff_ffff_ffff_ffff + final(self)@.url_redirects,
    {
        match p {
            PoxOutcome::EwsUrl(u) => Step::Found(
                DiscoveryResult { ews_url: u, source: DiscoverySource::V1 },
            ),
            PoxOutcome::RedirectAddr(a) => match self.phase {
                Phase::Redirected => self.move_on(),
                _ => {
                    if self.redirects >= 4 {
                        return Step::Failed(EwsError::AutodiscoverLoop);
                    }
                    self.redirects = self.redirects + 1;
                    self.email = a;
                    self.turn()
                },
            },
            PoxOutcome::RedirectUrl(u) => match self.phase {
                Phase::Redirected => self.move_on(),
                _ => {
                    if self.url_redirects >= 1 {
                        return Step::Failed(EwsError::AutodiscoverLoop);
                    }
                    self.url_redirects = self.url_redirects + 1;
                    self.tried = self.tried + 1;
                    self.phase = Phase::Redirected;
                    Step::Ask { url: u, email: self.email.clone() }
                },
            },
            PoxOutcome::Failed => self.move_on(),
        }
    }
}

/// How far a search can still go: redirections to another mailbox, then addresses,
/// then a redirection to another address.
pub open spec fn still_ahead(s: SearchView) -> (int, int, int) {
    (4 - s.redirects, s.candidates.len() - s.next, 1 - s.url_redirects)
}

/// A search ends: each answer that does not end it, and does not turn it to another
/// mailbox, leaves fewer addresses or uses up the one redirection to another
/// address; and it turns to another mailbox four times at most.
pub proof fn searches_end(s: SearchView, p: PoxView)
    requires
        s.wf(),
    ensures
        ({
            let (t, step) = after_answer(s, p);
            let a = still_ahead(s);
            let b = still_ahead(t);
            match step {
                StepView::LookUp(_) => 0 <= b.0 < a.0,
                StepView::Ask { .. } => b.0 == a.0 && (0 <= b.1 < a.1 || (b.1 == a.1 && 0 <= b.2 < a.2)),
                _ => true,
            }
        }),
{
}

/// A URL that was supplied is used where nothing better is found: a search that
/// runs out of addresses ends with it.
pub proof fn a_supplied_url_is_the_last_resort(s: SearchView)
    requires
        s.supplied is Some,
        s.next >= s.candidates.len(),
    ensures
        moved_on(s).1 == StepView::Found(s.supplied->0, DiscoverySource::SuppliedUrl),
{
}

} // verus!
