//! Percent-encoding, forms and the claims of access tokens.

use vstd::prelude::*;
use vstd::string::*;
use vstd::utf8::*;

use base64::Engine;

use crate::json::{json_parse, unsigned_of, Json, JsonView};
use crate::text;

verus! {

/// Whether a byte stands for itself in a percent-encoded text.
pub open spec fn unreserved(b: u8) -> bool {
    ||| 65 <= b <= 90
    ||| 97 <= b <= 122
    ||| 48 <= b <= 57
    ||| b == 45
    ||| b == 95
    ||| b == 46
    ||| b == 126
}

/// The capital hexadecimal digit for a number below sixteen.
pub open spec fn hex_digit(n: nat) -> char {
    if n < 10 {
        ('0' as u32 + n) as char
    } else {
        ('A' as u32 + (n - 10)) as char
    }
}

/// What a byte is written as: itself, or `%` and two hexadecimal digits.
pub open spec fn escaped(b: u8) -> Seq<char> {
    if unreserved(b) {
        seq![b as char]
    } else {
        seq!['%', hex_digit((b / 16) as nat), hex_digit((b % 16) as nat)]
    }
}

/// Bytes, percent-encoded.
pub open spec fn percent_encoded(bytes: Seq<u8>) -> Seq<char>
    decreases bytes.len(),
{
    if bytes.len() == 0 {
        Seq::empty()
    } else {
        escaped(bytes[0]) + percent_encoded(bytes.drop_first())
    }
}

proof fn lemma_percent_push(bytes: Seq<u8>, b: u8)
    ensures
        percent_encoded(bytes.push(b)) == percent_encoded(bytes) + escaped(b),
    decreases bytes.len(),
{
    if bytes.len() == 0 {
        assert(bytes.push(b).drop_first() =~= Seq::<u8>::empty());
        assert(percent_encoded(bytes.push(b).drop_first()) =~= Seq::<char>::empty());
        assert(percent_encoded(bytes.push(b)) =~= percent_encoded(bytes) + escaped(b));
    } else {
        lemma_percent_push(bytes.drop_first(), b);
        assert(bytes.push(b).drop_first() =~= bytes.drop_first().push(b));
        assert(percent_encoded(bytes.push(b)) =~= percent_encoded(bytes) + escaped(b));
    }
}

proof fn lemma_hex_digit(a: nat, b: nat)
    requires
        a < 16,
        b < 16,
        hex_digit(a) == hex_digit(b),
    ensures
        a == b,
{
}

proof fn lemma_escaped_apart(a: u8, b: u8)
    requires
        escaped(a)[0] == escaped(b)[0],
        !unreserved(a) ==> escaped(a)[1] == escaped(b)[1] && escaped(a)[2] == escaped(b)[2],
    ensures
        a == b,
{
    assert('%' as u32 == 37);
    if !unreserved(a) && !unreserved(b) {
        lemma_hex_digit((a / 16) as nat, (b / 16) as nat);
        lemma_hex_digit((a % 16) as nat, (b % 16) as nat);
    }
}

/// Percent-encoding loses nothing: different bytes are written differently.
pub proof fn percent_encoding_is_injective(a: Seq<u8>, b: Seq<u8>)
    requires
        percent_encoded(a) == percent_encoded(b),
    ensures
        a == b,
    decreases a.len(),
{
    if a.len() == 0 || b.len() == 0 {
        if a.len() > 0 {
            assert(percent_encoded(a).len() >= escaped(a[0]).len());
        }
        if b.len() > 0 {
            assert(percent_encoded(b).len() >= escaped(b[0]).len());
        }
        assert(a =~= b);
    } else {
        lemma_same_first(a, b);
        let x = percent_encoded(a);
        let n = escaped(a[0]).len() as int;
        assert(x.skip(n) =~= percent_encoded(a.drop_first()));
        assert(x.skip(n) =~= percent_encoded(b.drop_first()));
        percent_encoding_is_injective(a.drop_first(), b.drop_first());
        assert(a =~= seq![a[0]] + a.drop_first());
        assert(b =~= seq![b[0]] + b.drop_first());
    }
}

proof fn lemma_same_first(a: Seq<u8>, b: Seq<u8>)
    requires
        a.len() > 0,
        b.len() > 0,
        percent_encoded(a) == percent_encoded(b),
    ensures
        a[0] == b[0],
{
    let x = percent_encoded(a);
    let ea = escaped(a[0]);
    let eb = escaped(b[0]);
    assert(x == ea + percent_encoded(a.drop_first()));
    assert(x == eb + percent_encoded(b.drop_first()));
    assert(x[0] == ea[0]);
    assert(x[0] == eb[0]);
    assert('%' as u32 == 37);
    assert(unreserved(a[0]) ==> ea[0] == a[0] as char);
    assert(unreserved(b[0]) ==> eb[0] == b[0] as char);
    assert(unreserved(a[0]) <==> unreserved(b[0]));
    if !unreserved(a[0]) {
        assert(x[1] == ea[1]);
        assert(x[1] == eb[1]);
        assert(x[2] == ea[2]);
        assert(x[2] == eb[2]);
    }
    lemma_escaped_apart(a[0], b[0]);
}

/// Whether a character can stand in a path segment or a form as it is.
pub open spec fn plain_char(c: char) -> bool {
    c == '%' || exists|b: u8| unreserved(b) && c == #[trigger] (b as char)
}

/// A percent-encoded text holds unreserved characters and percent signs only.
pub proof fn percent_encoding_is_plain(bytes: Seq<u8>, i: int)
    requires
        0 <= i < percent_encoded(bytes).len(),
    ensures
        plain_char(percent_encoded(bytes)[i]),
    decreases bytes.len(),
{
    let e = escaped(bytes[0]);
    if i < e.len() {
        if !unreserved(bytes[0]) && i > 0 {
            let n = if i == 1 {
                (bytes[0] / 16) as nat
            } else {
                (bytes[0] % 16) as nat
            };
            assert(percent_encoded(bytes)[i] == hex_digit(n));
            let d: u8 = if n < 10 {
                (48 + n) as u8
            } else {
                (55 + n) as u8
            };
            assert(unreserved(d) && hex_digit(n) == d as char);
        } else if unreserved(bytes[0]) {
            assert(percent_encoded(bytes)[i] == bytes[0] as char);
        }
    } else {
        percent_encoding_is_plain(bytes.drop_first(), i - e.len());
    }
}

fn is_unreserved(b: u8) -> (r: bool)
    ensures
        r == unreserved(b),
{
    (65 <= b && b <= 90) || (97 <= b && b <= 122) || (48 <= b && b <= 57) || b == 45 || b == 95 || b == 46
        || b == 126
}

fn hex_char(n: u8) -> (r: char)
    requires
        n < 16,
    ensures
        r == hex_digit(n as nat),
{
    if n < 10 {
        (48 + n) as char
    } else {
        (55 + n) as char
    }
}

/// A text, percent-encoded byte by byte.
pub fn urlencode(s: &str) -> (r: String)
    ensures
        r@ == percent_encoded(s.spec_bytes()),
{
    let bytes = s.as_bytes();
    let mut out = String::new();
    let mut i: usize = 0;
    while i < bytes.len()
        invariant
            i <= bytes.len(),
            bytes@ == s.spec_bytes(),
            out@ == percent_encoded(bytes@.take(i as int)),
        decreases bytes.len() - i,
    {
        let b: u8 = bytes[i];
        let ghost was = out@;
        if is_unreserved(b) {
            out.push(b as char);
        } else {
            out.push('%');
            out.push(hex_char(b / 16));
            out.push(hex_char(b % 16));
        }
        proof {
            assert(out@ =~= was + escaped(b));
            lemma_percent_push(bytes@.take(i as int), b);
            assert(bytes@.take(i + 1) =~= bytes@.take(i as int).push(b));
        }
        i += 1;
    }
    assert(bytes@.take(bytes@.len() as int) =~= bytes@);
    out
}

/// The view of a form: names and values.
pub open spec fn pair_views(pairs: Seq<(&str, &str)>) -> Seq<(Seq<char>, Seq<char>)> {
    Seq::new(pairs.len(), |i: int| (pairs[i].0@, pairs[i].1@))
}

/// A form as it is posted: `name=value`, percent-encoded, joined by `&`.
pub open spec fn form_text(pairs: Seq<(Seq<char>, Seq<char>)>) -> Seq<char> {
    text::join_text(
        Seq::new(
            pairs.len(),
            |i: int|
                percent_encoded(encode_utf8(pairs[i].0)) + "="@ + percent_encoded(encode_utf8(pairs[i].1)),
        ),
        "&"@,
    )
}

/// See [`form_text`].
pub fn form_encode(pairs: &Vec<(&str, &str)>) -> (r: String)
    ensures
        r@ == form_text(pair_views(pairs@)),
{
    let mut parts: Vec<String> = Vec::new();
    let mut i: usize = 0;
    while i < pairs.len()
        invariant
            i <= pairs.len(),
            parts.len() == i,
            forall|j: int|
                0 <= j < i ==> (#[trigger] parts@[j])@ == percent_encoded(encode_utf8(pairs@[j].0@)) + "="@
                    + percent_encoded(encode_utf8(pairs@[j].1@)),
        decreases pairs.len() - i,
    {
        let (name, value) = pairs[i];
        parts.push(text::joined3(urlencode(name).as_str(), "=", urlencode(value).as_str()));
        i += 1;
    }
    assert(text::texts(parts@) =~= Seq::new(
        pair_views(pairs@).len(),
        |i: int|
            percent_encoded(encode_utf8(pair_views(pairs@)[i].0)) + "="@ + percent_encoded(
                encode_utf8(pair_views(pairs@)[i].1),
            ),
    ));
    text::join(&parts, "&")
}

/// What base64 with the URL alphabet and without padding stands for.
pub uninterp spec fn base64_url(t: Seq<char>) -> Option<Seq<u8>>;

/// What base64 with the usual alphabet and without padding stands for.
pub uninterp spec fn base64_unpadded(t: Seq<char>) -> Option<Seq<u8>>;

/// What base64 with the usual alphabet and padding stands for.
pub uninterp spec fn base64_padded(t: Seq<char>) -> Option<Seq<u8>>;

/// Bytes in base64 with the usual alphabet and padding.
pub uninterp spec fn base64_text(bytes: Seq<u8>) -> Seq<char>;

/// The bytes of an optional vector.
pub open spec fn opt_bytes(o: Option<Vec<u8>>) -> Option<Seq<u8>> {
    match o {
        Some(v) => Some(v@),
        None => None,
    }
}

/// `URL_SAFE_NO_PAD.decode` of the `base64` crate.
#[verifier::external_body]
fn decode_url(t: &str) -> (r: Option<Vec<u8>>)
    ensures
        opt_bytes(r) == base64_url(t@),
{
    base64::engine::general_purpose::URL_SAFE_NO_PAD.decode(t).ok()
}

/// `STANDARD_NO_PAD.decode` of the `base64` crate.
#[verifier::external_body]
fn decode_unpadded(t: &str) -> (r: Option<Vec<u8>>)
    ensures
        opt_bytes(r) == base64_unpadded(t@),
{
    base64::engine::general_purpose::STANDARD_NO_PAD.decode(t).ok()
}

/// `STANDARD.decode` of the `base64` crate.
#[verifier::external_body]
fn decode_padded(t: &str) -> (r: Option<Vec<u8>>)
    ensures
        opt_bytes(r) == base64_padded(t@),
{
    base64::engine::general_purpose::STANDARD.decode(t).ok()
}

/// `STANDARD.encode` of the `base64` crate; `STANDARD.decode` gives the bytes
/// back.
#[verifier::external_body]
pub(crate) fn encode_base64(bytes: &[u8]) -> (r: String)
    ensures
        r@ == base64_text(bytes@),
        base64_padded(r@) == Some(bytes@),
{
    base64::engine::general_purpose::STANDARD.encode(bytes)
}

/// The claims of an access token that are looked at.
#[derive(Debug)]
pub struct JwtClaims {
    pub tenant_id: Option<String>,
    pub upn: Option<String>,
    pub name: Option<String>,
    pub exp: Option<u64>,
}

/// The view of [`JwtClaims`].
pub struct ClaimsView {
    pub tenant_id: Option<Seq<char>>,
    pub upn: Option<Seq<char>>,
    pub name: Option<Seq<char>>,
    pub exp: Option<u64>,
}

impl View for JwtClaims {
    type V = ClaimsView;

    open spec fn view(&self) -> ClaimsView {
        ClaimsView {
            tenant_id: text::opt_text(self.tenant_id),
            upn: text::opt_text(self.upn),
            name: text::opt_text(self.name),
            exp: self.exp,
        }
    }
}

impl Default for JwtClaims {
    fn default() -> (r: JwtClaims)
        ensures
            r@ == no_claims(),
    {
        JwtClaims { tenant_id: None, upn: None, name: None, exp: None }
    }
}

/// No claims at all.
pub open spec fn no_claims() -> ClaimsView {
    ClaimsView { tenant_id: None, upn: None, name: None, exp: None }
}

/// The bytes that the payload of a token stands for, in the first form of base64
/// that it is written in.
pub open spec fn payload_bytes(t: Seq<char>) -> Option<Seq<u8>> {
    match base64_url(t) {
        Some(b) => Some(b),
        None => match base64_unpadded(t) {
            Some(b) => Some(b),
            None => base64_padded(t),
        },
    }
}

/// The unsigned integer under a key.
pub open spec fn u64_at(v: JsonView, k: Seq<char>) -> Option<u64> {
    match v.field(k) {
        Some(JsonView::Number(n)) => unsigned_of(n),
        _ => None,
    }
}

/// The unsigned integer under a key.
pub fn get_u64(v: &Json, key: &str) -> (r: Option<u64>)
    ensures
        r == u64_at(v@, key@),
{
    match v.get(key) {
        Some(n) => n.as_u64(),
        None => None,
    }
}

/// The claims that a payload makes.
pub open spec fn claims_in(v: JsonView) -> ClaimsView {
    ClaimsView {
        tenant_id: v.text_at("tid"@),
        upn: match v.text_at("upn"@) {
            Some(t) => Some(t),
            None => v.text_at("preferred_username"@),
        },
        name: v.text_at("name"@),
        exp: u64_at(v, "exp"@),
    }
}

/// The claims in a token's payload, once it is read.
pub fn read_claims(value: &Json) -> (r: JwtClaims)
    ensures
        r@ == claims_in(value@),
{
    let upn = match value.str_at("upn") {
        Some(t) => Some(t),
        None => value.str_at("preferred_username"),
    };
    JwtClaims {
        tenant_id: text::owned(value.str_at("tid")),
        upn: text::owned(upn),
        name: text::owned(value.str_at("name")),
        exp: get_u64(value, "exp"),
    }
}

/// The claims of a token: those of its second part, where that is base64 for a
/// JSON text.
pub open spec fn claims_of(token: Seq<char>) -> Option<ClaimsView> {
    let parts = text::pieces(token, '.');
    if parts.len() < 2 {
        None
    } else {
        match payload_bytes(parts[1]) {
            None => None,
            Some(bytes) => match json_parse(bytes) {
                None => None,
                Some(v) => Some(claims_in(v)),
            },
        }
    }
}

/// See [`claims_of`].
pub fn decode_jwt_claims(token: &str) -> (r: Option<JwtClaims>)
    ensures
        match r {
            Some(c) => claims_of(token@) == Some(c@),
            None => claims_of(token@) is None,
        },
{
    let parts = text::split(token, '.');
    assert(text::texts(parts@).len() == parts.len());
    if parts.len() < 2 {
        return None;
    }
    let payload = parts[1].as_str();
    assert(text::texts(parts@)[1] == payload@);
    let bytes = match decode_url(payload) {
        Some(b) => b,
        None => match decode_unpadded(payload) {
            Some(b) => b,
            None => match decode_padded(payload) {
                Some(b) => b,
                None => {
                    return None;
                },
            },
        },
    };
    match Json::parse(bytes.as_slice()) {
        Some(v) => Some(read_claims(&v)),
        None => None,
    }
}

/// An access token with what is known of it.
#[derive(Debug)]
pub struct AcquiredToken {
    pub access_token: String,
    pub refresh_token: Option<String>,
    pub expires_in: Option<u64>,
    pub tenant_id: Option<String>,
    pub upn: Option<String>,
    pub name: Option<String>,
}

/// The view of an [`AcquiredToken`].
pub struct TokenView {
    pub access_token: Seq<char>,
    pub refresh_token: Option<Seq<char>>,
    pub expires_in: Option<u64>,
    pub tenant_id: Option<Seq<char>>,
    pub upn: Option<Seq<char>>,
    pub name: Option<Seq<char>>,
}

impl View for AcquiredToken {
    type V = TokenView;

    open spec fn view(&self) -> TokenView {
        TokenView {
            access_token: self.access_token@,
            refresh_token: text::opt_text(self.refresh_token),
            expires_in: self.expires_in,
            tenant_id: text::opt_text(self.tenant_id),
            upn: text::opt_text(self.upn),
            name: text::opt_text(self.name),
        }
    }
}

/// A token with the claims that it makes itself.
pub open spec fn token_with(access: Seq<char>, refresh: Option<Seq<char>>, expires_in: Option<u64>) -> TokenView {
    let claims = match claims_of(access) {
        Some(c) => c,
        None => no_claims(),
    };
    TokenView {
        access_token: access,
        refresh_token: refresh,
        expires_in,
        tenant_id: claims.tenant_id,
        upn: claims.upn,
        name: claims.name,
    }
}

/// See [`token_with`].
pub fn make_token(access: &str, refresh: Option<&str>, expires_in: Option<u64>) -> (r: AcquiredToken)
    ensures
        r@ == token_with(access@, text::opt_str(refresh), expires_in),
{
    let claims = match decode_jwt_claims(access) {
        Some(c) => c,
        None => JwtClaims::default(),
    };
    AcquiredToken {
        access_token: access.to_owned(),
        refresh_token: text::owned(refresh),
        expires_in,
        tenant_id: claims.tenant_id,
        upn: claims.upn,
        name: claims.name,
    }
}

} // verus!
