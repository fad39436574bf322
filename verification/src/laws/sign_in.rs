//! Signing in: forms, tokens and what they claim.

use vstd::prelude::*;
use vstd::string::*;
use vstd::utf8::encode_utf8;

use crate::exchange_ews::error::EwsErrorView;
use crate::exchange_ews::oauth as ews;
use crate::exchange_graph::error::GraphErrorView;
use crate::exchange_graph::oauth::{
    code_request, device_code_in, flow_messages, poll_request, poll_step, polling_messages, refresh_request, repeats,
    response_shown, sign_in_prompt, token_response, tried, DeviceCodeView, PollStepView, RefreshEvent, RefreshTries,
    TokenResponseView, DEVICE_CODE_GRANT, LONGEST, SCOPES,
};
use crate::json::{json_parse, JsonView, NumberView};
use crate::text;
use crate::text::{join_text, pieces};
use crate::web::{
    base64_padded, base64_unpadded, base64_url, claims_in, claims_of, escaped, form_text, payload_bytes,
    percent_encoded, plain_char, token_with,
};

verus! {

/// The value of a hexadecimal digit.
pub open spec fn hex_value(c: char) -> int {
    if '0' <= c <= '9' {
        c as u32 - '0' as u32
    } else if 'A' <= c <= 'F' {
        c as u32 - 'A' as u32 + 10
    } else {
        -1
    }
}

/// Letters, digits and four marks stand for themselves; any other byte is written as a
/// percent sign and two hexadecimal digits that give the byte back.
pub proof fn bytes_are_escaped(b: u8)
    ensures
        ({
            let c = b as char;
            let own = 'A' <= c <= 'Z' || 'a' <= c <= 'z' || '0' <= c <= '9' || c == '-' || c == '_' || c == '.' || c
                == '~';
            let e = escaped(b);
            &&& own ==> e == seq![c]
            &&& !own ==> e.len() == 3 && e[0] == '%' && hex_value(e[1]) * 16 + hex_value(e[2]) == b && hex_value(
                e[1],
            ) >= 0 && hex_value(e[2]) >= 0
        }),
{
}

/// Bytes are encoded one after the other.
pub proof fn bytes_are_encoded_in_order(a: Seq<u8>, b: Seq<u8>)
    ensures
        percent_encoded(a + b) == percent_encoded(a) + percent_encoded(b),
        percent_encoded(Seq::empty()).len() == 0,
    decreases a.len(),
{
    if a.len() == 0 {
        assert(a + b =~= b);
        assert(percent_encoded(a) + percent_encoded(b) =~= percent_encoded(b));
    } else {
        assert((a + b).drop_first() =~= a.drop_first() + b);
        bytes_are_encoded_in_order(a.drop_first(), b);
        assert((a + b)[0] == a[0]);
        assert(escaped(a[0]) + percent_encoded(a.drop_first()) + percent_encoded(b) =~= escaped(a[0]) + (
        percent_encoded(a.drop_first()) + percent_encoded(b)));
    }
}

/// What a server reads from a form: whether it has a field with a name and a value.
pub open spec fn carries(form: Seq<char>, name: Seq<char>, value: Seq<char>) -> bool {
    pieces(form, '&').contains(
        percent_encoded(encode_utf8(name)) + seq!['='] + percent_encoded(encode_utf8(value)),
    )
}

proof fn lemma_cut(s: Seq<char>, c: char)
    ensures
        !s.contains(c) ==> pieces(s, c) == seq![s],
        s.contains(c) ==> {
            let i = s.index_of_first(c)->0;
            &&& 0 <= i < s.len()
            &&& s[i] == c
            &&& !s.take(i).contains(c)
            &&& s == s.take(i) + seq![c] + s.skip(i + 1)
            &&& pieces(s, c) == seq![s.take(i)] + pieces(s.skip(i + 1), c)
        },
{
    s.index_of_first_ensures(c);
    if s.contains(c) {
        let i = s.index_of_first(c)->0;
        let a = s.take(i);
        if a.contains(c) {
            let k = choose|k: int| 0 <= k < a.len() && a[k] == c;
            assert(s[k] == c);
        }
        assert(s =~= s.take(i) + seq![c] + s.skip(i + 1));
    }
}

proof fn lemma_piece_behind(s: Seq<char>, c: char, last: Seq<char>)
    requires
        !last.contains(c),
    ensures
        pieces(s + seq![c] + last, c) == pieces(s, c).push(last),
    decreases s.len(),
{
    let t = s + seq![c] + last;
    lemma_cut(s, c);
    lemma_cut(last, c);
    lemma_cut(t, c);
    assert(t[s.len() as int] == c);
    t.index_of_first_ensures(c);
    s.index_of_first_ensures(c);
    let k = t.index_of_first(c)->0;
    if s.contains(c) {
        let i = s.index_of_first(c)->0;
        assert(t[i] == c);
        assert(k == i) by {
            if k < i {
                assert(s[k] == c);
            }
        }
        assert(t.take(i) =~= s.take(i));
        assert(t.skip(i + 1) =~= s.skip(i + 1) + seq![c] + last);
        lemma_piece_behind(s.skip(i + 1), c, last);
        assert(seq![s.take(i)] + pieces(s.skip(i + 1), c).push(last) =~= (seq![s.take(i)] + pieces(
            s.skip(i + 1),
            c,
        )).push(last));
    } else {
        if k < s.len() {
            assert(s[k] == c);
        }
        assert(t.take(k) =~= s);
        assert(t.skip(k + 1) =~= last);
        assert(seq![s] + seq![last] =~= seq![s].push(last));
    }
}

proof fn lemma_pieces_of_joined(parts: Seq<Seq<char>>, c: char)
    requires
        parts.len() > 0,
        forall|i: int| 0 <= i < parts.len() ==> !(#[trigger] parts[i]).contains(c),
    ensures
        pieces(join_text(parts, seq![c]), c) == parts,
    decreases parts.len(),
{
    if parts.len() == 1 {
        lemma_cut(parts[0], c);
        assert(parts =~= seq![parts[0]]);
    } else {
        let rest = parts.drop_last();
        assert forall|i: int| 0 <= i < rest.len() implies !(#[trigger] rest[i]).contains(c) by {
            assert(rest[i] == parts[i]);
        }
        lemma_pieces_of_joined(rest, c);
        assert(!parts[parts.len() - 1].contains(c));
        lemma_piece_behind(join_text(rest, seq![c]), c, parts.last());
        assert(rest.push(parts.last()) =~= parts);
    }
}

/// A server reads back every field of a form, and no others.
pub proof fn forms_are_read_back(pairs: Seq<(Seq<char>, Seq<char>)>, i: int)
    requires
        0 <= i < pairs.len(),
    ensures
        carries(form_text(pairs), pairs[i].0, pairs[i].1),
        pieces(form_text(pairs), '&').len() == pairs.len(),
{
    reveal_strlit("&");
    reveal_strlit("=");
    assert("&"@ =~= seq!['&']);
    assert("="@ =~= seq!['=']);
    let parts = Seq::new(
        pairs.len(),
        |i: int| percent_encoded(encode_utf8(pairs[i].0)) + "="@ + percent_encoded(encode_utf8(pairs[i].1)),
    );
    assert forall|k: int| 0 <= k < parts.len() implies !(#[trigger] parts[k]).contains('&') by {
        let a = percent_encoded(encode_utf8(pairs[k].0));
        let b = percent_encoded(encode_utf8(pairs[k].1));
        if parts[k].contains('&') {
            let j = choose|j: int| 0 <= j < parts[k].len() && parts[k][j] == '&';
            if j < a.len() {
                crate::web::percent_encoding_is_plain(encode_utf8(pairs[k].0), j);
                assert(plain_char('&'));
            } else if j > a.len() {
                crate::web::percent_encoding_is_plain(encode_utf8(pairs[k].1), j - a.len() - 1);
                assert(plain_char('&'));
            }
        }
    }
    lemma_pieces_of_joined(parts, '&');
    assert(parts[i] == percent_encoded(encode_utf8(pairs[i].0)) + seq!['='] + percent_encoded(
        encode_utf8(pairs[i].1),
    ));
}

/// The request for a device code names the application and what access it wants.
pub proof fn code_requests_name_the_application(client_id: Seq<char>)
    ensures
        carries(code_request(client_id), "client_id"@, client_id),
        carries(code_request(client_id), "scope"@, SCOPES@),
        pieces(code_request(client_id), '&').len() == 2,
        carries(ews::code_request(client_id), "client_id"@, client_id),
        carries(ews::code_request(client_id), "scope"@, ews::SCOPE_DELEGATED@),
        pieces(ews::code_request(client_id), '&').len() == 2,
{
    let a = seq![("client_id"@, client_id), ("scope"@, SCOPES@)];
    forms_are_read_back(a, 0);
    forms_are_read_back(a, 1);
    let b = seq![("client_id"@, client_id), ("scope"@, ews::SCOPE_DELEGATED@)];
    forms_are_read_back(b, 0);
    forms_are_read_back(b, 1);
}

/// The question whether the user has signed in names the application and the code.
pub proof fn questions_name_the_code(client_id: Seq<char>, device_code: Seq<char>)
    ensures
        carries(poll_request(client_id, device_code), "client_id"@, client_id),
        carries(
            poll_request(client_id, device_code),
            "grant_type"@,
            "urn:ietf:params:oauth:grant-type:device_code"@,
        ),
        carries(poll_request(client_id, device_code), "device_code"@, device_code),
        pieces(poll_request(client_id, device_code), '&').len() == 3,
{
    let a = seq![("client_id"@, client_id), ("grant_type"@, DEVICE_CODE_GRANT@), ("device_code"@, device_code)];
    forms_are_read_back(a, 0);
    forms_are_read_back(a, 1);
    forms_are_read_back(a, 2);
}

/// The request for a new token names the application, the token that allows it and what
/// access is wanted.
pub proof fn refresh_requests_hold_the_token(client_id: Seq<char>, refresh_token: Seq<char>)
    ensures
        carries(refresh_request(client_id, refresh_token), "client_id"@, client_id),
        carries(refresh_request(client_id, refresh_token), "grant_type"@, "refresh_token"@),
        carries(refresh_request(client_id, refresh_token), "refresh_token"@, refresh_token),
        carries(refresh_request(client_id, refresh_token), "scope"@, SCOPES@),
        carries(ews::refresh_request(client_id, refresh_token), "client_id"@, client_id),
        carries(ews::refresh_request(client_id, refresh_token), "grant_type"@, "refresh_token"@),
        carries(ews::refresh_request(client_id, refresh_token), "refresh_token"@, refresh_token),
        carries(ews::refresh_request(client_id, refresh_token), "scope"@, ews::SCOPE_DELEGATED@),
{
    let a = seq![
        ("client_id"@, client_id),
        ("grant_type"@, "refresh_token"@),
        ("refresh_token"@, refresh_token),
        ("scope"@, SCOPES@),
    ];
    forms_are_read_back(a, 0);
    forms_are_read_back(a, 1);
    forms_are_read_back(a, 2);
    forms_are_read_back(a, 3);
    let b = seq![
        ("client_id"@, client_id),
        ("grant_type"@, "refresh_token"@),
        ("refresh_token"@, refresh_token),
        ("scope"@, ews::SCOPE_DELEGATED@),
    ];
    forms_are_read_back(b, 0);
    forms_are_read_back(b, 1);
    forms_are_read_back(b, 2);
    forms_are_read_back(b, 3);
}

/// An application that asks for a token names itself and its secret, and asks the
/// tenant that it belongs to.
pub proof fn applications_ask_with_their_secret(client_id: Seq<char>, client_secret: Seq<char>, tenant: Seq<char>)
    ensures
        ({
            let r = ews::credentials_request(client_id, client_secret);
            &&& carries(r, "client_id"@, client_id)
            &&& carries(r, "client_secret"@, client_secret)
            &&& carries(r, "scope"@, "https://outlook.office365.com/.default"@)
            &&& carries(r, "grant_type"@, "client_credentials"@)
            &&& text::begins(ews::token_address(tenant), "https://login.microsoftonline.com/"@ + tenant)
            &&& text::begins(ews::code_address(tenant), "https://login.microsoftonline.com/"@ + tenant)
            &&& ews::token_address(tenant).skip(("https://login.microsoftonline.com/"@ + tenant).len() as int)
                == "/oauth2/v2.0/token"@
            &&& ews::code_address(tenant).skip(("https://login.microsoftonline.com/"@ + tenant).len() as int)
                == "/oauth2/v2.0/devicecode"@
        }),
{
    let a = seq![
        ("client_id"@, client_id),
        ("client_secret"@, client_secret),
        ("scope"@, ews::SCOPE_APP_ONLY@),
        ("grant_type"@, "client_credentials"@),
    ];
    forms_are_read_back(a, 0);
    forms_are_read_back(a, 1);
    forms_are_read_back(a, 2);
    forms_are_read_back(a, 3);
    let p = "https://login.microsoftonline.com/"@ + tenant;
    assert((p + "/oauth2/v2.0/token"@).take(p.len() as int) =~= p);
    assert((p + "/oauth2/v2.0/devicecode"@).take(p.len() as int) =~= p);
    assert((p + "/oauth2/v2.0/token"@).skip(p.len() as int) =~= "/oauth2/v2.0/token"@);
    assert((p + "/oauth2/v2.0/devicecode"@).skip(p.len() as int) =~= "/oauth2/v2.0/devicecode"@);
}

/// The claims of a token are read from its payload: the tenant, the user, their name
/// and when the token ends. A user is known by one of two claims, the first of them
/// where both are made.
pub proof fn claims_are_read(v: Map<Seq<char>, JsonView>, t: Seq<char>, n: int)
    ensures
        ({
            let c = claims_in(JsonView::Object(v));
            &&& v.dom().contains("tid"@) && v["tid"@] == JsonView::Str(t) ==> c.tenant_id == Some(t)
            &&& !v.dom().contains("tid"@) ==> c.tenant_id is None
            &&& v.dom().contains("upn"@) && v["upn"@] == JsonView::Str(t) ==> c.upn == Some(t)
            &&& !v.dom().contains("upn"@) && v.dom().contains("preferred_username"@) && v["preferred_username"@]
                == JsonView::Str(t) ==> c.upn == Some(t)
            &&& !v.dom().contains("upn"@) && !v.dom().contains("preferred_username"@) ==> c.upn is None
            &&& v.dom().contains("name"@) && v["name"@] == JsonView::Str(t) ==> c.name == Some(t)
            &&& !v.dom().contains("name"@) ==> c.name is None
            &&& v.dom().contains("exp"@) && v["exp"@] == JsonView::Number(NumberView::Integer(n)) && 0 <= n
                <= u64::MAX ==> c.exp == Some(n as u64)
            &&& !v.dom().contains("exp"@) ==> c.exp is None
        }),
{
}

/// The payload of a token is its second part. A token of one part claims nothing, and
/// neither does one whose payload cannot be read.
pub proof fn the_second_part_makes_the_claims(
    head: Seq<char>,
    payload: Seq<char>,
    rest: Seq<char>,
    bytes: Seq<u8>,
    v: JsonView,
)
    requires
        !head.contains('.'),
        !payload.contains('.'),
    ensures
        ({
            let token = head + seq!['.'] + (payload + seq!['.'] + rest);
            let short = head + seq!['.'] + payload;
            &&& claims_of(head) is None
            &&& payload_bytes(payload) == Some(bytes) && json_parse(bytes) == Some(v) ==> claims_of(short) == Some(
                claims_in(v),
            )
            &&& payload_bytes(payload) is None ==> claims_of(token) is None
            &&& payload_bytes(payload) == Some(bytes) && json_parse(bytes) is None ==> claims_of(token) is None
            &&& payload_bytes(payload) == Some(bytes) && json_parse(bytes) == Some(v) ==> claims_of(token) == Some(
                claims_in(v),
            )
            &&& base64_url(payload) is Some ==> payload_bytes(payload) == base64_url(payload)
            &&& base64_url(payload) is None && base64_unpadded(payload) is Some ==> payload_bytes(payload)
                == base64_unpadded(payload)
            &&& base64_url(payload) is None && base64_unpadded(payload) is None ==> payload_bytes(payload)
                == base64_padded(payload)
        }),
{
    let tail = payload + seq!['.'] + rest;
    let token = head + seq!['.'] + tail;
    lemma_cut(head, '.');
    lemma_first_piece(head, '.', tail);
    lemma_first_piece(payload, '.', rest);
    lemma_cut(rest, '.');
    lemma_first_piece(head, '.', payload);
    lemma_cut(payload, '.');
    assert(pieces(head + seq!['.'] + payload, '.')[1] == payload);
    assert(pieces(token, '.') == seq![head] + pieces(tail, '.'));
    assert(pieces(token, '.')[1] == pieces(tail, '.')[0]);
}

proof fn lemma_first_piece(a: Seq<char>, c: char, b: Seq<char>)
    requires
        !a.contains(c),
    ensures
        pieces(a + seq![c] + b, c) == seq![a] + pieces(b, c),
{
    let s = a + seq![c] + b;
    assert(s[a.len() as int] == c);
    lemma_cut(s, c);
    s.index_of_first_ensures(c);
    let i = s.index_of_first(c)->0;
    if i < a.len() {
        assert(a[i] == c);
    }
    assert(s.take(i) =~= a);
    assert(s.skip(i + 1) =~= b);
}

/// A token is kept as it was given out, with what it claims; one that claims nothing is
/// kept without claims.
pub proof fn tokens_are_kept_with_their_claims(access: Seq<char>, refresh: Option<Seq<char>>, expires_in: Option<u64>)
    ensures
        ({
            let t = token_with(access, refresh, expires_in);
            &&& t.access_token == access
            &&& t.refresh_token == refresh
            &&& t.expires_in == expires_in
            &&& claims_of(access) is Some ==> t.tenant_id == claims_of(access)->0.tenant_id && t.upn == claims_of(
                access,
            )->0.upn && t.name == claims_of(access)->0.name
            &&& claims_of(access) is None ==> t.tenant_id is None && t.upn is None && t.name is None
        }),
{
}

/// A device code is taken over with what the server says of it; the code itself must be
/// there, and the rest has values to fall back on.
pub proof fn device_codes_are_read(v: Map<Seq<char>, JsonView>, code: Seq<char>, t: Seq<char>, n: int)
    requires
        v.dom().contains("device_code"@),
        v["device_code"@] == JsonView::Str(code),
        0 <= n <= u64::MAX,
    ensures
        ({
            let r = device_code_in(JsonView::Object(v));
            &&& r is Ok
            &&& r->Ok_0.device_code == code
            &&& v.dom().contains("user_code"@) && v["user_code"@] == JsonView::Str(t) ==> r->Ok_0.user_code == t
            &&& v.dom().contains("verification_uri"@) && v["verification_uri"@] == JsonView::Str(t)
                ==> r->Ok_0.verification_uri == t
            &&& !v.dom().contains("verification_uri"@) ==> r->Ok_0.verification_uri
                == "https://microsoft.com/devicelogin"@
            &&& v.dom().contains("interval"@) && v["interval"@] == JsonView::Number(NumberView::Integer(n))
                ==> r->Ok_0.interval == n
            &&& !v.dom().contains("interval"@) ==> r->Ok_0.interval == 5
            &&& v.dom().contains("expires_in"@) && v["expires_in"@] == JsonView::Number(NumberView::Integer(n))
                ==> r->Ok_0.expires_in == n
            &&& !v.dom().contains("expires_in"@) ==> r->Ok_0.expires_in == 900
            &&& v.dom().contains("message"@) && v["message"@] == JsonView::Str(t) ==> r->Ok_0.message == Some(t)
            &&& !v.dom().contains("message"@) ==> r->Ok_0.message is None
        }),
{
}

/// An answer without a device code is an error.
pub proof fn a_device_code_must_be_there(v: JsonView)
    requires
        v.text_at("device_code"@) is None,
    ensures
        device_code_in(v) is Err,
{
}

/// The user is told what the server wants them told, or else where to go with which
/// code.
pub proof fn users_are_told_where_to_go(d: DeviceCodeView)
    ensures
        d.message is Some ==> sign_in_prompt(d) == d.message->0,
        d.message is None ==> text::occurs(sign_in_prompt(d), d.verification_uri) && text::occurs(
            sign_in_prompt(d),
            d.user_code,
        ),
{
    if d.message is None {
        let p = sign_in_prompt(d);
        let at = "To sign in, open "@.len() as int;
        assert(p.subrange(at, at + d.verification_uri.len()) =~= d.verification_uri);
        assert(text::occurs_at(p, d.verification_uri, at));
        let behind = at + d.verification_uri.len() + " and enter the code "@.len();
        assert(p.subrange(behind, behind + d.user_code.len()) =~= d.user_code);
        assert(text::occurs_at(p, d.user_code, behind));
    }
}

/// An answer that is a success gives out its token, with the token to get a new one and
/// the time it is good for. Any other says by its error whether to go on asking.
pub proof fn token_answers_are_read(status: u16, v: Map<Seq<char>, JsonView>, t: Seq<char>, e: Seq<char>)
    ensures
        ({
            let r = token_response(status, JsonView::Object(v));
            let ok = 200 <= status <= 299;
            let told = v.dom().contains("error"@) && v["error"@] == JsonView::Str(e);
            &&& ok && v.dom().contains("access_token"@) && v["access_token"@] == JsonView::Str(t) ==> r is Token
                && r->Token_0.access_token == t && r->Token_0.refresh_token == JsonView::Object(v).text_at(
                "refresh_token"@,
            )
            &&& ok && !v.dom().contains("access_token"@) ==> r is Other
            &&& !ok ==> r !is Token
            &&& !ok && told && e == "authorization_pending"@ ==> r is Pending
            &&& !ok && told && e == "slow_down"@ ==> r is SlowDown
            &&& !ok && told && e == "expired_token"@ ==> r is Expired
            &&& !ok && told && e == "authorization_declined"@ ==> r is Declined
            &&& !ok && told && e == "bad_verification_code"@ ==> r is BadCode
            &&& !ok && told && e != "authorization_pending"@ && e != "slow_down"@ && e != "expired_token"@ && e
                != "authorization_declined"@ && e != "bad_verification_code"@ ==> r is Other && r->error == e
        }),
{
    lemma_error_names();
}

proof fn lemma_error_names()
    ensures
        "authorization_pending"@ != "slow_down"@,
        "authorization_pending"@ != "expired_token"@,
        "authorization_pending"@ != "authorization_declined"@,
        "authorization_pending"@ != "bad_verification_code"@,
        "slow_down"@ != "expired_token"@,
        "slow_down"@ != "authorization_declined"@,
        "slow_down"@ != "bad_verification_code"@,
        "expired_token"@ != "authorization_declined"@,
        "expired_token"@ != "bad_verification_code"@,
        "authorization_declined"@ != "bad_verification_code"@,
{
    reveal_strlit("authorization_pending");
    reveal_strlit("slow_down");
    reveal_strlit("expired_token");
    reveal_strlit("authorization_declined");
    reveal_strlit("bad_verification_code");
    assert("authorization_pending"@.len() == 21);
    assert("slow_down"@.len() == 9);
    assert("expired_token"@.len() == 13);
    assert("authorization_declined"@.len() == 22);
    assert("bad_verification_code"@.len() == 21);
    assert("authorization_pending"@[0] != "bad_verification_code"@[0]);
}

/// While the user is signing in, it is asked again; a token ends the asking, and so
/// does every refusal, with an error of its own. Where the server wants more time
/// between questions, it gets it.
pub proof fn the_server_decides_on_asking_again(response: TokenResponseView, delay: u128, by: u128)
    requires
        delay <= LONGEST,
        by <= LONGEST,
    ensures
        ({
            let a = poll_step(response, delay, by, flow_messages());
            let b = poll_step(response, delay, by, polling_messages());
            &&& response is Pending ==> a == PollStepView::Again(delay as int) && b == a
            &&& response is SlowDown && delay + by <= LONGEST ==> a == PollStepView::Again(delay + by) && b == a
            &&& response is SlowDown && delay + by > LONGEST ==> a == PollStepView::Again(LONGEST as int) && b == a
            &&& response is Token ==> a is Done && a->Done_0 == response->Token_0 && b == a
            &&& response is Expired ==> a is Failed && a->Failed_0 == GraphErrorView::OAuth(
                "device code expired; restart the import"@,
            )
            &&& response is Declined ==> a is Failed && a->Failed_0 == GraphErrorView::OAuth(
                "the user declined the device-code sign-in request"@,
            )
            &&& response is BadCode ==> a is Failed && a->Failed_0 == GraphErrorView::OAuth(
                "device code rejected"@,
            )
            &&& response is Other ==> a is Failed && a->Failed_0 == GraphErrorView::OAuth(
                "device code polling: "@ + response->error + (": "@ + response->description),
            )
            &&& response is Expired || response is Declined || response is BadCode || response is Other ==> b is Failed
        }),
{
}

/// An attempt to get a new token is repeated where it did not reach the server or the
/// server was at fault, and the time before each is twice the one before, up to eight
/// seconds. What the server refuses is not repeated.
pub proof fn refreshes_are_repeated_where_that_may_help(
    n: RefreshTries,
    shown: &str,
    status: u16,
    json: &crate::json::Json,
)
    requires
        n.attempts < 4,
        n.delay_ms <= 8000,
    ensures
        repeats(n, RefreshEvent::SendFailed(shown)) <==> n.attempts < 3,
        repeats(n, RefreshEvent::Answered(status, json)) <==> n.attempts < 3 && 500 <= status < 600,
        tried(n).attempts == n.attempts + 1,
        n.delay_ms <= 4000 ==> tried(n).delay_ms == n.delay_ms * 2,
        n.delay_ms > 4000 ==> tried(n).delay_ms == 8000,
{
}

/// The other way of signing in reads answers alike: a success gives out its token, and
/// an answer that is none says why.
pub proof fn application_answers_are_read(
    status: u16,
    v: Map<Seq<char>, JsonView>,
    t: Seq<char>,
    shown: Seq<char>,
)
    ensures
        ({
            let r = ews::token_in(status, Ok(JsonView::Object(v)));
            let ok = 200 <= status <= 299;
            &&& ews::token_in(status, Err(shown)) is Err
            &&& !ok ==> r is Err
            &&& !ok && v.dom().contains("error_description"@) && v["error_description"@] == JsonView::Str(t)
                ==> r->Err_0 == EwsErrorView::OAuth("http "@ + text::decimal_text(status as nat) + (": "@ + t))
            &&& ok && v.dom().contains("access_token"@) && v["access_token"@] == JsonView::Str(t) ==> r is Ok
                && r->Ok_0.access_token == t && r->Ok_0.refresh_token == JsonView::Object(v).text_at(
                "refresh_token"@,
            )
            &&& ok && !v.dom().contains("access_token"@) ==> r is Err
        }),
{
}

/// The other way of signing in goes on asking in the same cases and ends in all others.
pub proof fn the_server_decides_there_too(
    status: u16,
    v: Map<Seq<char>, JsonView>,
    e: Seq<char>,
    delay: u128,
)
    requires
        delay <= LONGEST,
        v.dom().contains("error"@),
        v["error"@] == JsonView::Str(e),
        !(200 <= status <= 299),
    ensures
        ({
            let r = ews::poll_step(status, Ok(JsonView::Object(v)), delay);
            &&& e == "authorization_pending"@ ==> r == ews::PollStepView::Again(delay as int)
            &&& e == "slow_down"@ && delay + 5_000_000_000 <= LONGEST ==> r == ews::PollStepView::Again(
                delay + 5_000_000_000,
            )
            &&& e != "authorization_pending"@ && e != "slow_down"@ ==> r is Failed
            &&& e == "expired_token"@ ==> r->Failed_0 == EwsErrorView::OAuth(
                "device code expired; restart the import"@,
            )
            &&& e.len() == 0 ==> r->Failed_0 == EwsErrorView::OAuth(
                "device code polling: http "@ + text::decimal_text(status as nat),
            )
            &&& e.len() > 0 && e != "authorization_pending"@ && e != "slow_down"@ && e != "expired_token"@
                && !v.dom().contains("error_description"@) ==> r->Failed_0 == EwsErrorView::OAuth(
                "device code polling: "@ + e + (": "@ + ""@),
            )
        }),
{
    lemma_error_names();
    reveal_strlit("");
    reveal_strlit("authorization_pending");
    reveal_strlit("slow_down");
    reveal_strlit("expired_token");
    if e.len() == 0 {
        assert(e =~= ""@);
    }
}

/// A success ends the other way of signing in, with the token or with what is wrong
/// with the answer.
pub proof fn a_success_ends_the_asking(status: u16, body: Result<JsonView, Seq<char>>, delay: u128)
    requires
        200 <= status <= 299,
    ensures
        ({
            let r = ews::poll_step(status, body, delay);
            &&& body is Ok && body->Ok_0.text_at("access_token"@) is Some ==> r is Done && r->Done_0.access_token
                == body->Ok_0.text_at("access_token"@)->0
            &&& body is Err || body->Ok_0.text_at("access_token"@) is None ==> r is Failed
        }),
{
}

/// A refusal is shown by its kind, and any other with what the server said.
pub proof fn refusals_are_shown(r: TokenResponseView)
    ensures
        r is Pending ==> response_shown(r) == "Pending"@,
        r is SlowDown ==> response_shown(r) == "SlowDown"@,
        r is Expired ==> response_shown(r) == "Expired"@,
        r is Declined ==> response_shown(r) == "Declined"@,
        r is BadCode ==> response_shown(r) == "BadCode"@,
        r is Other ==> response_shown(r) == "Other { error: "@ + text::debug_text(r->error) + (", description: "@
            + text::debug_text(r->description) + " }"@),
{
}

} // verus!
