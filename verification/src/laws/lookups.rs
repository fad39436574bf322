//! Looking things up: accounts by name, blobs on a server, services by domain.

use vstd::prelude::*;
use vstd::string::*;

use crate::db::blobs::hex_text;
use crate::error::{code_of, ErrorView};
use crate::exchange_ews::dns::{
    answers_at, be16, behind_name, behind_questions, label_bytes, name_at, question_head, record_key, server_in,
    servers_in, srv_records, SrvView,
};
use crate::jmap::account::{
    capability_account, get_args, named, owned_account, places_named, principal_account, query_args, resolved,
    unsupported_text, via_principal, PrincipalReply,
};
use crate::jmap::blobxfer::{entry_index, labelled, lookup_args, lookup_view};
use crate::json::{first_key, first_value, JsonView, NumberView};
use crate::text;

verus! {

/// A name stands for the first account of a session that has exactly that name, and for
/// none where no account has it.
pub proof fn names_stand_for_accounts(a: Seq<(Seq<char>, Seq<char>)>, name: Seq<char>, n: nat, i: int)
    ensures
        n <= i < a.len() && a[i].1 == name && (forall|k: int| n <= k < i ==> (#[trigger] a[k]).1 != name) ==> named(
            a,
            name,
            n,
        ) == Some(a[i].0),
        (forall|k: int| n <= k < a.len() ==> (#[trigger] a[k]).1 != name) ==> named(a, name, n) is None,
    decreases a.len() - n,
{
    if n < a.len() && a[n as int].1 != name {
        names_stand_for_accounts(a, name, n + 1, i);
    }
}

/// The principals with the name are asked for, and of what is found its id, its name
/// and its accounts.
pub proof fn principals_are_asked_for_by_name(name: Seq<char>)
    ensures
        ({
            let q = JsonView::Object(query_args(name));
            let g = JsonView::Object(get_args());
            let props = g.array_at("properties"@);
            &&& q.field("filter"@) is Some && q.field("filter"@)->0.text_at("name"@) == Some(name)
            &&& g.field("#ids"@) is Some && g.field("#ids"@)->0.text_at("resultOf"@) == Some("q"@) && g.field(
                "#ids"@,
            )->0.text_at("name"@) == Some("Principal/query"@) && g.field("#ids"@)->0.text_at("path"@) == Some(
                "/ids"@,
            )
            &&& props is Some && props->0.contains(JsonView::Str("id"@)) && props->0.contains(
                JsonView::Str("name"@),
            ) && props->0.contains(JsonView::Str("accounts"@))
        }),
{
    reveal_strlit("#ids");
    reveal_strlit("properties");
    reveal_strlit("resultOf");
    reveal_strlit("name");
    reveal_strlit("path");
    assert("#ids"@.len() == 4);
    assert("properties"@.len() == 10);
    assert("resultOf"@.len() == 8);
    assert("name"@.len() == 4);
    assert("path"@.len() == 4);
    assert("name"@[0] != "path"@[0]);
    let props = JsonView::Object(get_args()).array_at("properties"@)->0;
    assert(props[0] == JsonView::Str("id"@));
    assert(props[1] == JsonView::Str("name"@));
    assert(props[2] == JsonView::Str("accounts"@));
}

proof fn lemma_only_value(
    m: Map<Seq<char>, JsonView>,
    f: spec_fn(JsonView) -> Option<Seq<char>>,
    k: Seq<char>,
)
    requires
        m.dom().contains(k),
        forall|j: Seq<char>| #[trigger] m.dom().contains(j) ==> j == k,
    ensures
        first_value(m, f) == f(m[k]),
{
    if f(m[k]) is Some {
        crate::laws::values::texts_are_ordered_by_their_first_difference(k, 'a', Seq::empty(), 'a', Seq::empty());
        assert(first_key(m, f, k));
    }
}

/// The account of a principal is the one that it owns, else the one that a capability
/// names, else that of the principal itself.
pub proof fn principals_stand_for_accounts(
    p: Map<Seq<char>, JsonView>,
    accounts: Map<Seq<char>, JsonView>,
    k: Seq<char>,
    data: Map<Seq<char>, JsonView>,
    owner: Map<Seq<char>, JsonView>,
    urn: Seq<char>,
    cap: Map<Seq<char>, JsonView>,
    id: Seq<char>,
)
    requires
        p.dom().contains("accounts"@),
        p["accounts"@] == JsonView::Object(accounts),
        accounts.dom().contains(k),
        forall|j: Seq<char>| #[trigger] accounts.dom().contains(j) ==> j == k,
        accounts[k] == JsonView::Object(data),
        data.dom().contains(urn),
        forall|j: Seq<char>| #[trigger] data.dom().contains(j) ==> j == urn,
    ensures
        urn == "urn:ietf:params:jmap:principals:owner"@ && data[urn] == JsonView::Object(owner)
            && owner.dom().contains("accountIdForPrincipal"@) && owner["accountIdForPrincipal"@] == JsonView::Str(id)
            ==> principal_account(JsonView::Object(p)) == Some(id),
        urn != "urn:ietf:params:jmap:principals:owner"@ && data[urn] == JsonView::Object(cap)
            && cap.dom().contains("accountId"@) && cap["accountId"@] == JsonView::Str(id) ==> principal_account(
            JsonView::Object(p),
        ) == Some(id),
        urn != "urn:ietf:params:jmap:principals:owner"@ && data[urn] == JsonView::Object(cap)
            && !cap.dom().contains("accountId"@) ==> principal_account(JsonView::Object(p)) == JsonView::Object(
            p,
        ).text_at("id"@),
{
    let f = |d: JsonView| owned_account(d);
    let g = |d: JsonView| capability_account(d);
    let h = |v: JsonView| v.text_at("accountId"@);
    lemma_only_value(accounts, f, k);
    lemma_only_value(accounts, g, k);
    lemma_only_value(data, h, urn);
    assert(f(accounts[k]) == owned_account(JsonView::Object(data)));
    assert(g(accounts[k]) == capability_account(JsonView::Object(data)));
    assert(h(data[urn]) == data[urn].text_at("accountId"@));
}

/// A principal without accounts stands for the account with its own id.
pub proof fn principals_without_accounts_stand_for_themselves(p: Map<Seq<char>, JsonView>)
    requires
        !p.dom().contains("accounts"@),
    ensures
        principal_account(JsonView::Object(p)) == JsonView::Object(p).text_at("id"@),
{
}

proof fn lemma_places(list: Seq<JsonView>, name: Seq<char>, n: nat, i: int)
    requires
        n <= list.len(),
    ensures
        places_named(list, name, n).contains(i) <==> 0 <= i < n && list[i].text_at("name"@) == Some(name),
    decreases n,
{
    if n > 0 {
        lemma_places(list, name, (n - 1) as nat, i);
        let rest = places_named(list, name, (n - 1) as nat);
        let all = places_named(list, name, n);
        if list[n - 1].text_at("name"@) == Some(name) {
            assert(all[all.len() - 1] == n - 1);
            if rest.contains(i) {
                let k = choose|k: int| 0 <= k < rest.len() && rest[k] == i;
                assert(all[k] == i);
            }
            if all.contains(i) && i != n - 1 {
                let k = choose|k: int| 0 <= k < all.len() && all[k] == i;
                assert(rest[k] == i);
            }
        }
    }
}

proof fn lemma_places_apart(list: Seq<JsonView>, name: Seq<char>, n: nat)
    requires
        n <= list.len(),
    ensures
        forall|a: int, b: int|
            0 <= a < b < places_named(list, name, n).len() ==> #[trigger] places_named(list, name, n)[a]
                < #[trigger] places_named(list, name, n)[b],
        forall|a: int| 0 <= a < places_named(list, name, n).len() ==> #[trigger] places_named(list, name, n)[a] < n,
    decreases n,
{
    if n > 0 {
        lemma_places_apart(list, name, (n - 1) as nat);
        let rest = places_named(list, name, (n - 1) as nat);
        let all = places_named(list, name, n);
        assert forall|a: int| 0 <= a < all.len() implies #[trigger] all[a] < n by {
            if a < rest.len() {
                assert(all[a] == rest[a]);
            }
        }
        assert forall|a: int, b: int| 0 <= a < b < all.len() implies #[trigger] all[a] < #[trigger] all[b] by {
            assert(all[a] == rest[a]);
            if b < rest.len() {
                assert(all[b] == rest[b]);
            }
        }
    }
}

/// A name is resolved to the account of the only principal that has it; none and
/// several are errors.
pub proof fn only_one_principal_may_have_the_name(list: Seq<JsonView>, name: Seq<char>, i: int, j: int)
    ensures
        0 <= i < list.len() && list[i].text_at("name"@) == Some(name) && (forall|k: int|
            0 <= k < list.len() && k != i ==> (#[trigger] list[k]).text_at("name"@) != Some(name))
            && principal_account(list[i]) is Some ==> resolved(list, name) == Ok::<Seq<char>, ErrorView>(
            principal_account(list[i])->0,
        ),
        (forall|k: int| 0 <= k < list.len() ==> (#[trigger] list[k]).text_at("name"@) != Some(name))
            ==> resolved(list, name) is Err && resolved(list, name)->Err_0 is Account,
        0 <= i < j < list.len() && list[i].text_at("name"@) == Some(name) && list[j].text_at("name"@) == Some(name)
            ==> resolved(list, name) is Err && resolved(list, name)->Err_0 is Account,
{
    let p = places_named(list, name, list.len());
    lemma_places(list, name, list.len(), i);
    lemma_places(list, name, list.len(), j);
    lemma_places_apart(list, name, list.len());
    if p.len() > 0 {
        lemma_places(list, name, list.len(), p[0]);
        assert(p.contains(p[0]));
    }
    if p.len() > 1 {
        lemma_places(list, name, list.len(), p[1]);
        assert(p.contains(p[1]));
        assert(p[0] < p[1]);
    }
}

/// What the server lists of its principals decides; that it cannot be asked is told
/// with what can be done, and any other failure as it is.
pub proof fn principals_decide(
    name: Seq<char>,
    accounts: Seq<(Seq<char>, Seq<char>)>,
    reply: PrincipalReply,
)
    ensures
        ({
            let r = via_principal(name, accounts, reply);
            &&& reply matches PrincipalReply::Answered(args) ==> (args@.array_at("list"@) is Some ==> r == resolved(
                args@.array_at("list"@)->0,
                name,
            )) && (args@.array_at("list"@) is None ==> r is Err)
            &&& reply matches PrincipalReply::MethodFailed { shown } ==> r == Err::<Seq<char>, ErrorView>(
                ErrorView::Account(shown@),
            )
            &&& reply matches PrincipalReply::SendFailed { error, shown } ==> r is Err && (error@ is HttpStatus
                && error@->status == 400 && text::occurs(error@->body, "unknownCapability"@) ==> r->Err_0
                == ErrorView::Account(unsupported_text(name, accounts))) && (!(error@ is HttpStatus)
                || error@->status != 400 ==> r->Err_0 == ErrorView::Account(
                "principal resolution request failed: "@ + shown@,
            ))
        }),
{
}

/// A blob is asked for by its id, in the account, for its size.
pub proof fn blobs_are_asked_for_by_id(account: Seq<char>, blob: Seq<char>)
    ensures
        ({
            let a = lookup_args(account, blob);
            &&& a.text_at("accountId"@) == Some(account)
            &&& a.array_at("ids"@) is Some && a.array_at("ids"@)->0.len() == 1 && a.array_at("ids"@)->0[0]
                == JsonView::Str(blob)
            &&& a.array_at("properties"@) is Some && a.array_at("properties"@)->0.contains(JsonView::Str("size"@))
        }),
{
    reveal_strlit("accountId");
    reveal_strlit("ids");
    reveal_strlit("properties");
    assert("accountId"@.len() == 9);
    assert("ids"@.len() == 3);
    assert("properties"@.len() == 10);
    let p = lookup_args(account, blob).array_at("properties"@)->0;
    assert(p[0] == JsonView::Str("size"@));
}

proof fn lemma_entry(list: Seq<JsonView>, blob: Seq<char>, n: nat, i: int)
    requires
        n <= i < list.len(),
        labelled(list[i], blob),
        forall|k: int| n <= k < i ==> !labelled(#[trigger] list[k], blob),
    ensures
        entry_index(list, blob, n) == Some(i),
    decreases i - n,
{
    if n < i {
        assert(!labelled(list[n as int], blob));
        lemma_entry(list, blob, n + 1, i);
    }
}

proof fn lemma_no_entry(list: Seq<JsonView>, blob: Seq<char>, n: nat)
    requires
        n <= list.len(),
        forall|k: int| n <= k < list.len() ==> !labelled(#[trigger] list[k], blob),
    ensures
        entry_index(list, blob, n) == if list.len() == 1 && list[0] is Object && list[0].field("id"@) is None {
            Some(0int)
        } else {
            None
        },
    decreases list.len() - n,
{
    if n < list.len() {
        assert(!labelled(list[n as int], blob));
        lemma_no_entry(list, blob, n + 1);
    }
}

/// A blob is there where the server lists it, with the size that it lists; it is gone
/// where the server says so, and where it says neither, that is an error.
pub proof fn servers_say_whether_a_blob_is_there(
    args: Map<Seq<char>, JsonView>,
    list: Seq<JsonView>,
    gone: Seq<JsonView>,
    blob: Seq<char>,
    i: int,
    size: int,
)
    requires
        args.dom().contains("list"@),
        args["list"@] == JsonView::Array(list),
        args.dom().contains("notFound"@),
        args["notFound"@] == JsonView::Array(gone),
    ensures
        ({
            let r = lookup_view(JsonView::Object(args), blob);
            let unlisted = list.len() != 1 && forall|k: int|
                0 <= k < list.len() ==> (#[trigger] list[k]).text_at("id"@) != Some(blob);
            &&& 0 <= i < list.len() && list[i].text_at("id"@) == Some(blob) && (forall|k: int|
                0 <= k < i ==> (#[trigger] list[k]).text_at("id"@) != Some(blob)) ==> r is Ok && r->Ok_0 is Found && (
            list[i].field("size"@) == Some(JsonView::Number(NumberView::Integer(size))) && 0 <= size <= u64::MAX
                ==> r->Ok_0->size == Some(size as u64))
            &&& unlisted && gone.contains(JsonView::Str(blob)) ==> r is Ok && r->Ok_0 is NotFound
            &&& unlisted && !gone.contains(JsonView::Str(blob)) ==> r is Err && r->Err_0 is Malformed
        }),
{
    if 0 <= i < list.len() && list[i].text_at("id"@) == Some(blob) && (forall|k: int|
        0 <= k < i ==> (#[trigger] list[k]).text_at("id"@) != Some(blob)) {
        lemma_entry(list, blob, 0, i);
    }
    if list.len() != 1 && forall|k: int|
        0 <= k < list.len() ==> (#[trigger] list[k]).text_at("id"@) != Some(blob) {
        lemma_no_entry(list, blob, 0);
    }
}

/// The end of a name is behind its last label, or behind the two bytes that refer to
/// another place.
pub proof fn names_end_behind_their_labels(b: Seq<u8>, at: int)
    requires
        0 <= at < b.len(),
        b.len() < usize::MAX - 2,
    ensures
        b[at] == 0 ==> behind_name(b, at) == Some(at + 1),
        b[at] >= 192 ==> behind_name(b, at) == Some(at + 2),
        0 < b[at] < 192 ==> behind_name(b, at) == behind_name(b, at + 1 + b[at]),
        behind_name(b, b.len() as int) is None,
{
}

/// A name is read label by label, with dots between them; a reference leads to where
/// the rest of the name stands, a few times at most.
pub proof fn names_are_read_label_by_label(b: Seq<u8>, at: int, hops: int, out: Seq<char>)
    requires
        0 <= at < b.len(),
        0 <= hops <= 8,
    ensures
        b[at] == 0 ==> name_at(b, at, hops, out) == Some(out),
        b[at] >= 192 && at + 1 < b.len() && hops < 8 ==> name_at(b, at, hops, out) == name_at(
            b,
            (b[at] - 192) % 64 * 256 + b[at + 1],
            hops + 1,
            out,
        ),
        b[at] >= 192 && hops == 8 ==> name_at(b, at, hops, out) is None,
        0 < b[at] < 192 && at + 1 + b[at] > b.len() ==> name_at(b, at, hops, out) is None,
        0 < b[at] < 192 && at + 1 + b[at] <= b.len() && vstd::utf8::valid_utf8(
            b.subrange(at + 1, at + 1 + b[at]),
        ) ==> name_at(b, at, hops, out) == name_at(
            b,
            at + 1 + b[at],
            hops,
            if out.len() == 0 {
                vstd::utf8::decode_utf8(b.subrange(at + 1, at + 1 + b[at]))
            } else {
                out + seq!['.'] + vstd::utf8::decode_utf8(b.subrange(at + 1, at + 1 + b[at]))
            },
        ),
{
    assert(out.push('.') =~= out + seq!['.']);
}

/// A service record is read from its place: two bytes each for its priority, its weight
/// and its port, and then the name of the server. Answers of other kinds are passed
/// over, and an answer that is cut off makes the whole unreadable.
pub proof fn service_records_are_read(b: Seq<u8>, at: int, n: nat, p: int, target: Seq<char>, rest: Seq<SrvView>)
    requires
        behind_name(b, at) == Some(p),
        0 <= p,
    ensures
        p + 10 > b.len() ==> answers_at(b, at, n + 1) is None,
        p + 10 <= b.len() ==> {
            let size = b[p + 8] * 256 + b[p + 9];
            let end = p + 10 + size;
            &&& end > b.len() ==> answers_at(b, at, n + 1) is None
            &&& end <= b.len() && b[p] == 0 && b[p + 1] == 33 && size >= 7 && name_at(b, p + 16, 0, Seq::empty())
                == Some(target) && answers_at(b, end, n) == Some(rest) ==> answers_at(b, at, n + 1) is Some && {
                let found = answers_at(b, at, n + 1)->0;
                &&& found.len() == rest.len() + 1
                &&& found[0].target == target
                &&& found[0].priority == b[p + 10] * 256 + b[p + 11]
                &&& found[0].weight == b[p + 12] * 256 + b[p + 13]
                &&& found[0].port == b[p + 14] * 256 + b[p + 15]
                &&& found.skip(1) == rest
            }
            &&& end <= b.len() && !(b[p] == 0 && b[p + 1] == 33) ==> answers_at(b, at, n + 1) == answers_at(b, end, n)
        },
        answers_at(b, at, 0) is Some && answers_at(b, at, 0)->0.len() == 0,
{
    if p + 10 <= b.len() {
        let size = b[p + 8] * 256 + b[p + 9];
        let end = p + 10 + size;
        assert(be16(b, p + 8) == size);
        if end <= b.len() && b[p] == 0 && b[p + 1] == 33 && size >= 7 && name_at(b, p + 16, 0, Seq::empty()) == Some(
            target,
        ) && answers_at(b, end, n) == Some(rest) {
            assert(be16(b, p) == 33);
            let found = answers_at(b, at, n + 1)->0;
            assert(found.skip(1) =~= rest);
        }
    }
}

/// A reply holds as many questions and answers as its head says; one without a full
/// head cannot be read.
pub proof fn replies_are_read_as_their_head_says(b: Seq<u8>, at: int)
    ensures
        b.len() < 12 ==> srv_records(b) is None,
        b.len() >= 12 && behind_questions(b, 12, (b[4] * 256 + b[5]) as nat) == Some(at) ==> srv_records(b)
            == answers_at(b, at, (b[6] * 256 + b[7]) as nat),
        b.len() >= 12 && behind_questions(b, 12, (b[4] * 256 + b[5]) as nat) is None ==> srv_records(b) is None,
{
}

/// A record of a lower priority comes first, and of two with one priority the one with
/// the greater weight.
pub proof fn records_are_ranked_by_priority_and_weight(a: SrvView, b: SrvView)
    ensures
        record_key(a) < record_key(b) <==> a.priority < b.priority || (a.priority == b.priority && a.weight
            > b.weight),
{
}

/// A question asks one thing, and for recursion; the name is written label by label.
pub proof fn questions_are_written(label: Seq<char>, labels: Seq<Seq<char>>)
    requires
        label.len() > 0,
        vstd::utf8::encode_utf8(label).len() < 256,
    ensures
        question_head().len() == 12,
        question_head()[2] == 1 && question_head()[4] == 0 && question_head()[5] == 1,
        forall|i: int| 6 <= i < 12 ==> #[trigger] question_head()[i] == 0,
        label_bytes(labels.push(label), labels.len() + 1) == label_bytes(labels, labels.len()) + (seq![
            vstd::utf8::encode_utf8(label).len() as u8,
        ] + vstd::utf8::encode_utf8(label)),
{
    lemma_labels_prefix(labels, label, labels.len());
    let b = vstd::utf8::encode_utf8(label);
    let rest = label_bytes(labels, labels.len());
    assert(labels.push(label)[labels.len() as int] == label);
    assert(rest.push((b.len() % 256) as u8) + b =~= rest + (seq![b.len() as u8] + b));
}

proof fn lemma_labels_prefix(labels: Seq<Seq<char>>, label: Seq<char>, n: nat)
    requires
        n <= labels.len(),
    ensures
        label_bytes(labels.push(label), n) == label_bytes(labels, n),
    decreases n,
{
    if n > 0 {
        lemma_labels_prefix(labels, label, (n - 1) as nat);
        assert(labels.push(label)[n - 1] == labels[n - 1]);
    }
}

/// A line of a resolver's configuration names a server behind the keyword, whatever
/// whitespace stands around it and whatever comment follows.
pub proof fn lines_name_servers(blank: Seq<char>, gap: Seq<char>, server: Seq<char>, comment: Seq<char>)
    requires
        forall|i: int| 0 <= i < blank.len() ==> #[trigger] blank[i] == ' ',
        gap.len() > 0,
        forall|i: int| 0 <= i < gap.len() ==> #[trigger] gap[i] == ' ',
        server.len() > 0,
        !text::white(server[0]),
        !text::white(server.last()),
        !server.contains('#'),
    ensures
        server_in(blank + ("nameserver"@ + gap + server)) == Some(server),
        server_in(blank + ("nameserver"@ + gap + server) + seq!['#'] + comment) == Some(server),
{
    reveal_strlit("nameserver");
    let word = "nameserver"@;
    let bare = word + gap + server;
    let line = blank + bare;
    let none = Seq::<char>::empty();
    assert(!line.contains('#')) by {
        if line.contains('#') {
            let k = choose|k: int| 0 <= k < line.len() && line[k] == '#';
            if k < blank.len() {
                assert(blank[k] == ' ');
            } else if k < blank.len() + 10 {
                assert(line[k] == word[k - blank.len()]);
            } else if k < blank.len() + 10 + gap.len() {
                assert(gap[k - blank.len() - 10] == ' ');
            } else {
                assert(server[k - blank.len() - 10 - gap.len()] == '#');
            }
        }
    }
    crate::laws::texts::texts_split_at_the_first_occurrence(line, '#', comment);
    assert(bare[0] == word[0]);
    assert(bare.last() == server.last());
    assert(blank + bare + none =~= line);
    crate::laws::texts::whitespace_around_is_taken_off(blank, bare, none);
    assert(bare.take(10) =~= word);
    assert(bare.skip(10) =~= gap + server);
    assert(gap + server + none =~= gap + server);
    crate::laws::texts::whitespace_around_is_taken_off(gap, server, none);
}

/// The servers of a configuration are those of its lines, in order.
pub proof fn servers_are_listed_in_order(lines: Seq<Seq<char>>, n: nat)
    requires
        n < lines.len(),
    ensures
        servers_in(lines, 0).len() == 0,
        server_in(lines[n as int]) is Some ==> servers_in(lines, n + 1) == servers_in(lines, n).push(
            server_in(lines[n as int])->0,
        ),
        server_in(lines[n as int]) is None ==> servers_in(lines, n + 1) == servers_in(lines, n),
{
}

/// The value of a small hexadecimal digit.
pub open spec fn digit_of(c: char) -> int {
    if '0' <= c <= '9' {
        c as u32 - '0' as u32
    } else if 'a' <= c <= 'f' {
        c as u32 - 'a' as u32 + 10
    } else {
        -1
    }
}

/// A key is shown with two hexadecimal digits for each of its bytes.
pub proof fn keys_are_shown_digit_by_digit(bytes: Seq<u8>, i: int)
    requires
        0 <= i < bytes.len(),
    ensures
        hex_text(bytes).len() == 2 * bytes.len(),
        digit_of(hex_text(bytes)[2 * i]) * 16 + digit_of(hex_text(bytes)[2 * i + 1]) == bytes[i],
        digit_of(hex_text(bytes)[2 * i]) >= 0,
        digit_of(hex_text(bytes)[2 * i + 1]) >= 0,
{
}

/// An error about accounts and an incomplete run end a program with codes of their own.
pub proof fn errors_have_exit_codes(e: ErrorView)
    ensures
        e is Account ==> code_of(e) == Some(3i32),
        e is Partial ==> code_of(e) == Some(5i32),
        !(e is Account) && !(e is Partial) ==> code_of(e) is None,
{
}

} // verus!
