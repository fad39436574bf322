//! Which account a name or an id stands for.

use vstd::prelude::*;
use vstd::string::*;

use crate::error::{Error, ErrorView};
use crate::jmap::error::{JmapError, JmapErrorView};
use crate::json::{first_value, lemma_first_absent, lemma_first_found, views, Json, JsonObject, JsonView};
use crate::text;

verus! {

/// How the user names an account.
#[derive(Debug)]
pub enum AccountSelector {
    Id(String),
    Name(String),
}

/// The accounts of a session: ids and names, in the session's order.
pub open spec fn account_views(a: Seq<(String, String)>) -> Seq<(Seq<char>, Seq<char>)> {
    Seq::new(a.len(), |i: int| (a[i].0@, a[i].1@))
}

/// What a selector comes to.
#[derive(Debug)]
pub enum Resolution {
    Account(String),
    /// No account of the session has the name: the server's principals are to be
    /// asked.
    AskPrincipals,
    /// No account of the session has the name, and the server has no principals.
    Failed(Error),
}

/// What a server with principals can do.
pub const PRINCIPALS_URN: &'static str = "urn:ietf:params:jmap:principals";

/// The first account with a name.
pub open spec fn named(a: Seq<(Seq<char>, Seq<char>)>, name: Seq<char>, n: nat) -> Option<Seq<char>>
    decreases a.len() - n,
{
    if n >= a.len() {
        None
    } else if a[n as int].1 == name {
        Some(a[n as int].0)
    } else {
        named(a, name, n + 1)
    }
}

/// A name with its id in brackets.
pub open spec fn account_label(a: (Seq<char>, Seq<char>)) -> Seq<char> {
    a.1 + " ("@ + (a.0 + ")"@)
}

/// The message for a server whose principals cannot be asked.
pub open spec fn unsupported_text(name: Seq<char>, accounts: Seq<(Seq<char>, Seq<char>)>) -> Seq<char> {
    let shown = text::join_text(
        Seq::new(accounts.len(), |i: int| account_label(accounts[i])),
        ", "@,
    );
    let available = if shown.len() == 0 {
        "(none)"@
    } else {
        shown
    };
    "account name '"@ + name
        + "' is not enumerated in this session and the source server does not support 'urn:ietf:params:jmap:principals', which is required to resolve an account by name from an administrator session. Accounts visible to these credentials: "@
        + (available
        + ". Pass --account-id <id> to use an account id verbatim (no principals lookup is performed), authenticate directly as the target user, or import over IMAP instead."@)
}

/// See [`unsupported_text`].
fn unsupported_principals(name: &str, accounts: &Vec<(String, String)>) -> (r: Error)
    ensures
        r@ == ErrorView::Account(unsupported_text(name@, account_views(accounts@))),
{
    let ghost all = account_views(accounts@);
    let mut labels: Vec<String> = Vec::new();
    let mut i: usize = 0;
    while i < accounts.len()
        invariant
            i <= accounts.len(),
            all == account_views(accounts@),
            labels.len() == i,
            forall|j: int| 0 <= j < i ==> (#[trigger] labels@[j])@ == account_label(all[j]),
        decreases accounts.len() - i,
    {
        let tail = text::joined(accounts[i].0.as_str(), ")");
        labels.push(text::joined3(accounts[i].1.as_str(), " (", tail.as_str()));
        i += 1;
    }
    assert(text::texts(labels@) =~= Seq::new(all.len(), |i: int| account_label(all[i])));
    let mut available = text::join(&labels, ", ");
    if available.as_str().is_empty() {
        available = "(none)".to_owned();
    }
    let head = text::joined3(
        "account name '",
        name,
        "' is not enumerated in this session and the source server does not support 'urn:ietf:params:jmap:principals', which is required to resolve an account by name from an administrator session. Accounts visible to these credentials: ",
    );
    let tail = text::joined(
        available.as_str(),
        ". Pass --account-id <id> to use an account id verbatim (no principals lookup is performed), authenticate directly as the target user, or import over IMAP instead.",
    );
    Error::Account(text::joined(head.as_str(), tail.as_str()))
}

/// Resolves a selector: an id is taken as it stands, a name stands for the first
/// account of the session that has exactly that name. For another name the
/// server's principals are asked, where the session has the capability; else
/// nothing is, and the error says what can be done.
pub fn resolve(
    selector: &AccountSelector,
    accounts: &Vec<(String, String)>,
    capabilities: &Vec<String>,
) -> (r: Resolution)
    ensures
        match selector {
            AccountSelector::Id(id) => r matches Resolution::Account(x) && x@ == id@,
            AccountSelector::Name(name) => match named(account_views(accounts@), name@, 0) {
                Some(id) => r matches Resolution::Account(x) && x@ == id,
                None => if text::texts(capabilities@).contains(PRINCIPALS_URN@) {
                    r is AskPrincipals
                } else {
                    r matches Resolution::Failed(e) && e@ == ErrorView::Account(
                        unsupported_text(name@, account_views(accounts@)),
                    )
                },
            },
        },
{
    match selector {
        AccountSelector::Id(id) => Resolution::Account(id.clone()),
        AccountSelector::Name(name) => {
            let ghost all = account_views(accounts@);
            let mut i: usize = 0;
            while i < accounts.len()
                invariant
                    i <= accounts.len(),
                    all == account_views(accounts@),
                    named(all, name@, 0) == named(all, name@, i as nat),
                    *selector == AccountSelector::Name(*name),
                decreases accounts.len() - i,
            {
                assert(all[i as int] == (accounts@[i as int].0@, accounts@[i as int].1@));
                if text::same(accounts[i].1.as_str(), name.as_str()) {
                    return Resolution::Account(accounts[i].0.clone());
                }
                i += 1;
            }
            if text::listed(capabilities, PRINCIPALS_URN) {
                Resolution::AskPrincipals
            } else {
                Resolution::Failed(unsupported_principals(name.as_str(), accounts))
            }
        },
    }
}

/// The arguments of the call that asks for the principals with a name.
pub open spec fn query_args(name: Seq<char>) -> Map<Seq<char>, JsonView> {
    Map::<Seq<char>, JsonView>::empty().insert(
        "filter"@,
        JsonView::Object(Map::<Seq<char>, JsonView>::empty().insert("name"@, JsonView::Str(name))),
    )
}

/// See [`query_args`].
pub fn principal_query(name: &str) -> (r: JsonObject)
    ensures
        r@ == query_args(name@),
{
    let mut filter = JsonObject::new();
    filter.insert("name".to_owned(), Json::text(name));
    let mut o = JsonObject::new();
    o.insert("filter".to_owned(), Json::Object(filter));
    o
}

/// The arguments of the call, in the same request, that asks for what the first
/// one, called `q`, finds.
pub open spec fn get_args() -> Map<Seq<char>, JsonView> {
    Map::<Seq<char>, JsonView>::empty().insert(
        "#ids"@,
        JsonView::Object(
            Map::<Seq<char>, JsonView>::empty().insert("resultOf"@, JsonView::Str("q"@)).insert(
                "name"@,
                JsonView::Str("Principal/query"@),
            ).insert("path"@, JsonView::Str("/ids"@)),
        ),
    ).insert(
        "properties"@,
        JsonView::Array(
            seq![JsonView::Str("id"@), JsonView::Str("name"@), JsonView::Str("accounts"@)],
        ),
    )
}

/// See [`get_args`].
pub fn principal_get() -> (r: JsonObject)
    ensures
        r@ == get_args(),
{
    let mut of = JsonObject::new();
    of.insert("resultOf".to_owned(), Json::text("q"));
    of.insert("name".to_owned(), Json::text("Principal/query"));
    of.insert("path".to_owned(), Json::text("/ids"));
    let mut wanted: Vec<Json> = Vec::new();
    wanted.push(Json::text("id"));
    wanted.push(Json::text("name"));
    wanted.push(Json::text("accounts"));
    let wanted = Json::Array(wanted);
    assert(wanted@->Array_0 =~= seq![
        JsonView::Str("id"@),
        JsonView::Str("name"@),
        JsonView::Str("accounts"@),
    ]);
    let mut o = JsonObject::new();
    o.insert("#ids".to_owned(), Json::Object(of));
    o.insert("properties".to_owned(), wanted);
    o
}

/// What asking for the principals of a name brought. `shown` is an error as it
/// is reported.
pub enum PrincipalReply {
    SendFailed { error: JmapError, shown: String },
    MethodFailed { shown: String },
    Answered(Json),
}

/// The account that a principal owns.
pub open spec fn owned_account(data: JsonView) -> Option<Seq<char>> {
    match data.field("urn:ietf:params:jmap:principals:owner"@) {
        Some(owner) => owner.text_at("accountIdForPrincipal"@),
        None => None,
    }
}

/// The first account that one of the capabilities of some data names.
pub open spec fn capability_account(data: JsonView) -> Option<Seq<char>> {
    match data {
        JsonView::Object(c) => first_value(c, |v: JsonView| v.text_at("accountId"@)),
        _ => None,
    }
}

/// The account of a principal: the first that it owns, else the first that a
/// capability names, else the principal's own id.
pub open spec fn principal_account(p: JsonView) -> Option<Seq<char>> {
    let listed = match p.field("accounts"@) {
        Some(JsonView::Object(m)) => match first_value(m, |d: JsonView| owned_account(d)) {
            Some(id) => Some(id),
            None => first_value(m, |d: JsonView| capability_account(d)),
        },
        _ => None,
    };
    match listed {
        Some(id) => Some(id),
        None => p.text_at("id"@),
    }
}

fn find_owned(m: &JsonObject) -> (r: Option<String>)
    ensures
        text::opt_text(r) == first_value(m@, |d: JsonView| owned_account(d)),
{
    let ghost f = |d: JsonView| owned_account(d);
    let n: usize = m.len();
    let mut i: usize = 0;
    while i < n
        invariant
            n == m.keys().len(),
            i <= n,
            crate::json::ascending(m.keys()),
            forall|k: Seq<char>| #[trigger] m@.dom().contains(k) ==> m.keys().contains(k),
            f == |d: JsonView| owned_account(d),
            forall|j: int| 0 <= j < i ==> f(m@[#[trigger] m.keys()[j]]) is None,
        decreases n - i,
    {
        match m.value_at(i).get("urn:ietf:params:jmap:principals:owner") {
            Some(owner) => match owner.str_at("accountIdForPrincipal") {
                Some(id) => {
                    proof {
                        lemma_first_found(*m, f, i as int);
                    }
                    return Some(id.to_owned());
                },
                None => {},
            },
            None => {},
        }
        i += 1;
    }
    proof {
        lemma_first_absent(*m, f);
    }
    None
}

fn find_in_capabilities(c: &JsonObject) -> (r: Option<String>)
    ensures
        text::opt_text(r) == first_value(c@, |v: JsonView| v.text_at("accountId"@)),
{
    let ghost f = |v: JsonView| v.text_at("accountId"@);
    let n: usize = c.len();
    let mut i: usize = 0;
    while i < n
        invariant
            n == c.keys().len(),
            i <= n,
            crate::json::ascending(c.keys()),
            forall|k: Seq<char>| #[trigger] c@.dom().contains(k) ==> c.keys().contains(k),
            f == |v: JsonView| v.text_at("accountId"@),
            forall|j: int| 0 <= j < i ==> f(c@[#[trigger] c.keys()[j]]) is None,
        decreases n - i,
    {
        match c.value_at(i).str_at("accountId") {
            Some(id) => {
                proof {
                    lemma_first_found(*c, f, i as int);
                }
                return Some(id.to_owned());
            },
            None => {},
        }
        i += 1;
    }
    proof {
        lemma_first_absent(*c, f);
    }
    None
}

fn find_capability(m: &JsonObject) -> (r: Option<String>)
    ensures
        text::opt_text(r) == first_value(m@, |d: JsonView| capability_account(d)),
{
    let ghost f = |d: JsonView| capability_account(d);
    let n: usize = m.len();
    let mut i: usize = 0;
    while i < n
        invariant
            n == m.keys().len(),
            i <= n,
            crate::json::ascending(m.keys()),
            forall|k: Seq<char>| #[trigger] m@.dom().contains(k) ==> m.keys().contains(k),
            f == |d: JsonView| capability_account(d),
            forall|j: int| 0 <= j < i ==> f(m@[#[trigger] m.keys()[j]]) is None,
        decreases n - i,
    {
        match m.value_at(i) {
            Json::Object(c) => match find_in_capabilities(c) {
                Some(id) => {
                    proof {
                        lemma_first_found(*m, f, i as int);
                    }
                    return Some(id);
                },
                None => {},
            },
            _ => {},
        }
        i += 1;
    }
    proof {
        lemma_first_absent(*m, f);
    }
    None
}

/// The account of a principal; see [`principal_account`].
pub fn extract_account_id(principal: &Json, name: &str) -> (r: Result<String, Error>)
    ensures
        match r {
            Ok(id) => principal_account(principal@) == Some(id@),
            Err(e) => principal_account(principal@) is None && e@ == ErrorView::Account(
                "principal for '"@ + name@ + "' has no resolvable data account id"@,
            ),
        },
{
    match principal.get("accounts") {
        Some(Json::Object(m)) => match find_owned(m) {
            Some(id) => {
                return Ok(id);
            },
            None => match find_capability(m) {
                Some(id) => {
                    return Ok(id);
                },
                None => {},
            },
        },
        _ => {},
    }
    match principal.str_at("id") {
        Some(id) => Ok(id.to_owned()),
        None => Err(
            Error::Account(
                text::joined3("principal for '", name, "' has no resolvable data account id"),
            ),
        ),
    }
}

/// The places of the principals with a name.
pub open spec fn places_named(list: Seq<JsonView>, name: Seq<char>, n: nat) -> Seq<int>
    decreases n,
{
    if n == 0 || n > list.len() {
        Seq::empty()
    } else if list[n - 1].text_at("name"@) == Some(name) {
        places_named(list, name, (n - 1) as nat).push(n - 1)
    } else {
        places_named(list, name, (n - 1) as nat)
    }
}

/// The ids, as far as there are any, of the values in some places.
pub open spec fn ids_at(list: Seq<JsonView>, places: Seq<int>) -> Seq<Seq<char>>
    decreases places.len(),
{
    if places.len() == 0 {
        Seq::empty()
    } else {
        let rest = ids_at(list, places.drop_last());
        match list[places.last()].text_at("id"@) {
            Some(id) => rest.push(id),
            None => rest,
        }
    }
}

/// What the principals that a server lists come to for a name: the account of
/// the only one with exactly that name.
pub open spec fn resolved(list: Seq<JsonView>, name: Seq<char>) -> Result<Seq<char>, ErrorView> {
    let places = places_named(list, name, list.len());
    if places.len() == 0 {
        Err(
            ErrorView::Account("account name '"@ + name + "' not found via Principal/query"@),
        )
    } else if places.len() == 1 {
        match principal_account(list[places[0]]) {
            Some(id) => Ok(id),
            None => Err(
                ErrorView::Account(
                    "principal for '"@ + name + "' has no resolvable data account id"@,
                ),
            ),
        }
    } else {
        Err(
            ErrorView::Account(
                "account name '"@ + name + ("' is ambiguous; candidate principals: "@
                    + text::join_text(ids_at(list, places), ", "@)),
            ),
        )
    }
}

/// What a reply about the principals of a name comes to.
pub open spec fn via_principal(
    name: Seq<char>,
    accounts: Seq<(Seq<char>, Seq<char>)>,
    reply: PrincipalReply,
) -> Result<Seq<char>, ErrorView> {
    match reply {
        PrincipalReply::SendFailed { error, shown } => if error@ matches JmapErrorView::HttpStatus { status, body }
            && status == 400 && text::occurs(body, "unknownCapability"@) {
            Err(ErrorView::Account(unsupported_text(name, accounts)))
        } else {
            Err(ErrorView::Account("principal resolution request failed: "@ + shown@))
        },
        PrincipalReply::MethodFailed { shown } => Err(ErrorView::Account(shown@)),
        PrincipalReply::Answered(args) => match args@.array_at("list"@) {
            None => Err(ErrorView::Account("Principal/get returned no list"@)),
            Some(list) => resolved(list, name),
        },
    }
}

/// The views of the two outcomes.
pub open spec fn id_view(r: Result<String, Error>) -> Result<Seq<char>, ErrorView> {
    match r {
        Ok(id) => Ok(id@),
        Err(e) => Err(e@),
    }
}

/// Resolves a name that no account of the session has, by what the server says of
/// its principals; see [`via_principal`].
pub fn resolve_via_principal(
    name: &str,
    accounts: &Vec<(String, String)>,
    reply: PrincipalReply,
) -> (r: Result<String, Error>)
    ensures
        id_view(r) == via_principal(name@, account_views(accounts@), reply),
{
    match reply {
        PrincipalReply::SendFailed { error, shown } => {
            let unknown = match &error {
                JmapError::HttpStatus { status, body } => *status == 400 && text::contains(
                    body.as_str(),
                    "unknownCapability",
                ),
                _ => false,
            };
            if unknown {
                Err(unsupported_principals(name, accounts))
            } else {
                Err(
                    Error::Account(text::joined("principal resolution request failed: ", shown.as_str())),
                )
            }
        },
        PrincipalReply::MethodFailed { shown } => Err(Error::Account(shown)),
        PrincipalReply::Answered(args) => match args.array_at("list") {
            None => Err(Error::Account("Principal/get returned no list".to_owned())),
            Some(list) => pick_principal(list, name),
        },
    }
}

fn pick_principal(list: &Vec<Json>, name: &str) -> (r: Result<String, Error>)
    ensures
        id_view(r) == resolved(views(list@), name@),
{
    let ghost all = views(list@);
    let mut places: Vec<usize> = Vec::new();
    let ghost mut marks = Seq::<int>::empty();
    let mut i: usize = 0;
    while i < list.len()
        invariant
            i <= list.len(),
            all == views(list@),
            marks == places_named(all, name@, i as nat),
            marks.len() == places.len(),
            forall|j: int| 0 <= j < places.len() ==> #[trigger] places@[j] == marks[j] && places@[j] < i,
        decreases list.len() - i,
    {
        assert(all[i as int] == list@[i as int]@);
        match list[i].str_at("name") {
            Some(n) => if text::same(n, name) {
                places.push(i);
                proof {
                    marks = marks.push(i as int);
                }
            },
            None => {},
        }
        i += 1;
    }
    if places.len() == 0 {
        return Err(Error::Account(text::joined3("account name '", name, "' not found via Principal/query")));
    }
    if places.len() == 1 {
        let at: usize = places[0];
        assert(all[at as int] == list@[at as int]@);
        return extract_account_id(&list[at], name);
    }
    let mut ids: Vec<String> = Vec::new();
    let mut k: usize = 0;
    assert(text::texts(ids@) =~= ids_at(all, marks.take(0)));
    while k < places.len()
        invariant
            k <= places.len(),
            all == views(list@),
            marks.len() == places.len(),
            forall|j: int|
                0 <= j < places.len() ==> #[trigger] places@[j] == marks[j] && places@[j] < list.len(),
            text::texts(ids@) == ids_at(all, marks.take(k as int)),
        decreases places.len() - k,
    {
        let at: usize = places[k];
        assert(all[at as int] == list@[at as int]@);
        let ghost was = text::texts(ids@);
        assert(marks.take(k + 1).drop_last() =~= marks.take(k as int));
        assert(marks.take(k + 1).last() == at);
        match list[at].str_at("id") {
            Some(id) => {
                ids.push(id.to_owned());
                assert(text::texts(ids@) =~= was.push(id@));
            },
            None => {},
        }
        k += 1;
    }
    assert(marks.take(marks.len() as int) =~= marks);
    let tail = text::joined("' is ambiguous; candidate principals: ", text::join(&ids, ", ").as_str());
    Err(Error::Account(text::joined3("account name '", name, tail.as_str())))
}

proof fn lemma_places(list: Seq<JsonView>, name: Seq<char>, n: nat, i: int)
    requires
        n <= list.len(),
        0 <= i < places_named(list, name, n).len(),
    ensures
        0 <= places_named(list, name, n)[i] < n,
        list[places_named(list, name, n)[i]].text_at("name"@) == Some(name),
    decreases n,
{
    if n > 0 && i < places_named(list, name, (n - 1) as nat).len() {
        lemma_places(list, name, (n - 1) as nat, i);
    }
}

/// A name is matched exactly: an account is found through the principals only
/// where one of them has that very name.
pub proof fn names_are_matched_exactly(list: Seq<JsonView>, name: Seq<char>)
    requires
        resolved(list, name) is Ok,
    ensures
        exists|i: int|
            0 <= i < list.len() && (#[trigger] list[i]).text_at("name"@) == Some(name)
                && principal_account(list[i]) == Some(resolved(list, name)->Ok_0),
{
    lemma_places(list, name, list.len(), 0);
    let at = places_named(list, name, list.len())[0];
    assert(list[at].text_at("name"@) == Some(name));
}

} // verus!
