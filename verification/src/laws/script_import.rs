//! Importing filter scripts.

use vstd::prelude::*;
use vstd::string::*;

use crate::address::UrlView;
use crate::error::ErrorView;
use crate::sync::import_managesieve::coordinator::{
    active_all, auth_outcome, auth_step, counted, counted_all, endpoint_of, fetch_error, foreseen, listing_error, place_of,
    retry_step, session_address, source_conflict, writes, Action, AttemptView, AuthStepView, Disposition, EndpointView,
    ManageSieveAuth, Mechanism, Offers, PresentOutcome, Retries, RetryStep, Written,
};
use crate::text;
use crate::types::TypeCounts;

verus! {

/// Whether an action is for a script that the server lists as active.
pub open spec fn is_active(a: Action) -> bool {
    (a matches Action::New { active, .. } && active) || (a matches Action::Present { active, .. } && active)
}

/// The number in the archive of the script of an action, where it is there after the
/// action was carried out.
pub open spec fn number_of(a: Action, w: Written) -> Option<i64> {
    match (a, w) {
        (Action::New { .. }, Written::Done(id)) => Some(id),
        (Action::New { .. }, Written::Failed) => None,
        (Action::Present { local_id, .. }, _) => Some(local_id),
        (Action::Vanished { .. }, _) => None,
    }
}

/// The script that the server lists as active is the one that is active in the
/// archive: where an action is for an active script that the archive then has, and no
/// later one is, the script of that action is marked.
pub proof fn the_active_script_stays_active(actions: Seq<Action>, w: Seq<Written>, n: nat, i: int)
    requires
        0 <= i < n <= actions.len(),
        w.len() == actions.len(),
        is_active(actions[i]),
        number_of(actions[i], w[i]) is Some,
        forall|j: int| i < j < n ==> !is_active(#[trigger] actions[j]) || number_of(actions[j], w[j]) is None,
    ensures
        active_all(actions, w, n) == number_of(actions[i], w[i]),
    decreases n,
{
    if i < n - 1 {
        the_active_script_stays_active(actions, w, (n - 1) as nat, i);
        assert(!is_active(actions[n - 1]) || number_of(actions[n - 1], w[n - 1]) is None);
    }
}

/// No script is marked as active where the server lists none that the archive has.
pub proof fn no_other_script_becomes_active(actions: Seq<Action>, w: Seq<Written>, n: nat)
    requires
        n <= actions.len(),
        w.len() == actions.len(),
        forall|j: int| 0 <= j < n ==> !is_active(#[trigger] actions[j]) || number_of(actions[j], w[j]) is None,
    ensures
        active_all(actions, w, n) is None,
    decreases n,
{
    if n > 0 {
        no_other_script_becomes_active(actions, w, (n - 1) as nat);
        assert(!is_active(actions[n - 1]) || number_of(actions[n - 1], w[n - 1]) is None);
    }
}

/// A new script counts as created and fetched, one whose content changed as fetched,
/// one that is as before as skipped, one that is gone as deleted; one that could not be
/// written counts as failed and as nothing else.
pub proof fn scripts_are_counted_by_what_became_of_them(c: TypeCounts, name: String, active: bool, id: i64, w: Written)
    requires
        c.room(1),
    ensures
        ({
            let new = Action::New { name, active };
            let same = Action::Present { name, local_id: id, outcome: PresentOutcome::Unchanged, active };
            let flag = Action::Present { name, local_id: id, outcome: PresentOutcome::ActiveOnly, active };
            let changed = Action::Present { name, local_id: id, outcome: PresentOutcome::ContentUpdated, active };
            let gone = Action::Vanished { name, local_id: id };
            let done = Written::Done(id);
            let lost = Written::Failed;
            let failed = TypeCounts { failed: (c.failed + 1) as u64, ..c };
            &&& writes(new) && writes(changed) && writes(gone) && !writes(same) && !writes(flag)
            &&& counted(c, new, done) == (TypeCounts {
                created: (c.created + 1) as u64,
                fetched: (c.fetched + 1) as u64,
                ..c
            })
            &&& counted(c, changed, done) == (TypeCounts { fetched: (c.fetched + 1) as u64, ..c })
            &&& counted(c, same, w) == (TypeCounts { skipped: (c.skipped + 1) as u64, ..c })
            &&& counted(c, flag, w) == (TypeCounts { skipped: (c.skipped + 1) as u64, ..c })
            &&& counted(c, gone, done) == (TypeCounts { deleted: (c.deleted + 1) as u64, ..c })
            &&& counted(c, new, lost) == failed
            &&& counted(c, changed, lost) == failed
            &&& counted(c, gone, lost) == failed
        }),
{
}

/// A run counts action by action, in order; so does a dry run.
pub proof fn runs_count_every_action(c: TypeCounts, actions: Seq<Action>, w: Seq<Written>, n: nat)
    requires
        n < actions.len(),
        w.len() == actions.len(),
    ensures
        counted_all(c, actions, w, 0) == c,
        foreseen(c, actions, 0) == c,
        counted_all(c, actions, w, n + 1) == counted(counted_all(c, actions, w, n), actions[n as int], w[n as int]),
        foreseen(c, actions, n + 1) == counted(foreseen(c, actions, n), actions[n as int], Written::Done(0)),
{
}

/// A script of a name is the last that was fetched under it.
pub proof fn the_last_script_of_a_name_counts(names: Seq<Seq<char>>, name: Seq<char>, n: nat)
    requires
        n <= names.len(),
    ensures
        match place_of(names, name, n) {
            Some(i) => 0 <= i < n && names[i] == name && forall|j: int| i < j < n ==> #[trigger] names[j] != name,
            None => forall|j: int| 0 <= j < n ==> #[trigger] names[j] != name,
        },
    decreases n,
{
    if n > 0 && names[n - 1] != name {
        the_last_script_of_a_name_counts(names, name, (n - 1) as nat);
    }
}

/// A URL names the server: `sieves` for TLS from the start and `sieve` for TLS on
/// request, at the port it gives or else at 4190. Another scheme, and a URL without a
/// host, are refused.
pub proof fn urls_name_the_server(url: Seq<char>, u: UrlView, e: Seq<char>, host: Seq<char>)
    ensures
        ({
            let known = u.scheme == "sieves"@ || u.scheme == "sieve"@;
            &&& endpoint_of(url, Err(e)) is Err
            &&& !known ==> endpoint_of(url, Ok(u)) == Err::<EndpointView, ErrorView>(
                ErrorView::Usage("--url scheme must be sieve or sieves, got "@ + u.scheme),
            )
            &&& known && u.host is None ==> endpoint_of(url, Ok(u)) == Err::<EndpointView, ErrorView>(
                ErrorView::Usage("--url missing host: "@ + url),
            )
            &&& known && u.host == Some(host) ==> (endpoint_of(url, Ok(u)) matches Ok(x) && x.host == host
                && x.implicit_tls == (u.scheme == "sieves"@) && (u.port is Some ==> x.port == u.port->0) && (u.port
                is None ==> x.port == 4190))
            &&& session_address(EndpointView { host, port: 4190, implicit_tls: true }) == "sieves://"@ + host + ":4190"@
            &&& session_address(EndpointView { host, port: 4190, implicit_tls: false }) == "sieve://"@ + host + ":4190"@
        }),
{
    reveal_strlit("sieves");
    reveal_strlit("sieve");
    reveal_strlit("://");
    reveal_strlit(":");
    reveal_strlit("sieves://");
    reveal_strlit("sieve://");
    reveal_strlit(":4190");
    reveal_with_fuel(text::decimal_text, 5);
    assert(text::decimal_text(4190) =~= seq!['4', '1', '9', '0']);
    assert("sieves://"@ =~= "sieves"@ + "://"@);
    assert("sieve://"@ =~= "sieve"@ + "://"@);
    assert(":4190"@ =~= ":"@ + text::decimal_text(4190));
    assert("sieves"@ + "://"@ + (host + ":"@ + text::decimal_text(4190)) =~= "sieves"@ + "://"@ + host + (":"@
        + text::decimal_text(4190)));
    assert("sieve"@ + "://"@ + (host + ":"@ + text::decimal_text(4190)) =~= "sieve"@ + "://"@ + host + (":"@
        + text::decimal_text(4190)));
}

/// Signing in with a password: PLAIN first where the server offers it; LOGIN where it
/// declines PLAIN or does not offer it; nothing more once one is accepted, and an error
/// of the connection ends it. What the server said of each attempt is told.
pub proof fn passwords_are_tried_in_order(
    user: String,
    password: String,
    offers: Offers,
    no: Seq<char>,
    nor: Seq<char>,
    broken: Seq<char>,
    any: Option<AttemptView>,
)
    ensures
        ({
            let auth = ManageSieveAuth::Basic { user, password };
            let plain = offers.plain;
            let login = offers.login;
            let declined = Some(AttemptView::Declined(no));
            let yes = Some(AttemptView::Accepted);
            let failed = Some(AttemptView::Failed(broken));
            &&& plain ==> auth_step(auth, offers, None, any) == AuthStepView::Try(Mechanism::Plain)
            &&& plain ==> auth_step(auth, offers, yes, any) is SignedIn
            &&& plain ==> auth_step(auth, offers, failed, any) == AuthStepView::Wire(broken)
            &&& plain && login ==> auth_step(auth, offers, declined, None) == AuthStepView::Try(Mechanism::Login)
            &&& plain && login ==> auth_step(auth, offers, declined, yes) is SignedIn
            &&& plain && login ==> auth_step(auth, offers, declined, failed) == AuthStepView::Wire(broken)
            &&& plain && login ==> auth_step(auth, offers, declined, Some(AttemptView::Declined(nor)))
                == AuthStepView::TerminallyRefused("LOGIN: "@ + nor + "; PLAIN: "@ + no)
            &&& plain && !login ==> auth_step(auth, offers, declined, any) == AuthStepView::TerminallyRefused(
                "PLAIN: "@ + no,
            )
            &&& !plain && login ==> auth_step(auth, offers, any, None) == AuthStepView::Try(Mechanism::Login)
            &&& !plain && login ==> auth_step(auth, offers, any, yes) is SignedIn
            &&& !plain && login ==> auth_step(auth, offers, any, failed) == AuthStepView::Wire(broken)
            &&& !plain && login ==> auth_step(auth, offers, any, Some(AttemptView::Declined(nor)))
                == AuthStepView::TerminallyRefused("LOGIN: "@ + nor)
            &&& !plain && !login ==> auth_step(auth, offers, any, any) is NoUsableMechanism
        }),
{
    assert("LOGIN: "@ + nor + ("; PLAIN: "@ + no) =~= "LOGIN: "@ + nor + "; PLAIN: "@ + no);
}

/// Signing in with a token: OAUTHBEARER where the server offers it, once.
pub proof fn tokens_are_tried_once(
    user: String,
    token: String,
    offers: Offers,
    no: Seq<char>,
    broken: Seq<char>,
    any: Option<AttemptView>,
)
    ensures
        ({
            let auth = ManageSieveAuth::Bearer { user, token };
            let bearer = offers.oauthbearer;
            &&& bearer ==> auth_step(auth, offers, None, any) == AuthStepView::Try(Mechanism::OAuthBearer)
            &&& bearer ==> auth_step(auth, offers, Some(AttemptView::Accepted), any) is SignedIn
            &&& bearer ==> auth_step(auth, offers, Some(AttemptView::Declined(no)), any)
                == AuthStepView::TerminallyRefused("OAUTHBEARER: "@ + no)
            &&& bearer ==> auth_step(auth, offers, Some(AttemptView::Failed(broken)), any) == AuthStepView::Wire(broken)
            &&& !bearer ==> auth_step(auth, offers, any, any) is NoUsableMechanism
        }),
{
}

/// Who signs in names the account; whoever does not is told why.
pub proof fn accounts_are_named_after_users(user: String, secret: String, why: Seq<char>)
    ensures
        ({
            let basic = ManageSieveAuth::Basic { user, password: secret };
            let bearer = ManageSieveAuth::Bearer { user, token: secret };
            &&& auth_outcome(basic, AuthStepView::SignedIn) == Ok::<Seq<char>, ErrorView>(user@)
            &&& auth_outcome(bearer, AuthStepView::SignedIn) == Ok::<Seq<char>, ErrorView>(user@)
            &&& auth_outcome(basic, AuthStepView::TerminallyRefused(why)) == Err::<Seq<char>, ErrorView>(
                ErrorView::Connection("auth failed: "@ + why),
            )
            &&& auth_outcome(basic, AuthStepView::NoUsableMechanism(why)) == Err::<Seq<char>, ErrorView>(
                ErrorView::Connection(why),
            )
            &&& auth_outcome(basic, AuthStepView::Wire(why)) == Err::<Seq<char>, ErrorView>(ErrorView::Connection(why))
        }),
{
}

/// A command is sent again after a failure that passes, and after the connection was
/// lost, as often as is allowed of each; after any other failure it is not.
pub proof fn commands_are_repeated_where_that_may_help(n: Retries, max: u32, d: Disposition)
    ensures
        d == Disposition::Transient && n.transient < max ==> (retry_step(n, max, d) matches RetryStep::Wait(m)
            && m.transient == n.transient + 1 && m.transport == n.transport),
        d == Disposition::TransportDrop && n.transport < max ==> (retry_step(n, max, d) matches RetryStep::Reconnect(m)
            && m.transport == n.transport + 1 && m.transient == n.transient),
        d == Disposition::Transient && n.transient >= max ==> retry_step(n, max, d) is GiveUp,
        d == Disposition::TransportDrop && n.transport >= max ==> retry_step(n, max, d) is GiveUp,
        d != Disposition::Transient && d != Disposition::TransportDrop ==> retry_step(n, max, d) is GiveUp,
{
}

/// A script that cannot be fetched costs that script alone, unless the server sends
/// the client elsewhere, the connection is lost for good, or no terms were found.
pub proof fn one_script_does_not_end_the_import(name: Seq<char>, d: Disposition, shown: Seq<char>)
    ensures
        fetch_error(name, d, shown) is None <==> d == Disposition::Permanent || d == Disposition::PerScriptRecoverable
            || d == Disposition::Transient,
        d == Disposition::Transient ==> listing_error(d, shown) == "LISTSCRIPTS retries exhausted: "@ + shown,
        d == Disposition::TransportDrop ==> listing_error(d, shown)
            == "LISTSCRIPTS transport drop, retries exhausted: "@ + shown,
        d == Disposition::Referral ==> listing_error(d, shown) == "LISTSCRIPTS referral: "@ + shown
            + "; vandelay does not follow referrals"@,
        d == Disposition::Permanent || d == Disposition::PerScriptRecoverable || d == Disposition::FeatureNegotiation
            ==> listing_error(d, shown) == "LISTSCRIPTS failed: "@ + shown,
        d == Disposition::TransportDrop ==> fetch_error(name, d, shown) == Some(
            "GETSCRIPT "@ + text::debug_text(name) + " transport drop exhausted retries: "@ + shown,
        ),
{
    assert("GETSCRIPT "@ + text::debug_text(name) + (" transport drop exhausted retries: "@ + shown) =~= "GETSCRIPT "@
        + text::debug_text(name) + " transport drop exhausted retries: "@ + shown);
}

/// An archive that holds scripts of another source says which.
pub proof fn conflicts_name_the_other_source(url: Seq<char>, account: Seq<char>)
    ensures
        source_conflict(url, account) == "archive already records managesieve source "@ + url + " / "@ + account
            + "; re-run with --allow-source-change or use a fresh archive"@,
{
    assert(source_conflict(url, account) =~= "archive already records managesieve source "@ + url + " / "@ + account
        + "; re-run with --allow-source-change or use a fresh archive"@);
}

} // verus!
