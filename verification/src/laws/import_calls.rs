//! What the functions of an import give back, call by call.

use vstd::prelude::*;
use vstd::string::*;

use crate::error::Error;
use crate::exchange_ews::autodiscover::{discover, DiscoverySource, PoxOutcome, Search, Step};
use crate::exchange_graph::api::{message_meta, paged_collect, url_escape, Endpoints, MessageMeta, EVENT_SELECT};
use crate::exchange_graph::calendar_map::{convert_event, ConvertedEvent};
use crate::exchange_graph::error::GraphError;
use crate::exchange_graph::types::MailboxKind;
use crate::json::{Json, JsonObject, JsonView};
use crate::laws::calendar::{
    events_keep_their_places, events_keep_what_they_are_about, places_keep_their_names, says, told,
};
use crate::laws::script_import::{is_active, number_of};
use crate::sync::import_exchange_graph::folders::{
    count_stored, delete_vanished_flat, settle_mail, BookSearch, MailFolder, MailRow,
};
use crate::sync::import_managesieve::coordinator;
use crate::sync::import_managesieve::coordinator::{
    check_source, connect_mode, listscripts_with_retry, needs_write, reconnect, script_not_fetched, settle_action,
    Action, AuthStep, ConnectMode, Disposition, Endpoint, ReconnectFailure, Retries, RetryStep, RunEnd, Written,
};
use crate::text;
use crate::types::TypeCounts;

verus! {

/// The script of an action becomes the active one exactly where it is active on the
/// server and the archive has it afterwards; an action that could not be carried out
/// counts as failed, and any other does not.
pub proof fn actions_mark_the_active_script(
    a: &Action,
    w: Written,
    active: &mut Option<i64>,
    counts: &mut TypeCounts,
    writes: bool,
)
    requires
        call_ensures(settle_action, (a, w, active, counts), ()),
        call_ensures(needs_write, (a,), writes),
        old(counts).room(1),
    ensures
        is_active(*a) && number_of(*a, w) is Some ==> *final(active) == number_of(*a, w),
        !is_active(*a) || number_of(*a, w) is None ==> *final(active) == *old(active),
        writes && w is Failed ==> final(counts).failed == old(counts).failed + 1 && final(counts).created == old(
            counts).created && final(counts).deleted == old(counts).deleted,
        !(writes && w is Failed) ==> final(counts).failed == old(counts).failed,
        writes <==> !(a is Present) || (a matches Action::Present { outcome, .. } && outcome
            is ContentUpdated),
{
}

/// A run ends with the active script that its actions left. What nothing refers to is
/// dropped only where nothing failed.
pub proof fn script_runs_end_with_the_active_script(
    actions: &Vec<Action>,
    written: &Vec<Written>,
    counts: TypeCounts,
    retries: u64,
    sleeps: u64,
    r: RunEnd,
    i: int,
)
    requires
        call_ensures(coordinator::run, (actions, written, counts, retries, sleeps), r),
        written@.len() == actions@.len(),
        counts.room(actions@.len() as int),
    ensures
        0 <= i < actions@.len() && is_active(actions@[i]) && number_of(actions@[i], written@[i]) is Some && (forall|
            j: int,
        |
            i < j < actions@.len() ==> !is_active(#[trigger] actions@[j]) || number_of(actions@[j], written@[j])
                is None) ==> r.active == number_of(actions@[i], written@[i]),
        (forall|j: int|
            0 <= j < actions@.len() ==> !is_active(#[trigger] actions@[j]) || number_of(actions@[j], written@[j])
                is None) ==> r.active is None,
        r.drop_orphans <==> r.summary.counts.failed == 0,
        r.summary.retries_observed == retries && r.summary.retry_after_sleeps == sleeps,
{
    if 0 <= i < actions@.len() && is_active(actions@[i]) && number_of(actions@[i], written@[i]) is Some && (forall|
        j: int,
    |
        i < j < actions@.len() ==> !is_active(#[trigger] actions@[j]) || number_of(actions@[j], written@[j]) is None) {
        crate::laws::script_import::the_active_script_stays_active(actions@, written@, actions@.len(), i);
    }
    if forall|j: int|
        0 <= j < actions@.len() ==> !is_active(#[trigger] actions@[j]) || number_of(actions@[j], written@[j]) is None {
        crate::laws::script_import::no_other_script_becomes_active(actions@, written@, actions@.len());
    }
}

/// An archive of another source is refused, unless a change of source is allowed.
pub proof fn other_sources_are_refused(existing: Option<(&str, &str)>, allow: bool, r: Result<(), Error>)
    requires
        call_ensures(check_source, (existing, allow), r),
    ensures
        r is Err <==> existing is Some && !allow,
        r is Err ==> r->Err_0@ is SourceChange,
{
}

/// A connection is secured from the start where its address says so, else before
/// anything is sent.
pub proof fn connections_are_secured(e: &Endpoint, r: ConnectMode)
    requires
        call_ensures(connect_mode, (e,), r),
    ensures
        r is ImplicitTls <==> e.implicit_tls,
        r is StartTls <==> !e.implicit_tls,
{
}

/// A lost connection is made again where signing in succeeds, and what stood in the way
/// is told by its kind.
pub proof fn lost_connections_are_made_again(step: AuthStep, r: Result<(), ReconnectFailure>)
    requires
        call_ensures(reconnect, (step,), r),
        !(step is Try),
    ensures
        step@ is SignedIn ==> r is Ok,
        step@ is Wire ==> r is Err && r->Err_0 is Wire,
        step@ is TerminallyRefused ==> r is Err && r->Err_0 is Protocol,
        step@ is NoUsableMechanism ==> r is Err && r->Err_0 is Unsupported,
{
}

/// Listing the scripts is repeated where that may help; where it is given up, the
/// import ends.
pub proof fn listing_is_repeated_or_ends_the_import(
    n: Retries,
    max: u32,
    d: Disposition,
    shown: &str,
    r: Result<RetryStep, Error>,
)
    requires
        call_ensures(listscripts_with_retry, (n, max, d, shown), r),
    ensures
        r is Ok ==> !(r->Ok_0 is GiveUp),
        d == Disposition::Transient && n.transient < max ==> r is Ok && r->Ok_0 is Wait,
        d == Disposition::TransportDrop && n.transport < max ==> r is Ok && r->Ok_0 is Reconnect,
        d == Disposition::Permanent || d == Disposition::Referral ==> r is Err && r->Err_0@ is Connection,
{
    crate::laws::script_import::commands_are_repeated_where_that_may_help(n, max, d);
}

/// A script that could not be fetched counts as failed and the import goes on, unless
/// the failure is of the connection as a whole.
pub proof fn a_script_that_is_lost_is_counted(
    name: &str,
    d: Disposition,
    shown: &str,
    counts: &mut TypeCounts,
    r: Result<(), Error>,
)
    requires
        call_ensures(script_not_fetched, (name, d, shown, counts), r),
        old(counts).room(1),
    ensures
        d == Disposition::Permanent || d == Disposition::PerScriptRecoverable || d == Disposition::Transient
            <==> r is Ok,
        r is Ok ==> final(counts).failed == old(counts).failed + 1 && final(counts).fetched == old(counts).fetched,
        r is Err ==> *final(counts) == *old(counts) && r->Err_0@ is Connection,
{
    crate::laws::script_import::one_script_does_not_end_the_import(name@, d, shown@);
}

/// An address that is named as the endpoint is the one that is found, whichever way it
/// is named.
pub proof fn answers_that_name_an_endpoint_end_the_search(
    s: &mut Search,
    p: PoxOutcome,
    r: Step,
    t: &mut Search,
    url: Option<&str>,
    q: Step,
)
    requires
        call_ensures(Search::answered, (s, p), r),
        call_ensures(Search::answered_v2, (t, url), q),
        old(s)@.wf(),
        old(t)@.wf(),
    ensures
        p matches PoxOutcome::EwsUrl(u) ==> r is Found && r->Found_0.ews_url@ == u@ && r->Found_0.source
            == DiscoverySource::V1,
        r is Failed ==> !(p is EwsUrl),
        url is Some ==> q is Found && q->Found_0.ews_url@ == url->0@ && q->Found_0.source == DiscoverySource::V2,
        url is None ==> q is LookUp || q is Found || q is Failed,
{
    crate::laws::discovery::searches_fail_only_without_an_endpoint(old(s)@, p@);
    if let PoxOutcome::EwsUrl(u) = p {
        crate::laws::discovery::named_endpoints_are_found(old(s)@, u@);
    }
    if url is Some {
        crate::laws::discovery::named_endpoints_are_found(old(t)@, url->0@);
    }
}

/// A search begins with the mailbox and nothing tried; an address that is already an
/// endpoint ends it at once.
pub proof fn searches_begin_with_the_mailbox(supplied: Option<&str>, email: Option<&str>, r: (Search, Step))
    requires
        call_ensures(discover, (supplied, email), r),
    ensures
        r.0@.supplied == text::opt_str(supplied),
        email is Some ==> r.0@.email == email->0@,
        r.0@.candidates.len() == 0 && r.0@.next == 0 && r.0@.redirects == 0 && r.0@.url_redirects == 0,
        supplied is None && email is None ==> r.1 is Failed,
        supplied is None && email is Some ==> r.1 is AskV2,
{
}

/// An event that is converted keeps its uid, its title and the name of every place that
/// has one.
pub proof fn converted_events_keep_their_places(
    g: &Json,
    fallback: Option<&str>,
    rule: Result<JsonObject, GraphError>,
    r: Result<ConvertedEvent, GraphError>,
    t: Seq<char>,
    locs: Seq<JsonView>,
    i: nat,
    shown: Seq<char>,
)
    requires
        call_ensures(convert_event, (g, fallback, rule), r),
        r is Ok,
        g@.array_at("locations"@) == Some(locs),
        1 <= i <= locs.len(),
    ensures
        ({
            let e = r->Ok_0@;
            let m = e.data->Object_0;
            let key = "loc-"@ + text::padded_text(i, text::decimal_text(locs.len()).len());
            let places = says(m, "locations"@)->0->Object_0;
            &&& g@.text_at("iCalUId"@) == Some(t) ==> e.uid == t
            &&& told(g@, "subject"@, t) ==> says(m, "title"@) == Some(JsonView::Str(t))
            &&& told(locs[i - 1], "displayName"@, shown) ==> says(m, "locations"@) is Some && says(places, key) is Some
                && says(says(places, key)->0->Object_0, "name"@) is Some && text::begins(
                says(says(places, key)->0->Object_0, "name"@)->0->Str_0,
                shown,
            )
            &&& told(locs[i - 1], "displayName"@, shown) && locs[i - 1].field("address"@) is None ==> says(
                says(places, key)->0->Object_0,
                "name"@,
            ) == Some(JsonView::Str(shown))
        }),
{
    let rv = crate::exchange_graph::calendar_map::rule_view(rule);
    let fb = text::opt_str(fallback);
    events_keep_what_they_are_about(g@, fb, rv, JsonView::Null, t);
    events_keep_their_places(g@, fb, rv, locs, i);
    places_keep_their_names(locs[i - 1], shown, JsonView::Null);
    if locs[i - 1].field("address"@) is Some {
        places_keep_their_names(locs[i - 1], shown, locs[i - 1].field("address"@)->0);
    }
}

/// A folder that is stored counts as fetched where the archive had it, and else as
/// created; it is found under its number from then on.
pub proof fn stored_folders_are_counted(
    row: MailRow,
    local_id: i64,
    stored: &mut Vec<MailFolder>,
    counts: &mut TypeCounts,
    existing: Option<i64>,
    other: &mut TypeCounts,
)
    requires
        call_ensures(settle_mail, (row, local_id, stored, counts), ()),
        call_ensures(count_stored, (existing, other), ()),
        old(counts).room(1),
        old(other).room(1),
    ensures
        row.existing is Some ==> final(counts).fetched == old(counts).fetched + 1 && final(counts).created == old(
            counts).created,
        row.existing is None ==> final(counts).created == old(counts).created + 1 && final(counts).fetched == old(
            counts).fetched,
        final(counts).failed == old(counts).failed,
        final(stored)@.len() == old(stored)@.len() + 1,
        final(stored)@.last().graph_id == row.graph_id && final(stored)@.last().local_id == local_id && final(
            stored)@.last().display_name == row.display_name && final(stored)@.last().parent_graph_id
            == row.parent_graph_id && final(stored)@.last().is_hidden == row.is_hidden,
        existing is Some ==> final(other).fetched == old(other).fetched + 1 && final(other).created == old(
            other).created,
        existing is None ==> final(other).created == old(other).created + 1 && final(other).fetched == old(
            other).fetched,
{
}

/// A folder that is gone counts as deleted, and one that could not be deleted as failed.
pub proof fn deleted_folders_are_counted(deleted: bool, counts: &mut TypeCounts)
    requires
        call_ensures(delete_vanished_flat, (deleted, counts), ()),
        old(counts).room(1),
    ensures
        deleted ==> final(counts).deleted == old(counts).deleted + 1 && final(counts).failed == old(counts).failed,
        !deleted ==> final(counts).failed == old(counts).failed + 1 && final(counts).deleted == old(counts).deleted,
{
}

/// The books whose children are still to be listed are taken one by one, the last that
/// was met first; the search ends with all that were found, and the default book.
pub proof fn books_are_searched_one_by_one(s: &mut BookSearch, r: Option<String>, done: BookSearch, all: Vec<Json>)
    requires
        call_ensures(BookSearch::next, (s,), r),
        call_ensures(BookSearch::finish, (done,), all),
    ensures
        old(s).frontier@.len() == 0 ==> r is None,
        old(s).frontier@.len() > 0 ==> r == Some(old(s).frontier@.last()) && final(s).frontier@.len() == old(
            s).frontier@.len() - 1,
        final(s).found@ == old(s).found@,
        all@.len() == done.found@.len() + 1,
{
    let v = crate::json::views(all@);
    assert(v.len() == all@.len());
    assert(crate::json::views(done.found@).len() == done.found@.len());
}

/// A page says where the next one is; the last one does not.
pub proof fn pages_lead_to_the_next(page: &Json, m: Map<Seq<char>, JsonView>, r: Option<String>, t: Seq<char>)
    requires
        call_ensures(paged_collect, (page,), r),
        page@ == JsonView::Object(m),
    ensures
        m.dom().contains("@odata.nextLink"@) && m["@odata.nextLink"@] == JsonView::Str(t) ==> r is Some && r->0@ == t,
        !m.dom().contains("@odata.nextLink"@) ==> r is None,
{
}

/// The state of a message is read from its listing.
pub proof fn listed_states_are_read(item: &Json, m: Map<Seq<char>, JsonView>, r: MessageMeta)
    requires
        call_ensures(message_meta, (item,), r),
        item@ == JsonView::Object(m),
    ensures
        r.is_read <==> m.dom().contains("isRead"@) && m["isRead"@] == JsonView::Bool(true),
        !m.dom().contains("flag"@) ==> !r.flagged,
{
    crate::laws::transfers::message_states_are_read(m, Map::empty(), Seq::empty());
}

/// The data of the user who signed in are under one address, those of another user
/// under theirs; a slash at the end of the base makes no difference.
pub proof fn users_have_addresses(base: &str, id: &str, me: Endpoints, other: Endpoints)
    requires
        call_ensures(Endpoints::for_me, (base,), me),
        call_ensures(Endpoints::for_user, (base, id), other),
    ensures
        me.root() == text::trimmed_end(base@, '/') + "/me"@,
        other.root() == text::trimmed_end(base@, '/') + ("/users/"@ + id@),
{
}

/// Folders and messages are asked for under the user, hidden folders too, by their ids
/// and in pages of the size that is wanted.
pub proof fn mail_is_asked_for_by_folder(
    e: &Endpoints,
    id: &str,
    top: usize,
    escaped: String,
    primary: String,
    archive: String,
    children: String,
    messages: String,
    mime: String,
    known: String,
)
    requires
        call_ensures(url_escape, (id,), escaped),
        call_ensures(Endpoints::mail_folders_root, (e, MailboxKind::Primary, top), primary),
        call_ensures(Endpoints::mail_folders_root, (e, MailboxKind::Archive, top), archive),
        call_ensures(Endpoints::mail_folder_child_folders, (e, id, top), children),
        call_ensures(Endpoints::folder_messages_meta, (e, id, top), messages),
        call_ensures(Endpoints::message_mime, (e, id), mime),
        call_ensures(Endpoints::well_known_folder, (e, id), known),
    ensures
        ({
            let n = text::decimal_text(top as nat);
            &&& primary@ == e.root() + ("/mailFolders?"@ + "$top="@ + (n + "&includeHiddenFolders=true"@))
            &&& archive@ == e.root() + ("/mailFolders/archive/childFolders?"@ + "$top="@ + (n
                + "&includeHiddenFolders=true"@))
            &&& children@ == e.root() + ("/mailFolders/"@ + escaped@ + "/childFolders?"@ + "$top="@ + (n
                + "&includeHiddenFolders=true"@))
            &&& messages@ == e.root() + ("/mailFolders/"@ + escaped@ + "/messages?"@ + "$top="@ + (n
                + "&$select=id,isRead,flag"@))
            &&& mime@ == e.root() + ("/messages/"@ + escaped@ + "/$value"@)
            &&& known@ == e.root() + ("/mailFolders/"@ + id@ + "?$select=id"@)
        }),
{
}

/// Calendars, events, address books and contacts are asked for under the user, by their
/// ids and in pages of the size that is wanted.
pub proof fn calendars_and_contacts_are_asked_for(
    e: &Endpoints,
    id: &str,
    top: usize,
    escaped: String,
    calendars: String,
    events: String,
    event: String,
    books: String,
    inner: String,
    contacts: String,
    default: String,
    contact: String,
)
    requires
        call_ensures(url_escape, (id,), escaped),
        call_ensures(Endpoints::calendars, (e, top), calendars),
        call_ensures(Endpoints::calendar_events_ids, (e, id, top), events),
        call_ensures(Endpoints::event, (e, id), event),
        call_ensures(Endpoints::contact_folders, (e, top), books),
        call_ensures(Endpoints::contact_folder_children, (e, id, top), inner),
        call_ensures(Endpoints::contact_folder_contacts_ids, (e, id, top), contacts),
        call_ensures(Endpoints::default_contacts_ids, (e, top), default),
        call_ensures(Endpoints::contact, (e, id), contact),
    ensures
        ({
            let n = text::decimal_text(top as nat);
            &&& calendars@ == e.root() + ("/calendars?"@ + "$top="@ + (n + ""@))
            &&& events@ == e.root() + ("/calendars/"@ + escaped@ + "/events?"@ + "$top="@ + (n
                + "&$select=id,type,seriesMasterId"@))
            &&& event@ == e.root() + ("/events/"@ + escaped@ + ("?$select="@ + EVENT_SELECT@))
            &&& books@ == e.root() + ("/contactFolders?"@ + "$top="@ + (n + ""@))
            &&& inner@ == e.root() + ("/contactFolders/"@ + escaped@ + "/childFolders?"@ + "$top="@ + (n + ""@))
            &&& contacts@ == e.root() + ("/contactFolders/"@ + escaped@ + "/contacts?"@ + "$top="@ + (n
                + "&$select=id"@))
            &&& default@ == e.root() + ("/contacts?"@ + "$top="@ + (n + "&$select=id"@))
            &&& contact@ == e.root() + ("/contacts/"@ + escaped@ + ""@)
        }),
{
}

} // verus!
