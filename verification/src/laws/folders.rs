//! Importing the folders, calendars and address books of a mailbox.

use vstd::prelude::*;
use vstd::string::*;

use crate::exchange::tz;
use crate::json::JsonView;
use crate::sync::import_exchange_graph::folders::{
    book_row, calendar_color, calendar_row, default_book, entry_of, last_with_id, mail_row, mailbox_zone, met,
    number_for, role_for, vanished_of, well_known,
};
use crate::text;

verus! {

proof fn lemma_last_with_id(entries: Seq<JsonView>, id: Seq<char>, i: int, n: nat)
    requires
        0 <= i < n <= entries.len(),
        entries[i].text_at("id"@) == Some(id),
        forall|k: int| i < k < n ==> (#[trigger] entries[k]).text_at("id"@) != Some(id),
    ensures
        last_with_id(entries, id, n) == Some(i),
    decreases n,
{
    if i < n - 1 {
        assert(entries[n - 1].text_at("id"@) != Some(id));
        lemma_last_with_id(entries, id, i, (n - 1) as nat);
    }
}

proof fn lemma_none_with_id(entries: Seq<JsonView>, id: Seq<char>, n: nat)
    requires
        n <= entries.len(),
        forall|k: int| 0 <= k < n ==> (#[trigger] entries[k]).text_at("id"@) != Some(id),
    ensures
        last_with_id(entries, id, n) is None,
    decreases n,
{
    if n > 0 {
        assert(entries[n - 1].text_at("id"@) != Some(id));
        lemma_none_with_id(entries, id, (n - 1) as nat);
    }
}

/// An id stands for the folder that has it, the last where several do, and for none
/// where no folder has it.
pub proof fn ids_stand_for_folders(entries: Seq<JsonView>, id: Seq<char>, i: int)
    ensures
        0 <= i < entries.len() && entries[i].text_at("id"@) == Some(id) && (forall|k: int|
            i < k < entries.len() ==> (#[trigger] entries[k]).text_at("id"@) != Some(id)) ==> entry_of(entries, id)
            == Some(i),
        (forall|k: int| 0 <= k < entries.len() ==> (#[trigger] entries[k]).text_at("id"@) != Some(id))
            ==> entry_of(entries, id) is None,
{
    if 0 <= i < entries.len() && entries[i].text_at("id"@) == Some(id) && (forall|k: int|
        i < k < entries.len() ==> (#[trigger] entries[k]).text_at("id"@) != Some(id)) {
        lemma_last_with_id(entries, id, i, entries.len());
    }
    if forall|k: int| 0 <= k < entries.len() ==> (#[trigger] entries[k]).text_at("id"@) != Some(id) {
        lemma_none_with_id(entries, id, entries.len());
    }
}

/// A folder is known by the number that goes with its id, the last where several do,
/// and by none where its id has none.
pub proof fn ids_have_numbers(pairs: Seq<(Seq<char>, i64)>, id: Seq<char>, n: nat, i: int)
    requires
        n <= pairs.len(),
    ensures
        0 <= i < n && pairs[i].0 == id && (forall|k: int| i < k < n ==> (#[trigger] pairs[k]).0 != id)
            ==> number_for(pairs, id, n) == Some(pairs[i].1),
        (forall|k: int| 0 <= k < n ==> (#[trigger] pairs[k]).0 != id) ==> number_for(pairs, id, n) is None,
    decreases n,
{
    if n > 0 {
        ids_have_numbers(pairs, id, (n - 1) as nat, i);
    }
}

proof fn lemma_role(answers: Seq<Option<JsonView>>, id: Seq<char>, k: int, n: nat)
    requires
        n <= answers.len(),
        forall|a: int|
            0 <= a < answers.len() && a != k ==> !((#[trigger] answers[a]) is Some && answers[a]->0.text_at("id"@)
                == Some(id)),
    ensures
        0 <= k < n && answers[k] is Some && answers[k]->0.text_at("id"@) == Some(id) ==> role_for(answers, id, n)
            == Some(well_known()[k].1),
        !(0 <= k < n && answers[k] is Some && answers[k]->0.text_at("id"@) == Some(id)) ==> role_for(answers, id, n)
            is None,
    decreases n,
{
    if n > 0 {
        lemma_role(answers, id, k, (n - 1) as nat);
    }
}

/// The folder that a mailbox has for a purpose keeps that purpose as its role: the
/// folder for incoming messages, for drafts, sent and deleted messages, junk and the
/// archive. A folder with no such purpose has no role.
pub proof fn folders_keep_their_roles(answers: Seq<Option<JsonView>>, id: Seq<char>, k: int)
    requires
        answers.len() == 6,
        forall|a: int|
            0 <= a < answers.len() && a != k ==> !((#[trigger] answers[a]) is Some && answers[a]->0.text_at("id"@)
                == Some(id)),
    ensures
        ({
            let named = 0 <= k < 6 && answers[k] is Some && answers[k]->0.text_at("id"@) == Some(id);
            let role = role_for(answers, id, answers.len());
            &&& !named ==> role is None
            &&& named && well_known()[k].0 == "inbox"@ ==> role == Some("inbox"@)
            &&& named && well_known()[k].0 == "drafts"@ ==> role == Some("drafts"@)
            &&& named && well_known()[k].0 == "sentitems"@ ==> role == Some("sent"@)
            &&& named && well_known()[k].0 == "deleteditems"@ ==> role == Some("trash"@)
            &&& named && well_known()[k].0 == "junkemail"@ ==> role == Some("junk"@)
            &&& named && well_known()[k].0 == "archive"@ ==> role == Some("archive"@)
        }),
{
    lemma_role(answers, id, k, answers.len());
    reveal_strlit("inbox");
    reveal_strlit("drafts");
    reveal_strlit("sentitems");
    reveal_strlit("deleteditems");
    reveal_strlit("junkemail");
    reveal_strlit("archive");
    assert("inbox"@.len() == 5);
    assert("drafts"@.len() == 6);
    assert("sentitems"@.len() == 9);
    assert("deleteditems"@.len() == 12);
    assert("junkemail"@.len() == 9);
    assert("sentitems"@[0] != "junkemail"@[0]);
    assert("archive"@.len() == 7);
}

/// All folders that mailboxes have for a purpose are asked for, each once.
pub proof fn every_purpose_is_asked_for()
    ensures
        well_known().len() == 6,
        exists|k: int| 0 <= k < 6 && (#[trigger] well_known()[k]).0 == "inbox"@,
        exists|k: int| 0 <= k < 6 && (#[trigger] well_known()[k]).0 == "drafts"@,
        exists|k: int| 0 <= k < 6 && (#[trigger] well_known()[k]).0 == "sentitems"@,
        exists|k: int| 0 <= k < 6 && (#[trigger] well_known()[k]).0 == "deleteditems"@,
        exists|k: int| 0 <= k < 6 && (#[trigger] well_known()[k]).0 == "junkemail"@,
        exists|k: int| 0 <= k < 6 && (#[trigger] well_known()[k]).0 == "archive"@,
{
    assert(well_known()[0].0 == "inbox"@);
    assert(well_known()[1].0 == "drafts"@);
    assert(well_known()[2].0 == "sentitems"@);
    assert(well_known()[3].0 == "deleteditems"@);
    assert(well_known()[4].0 == "junkemail"@);
    assert(well_known()[5].0 == "archive"@);
}

/// A mail folder is stored under its id with its name, its parent and whether it is
/// hidden. A folder that the archive has is found again by its id, and its parent by
/// the parent's.
pub proof fn mail_folders_are_stored_as_listed(
    v: Map<Seq<char>, JsonView>,
    answers: Seq<Option<JsonView>>,
    stored: Seq<(Seq<char>, i64)>,
    local: Seq<(Seq<char>, i64)>,
    id: Seq<char>,
    i: int,
    j: int,
)
    requires
        v.dom().contains("id"@),
        v["id"@] == JsonView::Str(id),
    ensures
        ({
            let row = mail_row(JsonView::Object(v), answers, stored, local);
            &&& row is Some
            &&& row->0.graph_id == id
            &&& v.dom().contains("displayName"@) && v["displayName"@] is Str ==> row->0.display_name
                == v["displayName"@]->Str_0
            &&& !v.dom().contains("displayName"@) ==> row->0.display_name == "Unnamed"@
            &&& row->0.is_hidden <==> v.dom().contains("isHidden"@) && v["isHidden"@] == JsonView::Bool(true)
            &&& v.dom().contains("parentFolderId"@) && v["parentFolderId"@] is Str ==> row->0.parent_graph_id
                == Some(v["parentFolderId"@]->Str_0) && (0 <= i < stored.len() && stored[i].0
                == v["parentFolderId"@]->Str_0 && (forall|k: int|
                i < k < stored.len() ==> (#[trigger] stored[k]).0 != v["parentFolderId"@]->Str_0)
                ==> row->0.parent_local_id == Some(stored[i].1))
            &&& !v.dom().contains("parentFolderId"@) ==> row->0.parent_graph_id is None
                && row->0.parent_local_id is None
            &&& 0 <= j < local.len() && local[j].0 == id && (forall|k: int|
                j < k < local.len() ==> (#[trigger] local[k]).0 != id) ==> row->0.existing == Some(local[j].1)
            &&& (forall|k: int| 0 <= k < local.len() ==> (#[trigger] local[k]).0 != id) ==> row->0.existing is None
            &&& row->0.role == role_for(answers, id, answers.len())
        }),
{
    ids_have_numbers(local, id, local.len(), j);
    if v.dom().contains("parentFolderId"@) && v["parentFolderId"@] is Str {
        ids_have_numbers(stored, v["parentFolderId"@]->Str_0, stored.len(), i);
    }
}

/// What the server lists without an id is not stored.
pub proof fn folders_without_an_id_are_left_out(
    v: JsonView,
    answers: Seq<Option<JsonView>>,
    stored: Seq<(Seq<char>, i64)>,
    local: Seq<(Seq<char>, i64)>,
)
    requires
        v.text_at("id"@) is None,
    ensures
        mail_row(v, answers, stored, local) is None,
        calendar_row(v, local) is None,
        book_row(v, local) is None,
{
}

/// A calendar is stored under its id with its name, its colour and whether it is the
/// default; one that the archive has is found again.
pub proof fn calendars_are_stored_as_listed(
    v: Map<Seq<char>, JsonView>,
    local: Seq<(Seq<char>, i64)>,
    id: Seq<char>,
    j: int,
)
    requires
        v.dom().contains("id"@),
        v["id"@] == JsonView::Str(id),
    ensures
        ({
            let row = calendar_row(JsonView::Object(v), local);
            &&& row is Some
            &&& row->0.graph_id == id
            &&& v.dom().contains("name"@) && v["name"@] is Str ==> row->0.name == v["name"@]->Str_0
            &&& !v.dom().contains("name"@) ==> row->0.name == "Calendar"@
            &&& row->0.is_default <==> v.dom().contains("isDefaultCalendar"@) && v["isDefaultCalendar"@]
                == JsonView::Bool(true)
            &&& row->0.color == calendar_color(JsonView::Object(v))
            &&& 0 <= j < local.len() && local[j].0 == id && (forall|k: int|
                j < k < local.len() ==> (#[trigger] local[k]).0 != id) ==> row->0.existing == Some(local[j].1)
            &&& (forall|k: int| 0 <= k < local.len() ==> (#[trigger] local[k]).0 != id) ==> row->0.existing is None
        }),
{
    ids_have_numbers(local, id, local.len(), j);
}

/// A calendar has the colour that it was given; one without has that of its theme.
pub proof fn calendars_keep_their_colour(v: Map<Seq<char>, JsonView>, c: Seq<char>, name: Seq<char>)
    ensures
        v.dom().contains("hexColor"@) && v["hexColor"@] == JsonView::Str(c) && c.len() > 0 ==> calendar_color(
            JsonView::Object(v),
        ) == Some(c),
        (!v.dom().contains("hexColor"@) || v["hexColor"@] == JsonView::Str(Seq::empty())) && v.dom().contains(
            "color"@,
        ) && v["color"@] == JsonView::Str(name) ==> calendar_color(JsonView::Object(v))
            == crate::exchange_graph::calendar_map::color_hex(name),
        !v.dom().contains("hexColor"@) && !v.dom().contains("color"@) ==> calendar_color(JsonView::Object(v))
            is None,
{
}

/// An address book is stored under its id with its name; only the book that stands for
/// the default is the default. One that the archive has is found again.
pub proof fn books_are_stored_as_listed(
    v: Map<Seq<char>, JsonView>,
    local: Seq<(Seq<char>, i64)>,
    id: Seq<char>,
    j: int,
)
    requires
        v.dom().contains("id"@),
        v["id"@] == JsonView::Str(id),
    ensures
        ({
            let row = book_row(JsonView::Object(v), local);
            &&& row is Some
            &&& row->0.graph_id == id
            &&& v.dom().contains("displayName"@) && v["displayName"@] is Str ==> row->0.name
                == v["displayName"@]->Str_0
            &&& !v.dom().contains("displayName"@) ==> row->0.name == "Contacts"@
            &&& row->0.is_default <==> Some(id) == default_book().text_at("id"@)
            &&& 0 <= j < local.len() && local[j].0 == id && (forall|k: int|
                j < k < local.len() ==> (#[trigger] local[k]).0 != id) ==> row->0.existing == Some(local[j].1)
            &&& (forall|k: int| 0 <= k < local.len() ==> (#[trigger] local[k]).0 != id) ==> row->0.existing is None
        }),
{
    ids_have_numbers(local, id, local.len(), j);
    lemma_book_names();
}

proof fn lemma_book_names()
    ensures
        "id"@ != "displayName"@,
{
    reveal_strlit("id");
    reveal_strlit("displayName");
    assert("id"@.len() != "displayName"@.len());
}

/// The default address book, which no listing has, is stored with the others as the
/// default.
pub proof fn the_default_book_is_stored(local: Seq<(Seq<char>, i64)>)
    ensures
        ({
            let row = book_row(default_book(), local);
            row is Some && row->0.is_default && row->0.name == "Contacts"@
        }),
{
    lemma_book_names();
}

/// Every address book of a listing has its children listed, unless that was done or is
/// to be done already.
pub proof fn every_book_has_its_children_listed(
    seen: Set<Seq<char>>,
    frontier: Seq<Seq<char>>,
    entries: Seq<JsonView>,
    n: nat,
    i: int,
    id: Seq<char>,
)
    requires
        0 <= i < n <= entries.len(),
        entries[i].text_at("id"@) == Some(id),
    ensures
        met(seen, frontier, entries, n).0.contains(id),
        !seen.contains(id) ==> met(seen, frontier, entries, n).1.contains(id),
        forall|k: int|
            0 <= k < frontier.len() ==> met(seen, frontier, entries, n).1.len() > k && #[trigger] met(
                seen,
                frontier,
                entries,
                n,
            ).1[k] == frontier[k],
    decreases n,
{
    lemma_frontier_stays(seen, frontier, entries, n);
    lemma_frontier_stays(seen, frontier, entries, (n - 1) as nat);
    let (s, f) = met(seen, frontier, entries, n);
    let (s1, f1) = met(seen, frontier, entries, (n - 1) as nat);
    if i < n - 1 {
        every_book_has_its_children_listed(seen, frontier, entries, (n - 1) as nat, i, id);
        if !seen.contains(id) {
            let k = choose|k: int| 0 <= k < f1.len() && f1[k] == id;
            assert(f[k] == id);
        }
    } else if s1.contains(id) && !seen.contains(id) {
        lemma_met_are_listed(seen, frontier, entries, (n - 1) as nat, id);
    } else if !s1.contains(id) {
        assert(f[f.len() - 1] == id);
    }
}

proof fn lemma_frontier_stays(
    seen: Set<Seq<char>>,
    frontier: Seq<Seq<char>>,
    entries: Seq<JsonView>,
    n: nat,
)
    requires
        n <= entries.len(),
    ensures
        met(seen, frontier, entries, n).1.len() >= frontier.len(),
        forall|k: int|
            0 <= k < frontier.len() ==> #[trigger] met(seen, frontier, entries, n).1[k] == frontier[k],
    decreases n,
{
    if n > 0 {
        lemma_frontier_stays(seen, frontier, entries, (n - 1) as nat);
    }
}

proof fn lemma_met_are_listed(
    seen: Set<Seq<char>>,
    frontier: Seq<Seq<char>>,
    entries: Seq<JsonView>,
    n: nat,
    id: Seq<char>,
)
    requires
        n <= entries.len(),
        met(seen, frontier, entries, n).0.contains(id),
        !seen.contains(id),
    ensures
        met(seen, frontier, entries, n).1.contains(id),
    decreases n,
{
    if n > 0 {
        let (s, f) = met(seen, frontier, entries, n);
        let (s1, f1) = met(seen, frontier, entries, (n - 1) as nat);
        if s1.contains(id) {
            lemma_met_are_listed(seen, frontier, entries, (n - 1) as nat, id);
            let k = choose|k: int| 0 <= k < f1.len() && f1[k] == id;
            assert(f[k] == id);
        } else {
            assert(f[f.len() - 1] == id);
        }
    }
}

/// The zone of a mailbox is the one it names. A mailbox that names none has none; one
/// whose zone is not known is refused.
pub proof fn mailboxes_keep_their_zone(v: Map<Seq<char>, JsonView>, z: Seq<char>)
    ensures
        ({
            let r = mailbox_zone(JsonView::Object(v));
            let named = v.dom().contains("timeZone"@) && v["timeZone"@] == JsonView::Str(z);
            &&& !v.dom().contains("timeZone"@) ==> r is Ok && r->Ok_0 is None
            &&& named && text::trim_text(z).len() == 0 ==> r is Ok && r->Ok_0 is None
            &&& named && text::trim_text(z).len() > 0 && tz::iana_name(z) is Some ==> r is Ok && r->Ok_0
                == tz::iana_name(z)
            &&& named && text::trim_text(z).len() > 0 && tz::iana_name(z) is None ==> r is Err && r->Err_0
                == crate::error::ErrorView::Partial(
                "malformed: mailboxSettings returned unsupported timeZone "@ + text::debug_text(z),
            )
        }),
{
}

/// A folder of the archive goes exactly where the server does not list its id.
pub proof fn folders_go_when_they_are_not_listed(
    local: Seq<(Seq<char>, i64)>,
    server: Seq<Seq<char>>,
    n: nat,
    i: int,
)
    requires
        0 <= i < n <= local.len(),
    ensures
        vanished_of(local, server, n).contains(local[i]) <==> !server.contains(local[i].0),
    decreases n,
{
    let all = vanished_of(local, server, n);
    let rest = vanished_of(local, server, (n - 1) as nat);
    crate::sync::import_exchange_graph::folders::listed_folders_stay(local, server, n);
    if all.contains(local[i]) {
        let k = choose|k: int| 0 <= k < all.len() && all[k] == local[i];
        assert(!server.contains(all[k].0));
    }
    if !server.contains(local[i].0) {
        if i == n - 1 {
            assert(all[all.len() - 1] == local[i]);
        } else {
            folders_go_when_they_are_not_listed(local, server, (n - 1) as nat, i);
            let k = choose|k: int| 0 <= k < rest.len() && rest[k] == local[i];
            assert(all[k] == local[i]);
        }
    }
}

} // verus!
