//! Exporting scripts.

use vstd::prelude::*;
use vstd::string::*;

use crate::json::JsonView;
use crate::sync::export::common;
use crate::sync::export::common::{entries, SetOutcome, Tally};
use crate::sync::export::quarantine::BlobReads;
use crate::sync::export::sieve::{
    activation_args, activation_view, leftovers, names_of, script_view, sent_view, ActivationView, PassView,
    SieveRow,
};
use crate::text;

verus! {

/// A script of the target is known by its name; of two with one name, the later is.
pub proof fn scripts_are_known_by_name(
    targets: Seq<JsonView>,
    n: nat,
    i: int,
    id: Seq<char>,
    name: Seq<char>,
)
    requires
        0 <= i < n <= targets.len(),
        targets[i].text_at("id"@) == Some(id),
        targets[i].text_at("name"@) == Some(name),
        forall|k: int|
            i < k < n ==> (#[trigger] targets[k]).text_at("name"@) != Some(name) || targets[k].text_at("id"@)
                is None,
    ensures
        names_of(targets, n).dom().contains(name),
        names_of(targets, n)[name] == JsonView::Str(id),
    decreases n,
{
    if i < n - 1 {
        scripts_are_known_by_name(targets, (n - 1) as nat, i, id, name);
        assert(targets[n - 1].text_at("name"@) != Some(name) || targets[n - 1].text_at("id"@) is None);
    }
}

/// Only scripts of the target are known, under their own ids.
pub proof fn known_scripts_are_on_the_target(targets: Seq<JsonView>, n: nat, name: Seq<char>)
    requires
        n <= targets.len(),
        names_of(targets, n).dom().contains(name),
    ensures
        exists|i: int|
            0 <= i < n && (#[trigger] targets[i]).text_at("name"@) == Some(name) && targets[i].text_at("id"@)
                is Some && names_of(targets, n)[name] == JsonView::Str(targets[i].text_at("id"@)->0),
    decreases n,
{
    if n > 0 {
        let t = targets[n - 1];
        if t.text_at("name"@) == Some(name) && t.text_at("id"@) is Some {
            assert(names_of(targets, n)[name] == JsonView::Str(t.text_at("id"@)->0));
        } else {
            known_scripts_are_on_the_target(targets, (n - 1) as nat, name);
            let i = choose|i: int|
                0 <= i < n - 1 && (#[trigger] targets[i]).text_at("name"@) == Some(name) && targets[i].text_at(
                    "id"@,
                ) is Some && names_of(targets, (n - 1) as nat)[name] == JsonView::Str(
                    targets[i].text_at("id"@)->0,
                );
            assert(targets[i].text_at("name"@) == Some(name));
        }
    }
}

/// A script of the archive is found on the target by its name, and one without a name
/// is not found.
pub proof fn scripts_are_found_by_name(p: PassView, name: Seq<char>, id: Seq<char>)
    ensures
        p.by_name.dom().contains(name) && p.by_name[name] == JsonView::Str(id) ==> p.id_of(Some(name)) == Some(id),
        !p.by_name.dom().contains(name) ==> p.id_of(Some(name)) is None,
        p.id_of(None) is None,
{
}

/// A script that was created is found by its name from then on; the others are found as
/// before. It is the one to be active exactly where it is active in the archive.
pub proof fn created_scripts_are_known(p: PassView, row: SieveRow, id: Seq<char>, other: Seq<char>)
    ensures
        ({
            let q = p.with_created(row, id);
            &&& row.name is Some ==> q.id_of(Some(row.name->0@)) == Some(id)
            &&& row.name is None || other != row.name->0@ ==> q.id_of(Some(other)) == p.id_of(Some(other))
            &&& row.is_active ==> q.active == Some(id)
            &&& !row.is_active ==> q.active == p.active
            &&& row.is_active ==> p.with_active(row, id).active == Some(id)
            &&& !row.is_active ==> p.with_active(row, id) == p
            &&& p.with_active(row, id).by_name == p.by_name
        }),
{
}

/// A script that the target creates counts as created, under the id that the target
/// gave it, and is known from then on. One that it does not create is recorded under
/// the script's number, with the type and the text of the target's error.
pub proof fn scripts_end_as_the_target_says(
    p: PassView,
    row: SieveRow,
    o: SetOutcome,
    reads: Option<BlobReads>,
    retry: Option<Seq<char>>,
    stamp: Seq<char>,
)
    ensures
        ({
            let (q, end) = sent_view(p, row, o, reads, retry, stamp);
            let cid = "c"@ + text::integer_text(row.local as int);
            &&& o.created@.len() > 0 && o.created@[0].1@.text_at("id"@) is Some ==> {
                let id = o.created@[0].1@.text_at("id"@)->0;
                &&& end is Settled
                &&& end->Settled_0.local == row.local
                &&& end->Settled_0.tally == Tally::Created
                &&& end->Settled_0.entry is Resolve
                &&& end->Settled_0.target == Some(id)
                &&& row.name is Some ==> q.id_of(Some(row.name->0@)) == Some(id)
                &&& row.is_active ==> q.active == Some(id)
                &&& !row.is_active ==> q.active == p.active
            }
            &&& o.created@.len() == 0 ==> {
                &&& q == p
                &&& end is Refused
                &&& end->Refused_0.local_id == row.local
                &&& end->Refused_0.type_token == "sievescript"@
                &&& end->Refused_0.client_id == cid
                &&& end->Refused_0.failed_at == stamp
                &&& end->Refused_0.target_blob_id == retry
                &&& o.not_created@.len() == 1 && o.not_created@[0].0@ == cid && o.not_created@[0].1@.text_at(
                    "type"@,
                ) is Some && o.not_created@[0].1@.text_at("type"@)->0.len() > 0 ==> {
                    &&& end->Refused_0.error_type == o.not_created@[0].1@.text_at("type"@)->0
                    &&& reads is None ==> end->Refused_0.error_detail == crate::json::json_compact(
                        o.not_created@[0].1@,
                    )
                    &&& end->Refused_1 is Some <==> retry is Some && end->Refused_0.error_type == "blobNotFound"@
                }
            }
        }),
{
    let cid = "c"@ + text::integer_text(row.local as int);
    if o.not_created@.len() == 1 {
        assert(entries(o.not_created@)[0] == (o.not_created@[0].0@, o.not_created@[0].1@));
        reveal_with_fuel(common::lookup, 2);
    }
}

/// The script that stands for the active one of the archive is set active. Where the
/// archive has no active script, none is left active; where the active one did not
/// reach the target, the target is left as it is.
pub proof fn the_active_script_is_set(active: Option<Seq<char>>, rows: Seq<SieveRow>, i: int)
    ensures
        active is Some ==> activation_view(active, rows) == ActivationView::Activate(active->0),
        active is None && (forall|k: int| 0 <= k < rows.len() ==> !(#[trigger] rows[k]).is_active)
            ==> activation_view(active, rows) == ActivationView::Deactivate,
        active is None && 0 <= i < rows.len() && rows[i].is_active ==> activation_view(active, rows)
            == ActivationView::Leave,
{
}

/// The call that sets the active script names the account and the script, and asks for
/// nothing else.
pub proof fn activation_calls_name_the_script(account: Seq<char>, id: Seq<char>, p: Seq<char>)
    ensures
        ({
            let on = activation_args(account, ActivationView::Activate(id));
            let off = activation_args(account, ActivationView::Deactivate);
            let leave = activation_args(account, ActivationView::Leave);
            &&& on.dom().contains("accountId"@) && on["accountId"@] == JsonView::Str(account)
            &&& on.dom().contains("onSuccessActivateScript"@) && on["onSuccessActivateScript"@] == JsonView::Str(id)
            &&& off.dom().contains("accountId"@) && off["accountId"@] == JsonView::Str(account)
            &&& off.dom().contains("onSuccessDeactivateScript"@) && off["onSuccessDeactivateScript"@]
                == JsonView::Bool(true)
            &&& !off.dom().contains("onSuccessActivateScript"@)
            &&& !on.dom().contains("onSuccessDeactivateScript"@)
            &&& leave.dom().contains(p) ==> p == "accountId"@
        }),
{
    reveal_strlit("accountId");
    reveal_strlit("onSuccessActivateScript");
    reveal_strlit("onSuccessDeactivateScript");
    assert("accountId"@.len() == 9);
    assert("onSuccessActivateScript"@.len() == 23);
    assert("onSuccessDeactivateScript"@.len() == 25);
}

/// A script of the target is offered for removal exactly where no script of the archive
/// has its name.
pub proof fn leftover_scripts_are_those_without_a_namesake(
    keys: Seq<Seq<char>>,
    by_name: Map<Seq<char>, JsonView>,
    rows: Seq<SieveRow>,
    n: nat,
    i: int,
    id: Seq<char>,
)
    requires
        0 <= i < n <= keys.len(),
        by_name[keys[i]] == JsonView::Str(id),
        forall|a: int, b: int|
            0 <= a < b < keys.len() ==> by_name[#[trigger] keys[a]] != by_name[#[trigger] keys[b]],
    ensures
        leftovers(keys, by_name, rows, n).contains(id) <==> (forall|k: int|
            0 <= k < rows.len() ==> !((#[trigger] rows[k]).name is Some && rows[k].name->0@ == keys[i])),
    decreases n,
{
    let all = leftovers(keys, by_name, rows, n);
    let named = crate::sync::export::sieve::named_in(rows, keys[i]);
    assert(named <==> exists|k: int|
        0 <= k < rows.len() && (#[trigger] rows[k]).name is Some && rows[k].name->0@ == keys[i]) by {
        if named {
            let k = choose|k: int|
                0 <= k < rows.len() && text::opt_text((#[trigger] rows[k]).name) == Some(keys[i]);
            assert(rows[k].name is Some);
        }
        if exists|k: int| 0 <= k < rows.len() && (#[trigger] rows[k]).name is Some && rows[k].name->0@ == keys[i] {
            let k = choose|k: int|
                0 <= k < rows.len() && (#[trigger] rows[k]).name is Some && rows[k].name->0@ == keys[i];
            assert(text::opt_text(rows[k].name) == Some(keys[i]));
        }
    }
    if !named {
        lemma_left_over(keys, by_name, rows, n, i, id);
    } else if all.contains(id) {
        crate::sync::export::sieve::archived_scripts_stay(keys, by_name, rows, n, id);
        let a = choose|a: int|
            0 <= a < n && !crate::sync::export::sieve::named_in(rows, #[trigger] keys[a])
                && by_name[keys[a]].as_text() == Some(id);
        assert(by_name[keys[a]] == by_name[keys[i]]);
        assert(a == i);
    }
}

proof fn lemma_left_over(
    keys: Seq<Seq<char>>,
    by_name: Map<Seq<char>, JsonView>,
    rows: Seq<SieveRow>,
    n: nat,
    i: int,
    id: Seq<char>,
)
    requires
        0 <= i < n <= keys.len(),
        by_name[keys[i]] == JsonView::Str(id),
        !crate::sync::export::sieve::named_in(rows, keys[i]),
    ensures
        leftovers(keys, by_name, rows, n).contains(id),
    decreases n,
{
    let all = leftovers(keys, by_name, rows, n);
    let rest = leftovers(keys, by_name, rows, (n - 1) as nat);
    if i == n - 1 {
        assert(all[all.len() - 1] == id);
    } else {
        lemma_left_over(keys, by_name, rows, (n - 1) as nat, i, id);
        let k = choose|k: int| 0 <= k < rest.len() && rest[k] == id;
        assert(all[k] == id);
    }
}

/// A script is sent with its text and, where it has one, its name.
pub proof fn scripts_are_sent_with_name_and_text(name: Option<Seq<char>>, blob: Seq<char>)
    ensures
        ({
            let m = script_view(name, blob);
            &&& m.dom().contains("blobId"@) && m["blobId"@] == JsonView::Str(blob)
            &&& name is Some ==> m.dom().contains("name"@) && m["name"@] == JsonView::Str(name->0)
            &&& name is None ==> !m.dom().contains("name"@)
        }),
{
    reveal_strlit("blobId");
    reveal_strlit("name");
    assert("blobId"@.len() != "name"@.len());
}

} // verus!
