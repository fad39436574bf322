//! Export runs: which kinds are worked on, and what is removed from a target.

use vstd::prelude::*;
use vstd::string::*;

use crate::json::JsonView;
use crate::sync::export::common::SetOutcome;
use crate::sync::export::run::{
    agrees, destroy_args, destroy_order, dry_head, dry_line, export_order, kinds_are_worked_on_as_asked,
    kinds_are_worked_on_in_order, plan_line, prune_phase, rank, removed, sample_text, total_of, work_of, DryRow,
    Plan, PruneStep,
};
use crate::sync::prune::{removable_ids, TargetObj};
use crate::text;
use crate::types::{all_types, ObjectType, TypeCounts};

verus! {

/// An object of the target is removed exactly where nothing of the archive matches an
/// object with its id, it is not protected, and the target lets it be deleted.
pub proof fn what_has_no_match_is_removed(objs: Seq<TargetObj>, n: nat, i: int)
    requires
        0 <= i < n <= objs.len(),
        forall|a: int, b: int| 0 <= a < b < objs.len() ==> (#[trigger] objs[a]).id@ != (#[trigger] objs[b]).id@,
    ensures
        removable_ids(objs, n).contains(objs[i].id@) <==> !objs[i].matched && !objs[i].protected
            && objs[i].may_delete,
{
    let all = removable_ids(objs, n);
    let id = objs[i].id@;
    if !objs[i].matched && !objs[i].protected && objs[i].may_delete {
        lemma_removable(objs, n, i);
    } else if all.contains(id) {
        crate::sync::prune::only_removable_objects_go(objs, n, id);
        let a = choose|a: int|
            0 <= a < n && (#[trigger] objs[a]).id@ == id && crate::sync::prune::removable(objs[a]);
        assert(a == i);
    }
}

proof fn lemma_removable(objs: Seq<TargetObj>, n: nat, i: int)
    requires
        0 <= i < n <= objs.len(),
        !objs[i].matched,
        !objs[i].protected,
        objs[i].may_delete,
    ensures
        removable_ids(objs, n).contains(objs[i].id@),
    decreases n,
{
    let all = removable_ids(objs, n);
    let rest = removable_ids(objs, (n - 1) as nat);
    if i == n - 1 {
        assert(all[all.len() - 1] == objs[i].id@);
    } else {
        lemma_removable(objs, (n - 1) as nat, i);
        let k = choose|k: int| 0 <= k < rest.len() && rest[k] == objs[i].id@;
        assert(all[k] == objs[i].id@);
    }
}

/// A run works on a kind exactly where it was asked for, or nothing in particular was,
/// the target supports it, and the archive has objects of it or the run is to remove
/// what the archive lacks of a kind that was asked for.
pub proof fn kinds_that_matter_are_worked_on(
    selected: Option<Seq<ObjectType>>,
    archived: Seq<ObjectType>,
    supported: Seq<ObjectType>,
    prune: bool,
    t: ObjectType,
)
    ensures
        ({
            let w = work_of(selected, archived, supported, prune, export_order().len());
            &&& selected is None ==> (w.contains(t) <==> supported.contains(t) && archived.contains(t))
            &&& selected is Some ==> (w.contains(t) <==> selected->0.contains(t) && supported.contains(t) && (
            archived.contains(t) || prune))
        }),
{
    kinds_are_worked_on_as_asked(selected, archived, supported, prune, t);
}

/// What is contained is worked on after what contains it: messages after mailboxes,
/// contacts after address books, events after calendars.
pub proof fn containers_come_first(
    selected: Option<Seq<ObjectType>>,
    archived: Seq<ObjectType>,
    supported: Seq<ObjectType>,
    prune: bool,
    i: int,
    j: int,
)
    requires
        0 <= i < work_of(selected, archived, supported, prune, export_order().len()).len(),
        0 <= j < work_of(selected, archived, supported, prune, export_order().len()).len(),
    ensures
        ({
            let w = work_of(selected, archived, supported, prune, export_order().len());
            &&& w[i] == ObjectType::Mailbox && w[j] == ObjectType::Email ==> i < j
            &&& w[i] == ObjectType::AddressBook && w[j] == ObjectType::ContactCard ==> i < j
            &&& w[i] == ObjectType::Calendar && w[j] == ObjectType::CalendarEvent ==> i < j
            &&& w[i] == ObjectType::ParticipantIdentity && w[j] == ObjectType::CalendarEvent ==> i < j
            &&& w[i] == w[j] ==> i == j
        }),
{
    let w = work_of(selected, archived, supported, prune, export_order().len());
    kinds_are_worked_on_in_order(selected, archived, supported, prune, export_order().len());
    if i < j {
        assert(rank(w[i]) < rank(w[j]));
    } else if j < i {
        assert(rank(w[j]) < rank(w[i]));
    }
}

proof fn lemma_total_prefix(plans: Seq<Plan>, p: Plan, n: nat)
    requires
        n <= plans.len(),
    ensures
        total_of(plans.push(p), n) == total_of(plans, n),
    decreases n,
{
    if n > 0 {
        lemma_total_prefix(plans, p, (n - 1) as nat);
        assert(plans.push(p)[n - 1] == plans[n - 1]);
    }
}

/// The number of objects to remove is that of all plans together.
pub proof fn every_removal_is_counted(plans: Seq<Plan>, p: Plan)
    ensures
        total_of(Seq::empty(), 0) == 0,
        total_of(plans.push(p), plans.len() + 1) == total_of(plans, plans.len()) + p.prune_candidates@.len(),
{
    lemma_total_prefix(plans, p, plans.len());
    assert(plans.push(p)[plans.len() as int] == p);
}

/// Every plan with something to remove has its turn, and no other.
pub proof fn every_plan_with_removals_has_its_turn(plans: Seq<Plan>, n: nat, i: int)
    requires
        n <= plans.len(),
    ensures
        destroy_order(plans, n).contains(i) <==> 0 <= i < n && plans[i].prune_candidates@.len() > 0,
    decreases n,
{
    if n > 0 {
        every_plan_with_removals_has_its_turn(plans, (n - 1) as nat, i);
        let rest = destroy_order(plans, (n - 1) as nat);
        let all = destroy_order(plans, n);
        if plans[n - 1].prune_candidates@.len() > 0 {
            assert(all[0] == n - 1);
            if rest.contains(i) {
                let k = choose|k: int| 0 <= k < rest.len() && rest[k] == i;
                assert(all[k + 1] == i);
            }
            if all.contains(i) && i != n - 1 {
                let k = choose|k: int| 0 <= k < all.len() && all[k] == i;
                assert(rest[k - 1] == i);
            }
        }
    }
}

/// The call that removes objects names the account and every object, in order. Where it
/// removes containers, what they contain is left alone.
pub proof fn removal_calls_keep_contents(account: Seq<char>, ty: ObjectType, ids: Seq<Seq<char>>, i: int)
    ensures
        ({
            let m = destroy_args(account, ty, ids);
            &&& m.dom().contains("accountId"@) && m["accountId"@] == JsonView::Str(account)
            &&& m.dom().contains("destroy"@) && m["destroy"@] is Array && m["destroy"@]->Array_0.len() == ids.len()
            &&& 0 <= i < ids.len() ==> m["destroy"@]->Array_0[i] == JsonView::Str(ids[i])
            &&& ty == ObjectType::AddressBook ==> m.dom().contains("onDestroyRemoveContents"@)
                && m["onDestroyRemoveContents"@] == JsonView::Bool(false)
            &&& ty == ObjectType::Calendar ==> m.dom().contains("onDestroyRemoveEvents"@)
                && m["onDestroyRemoveEvents"@] == JsonView::Bool(false)
            &&& ty == ObjectType::FileNode ==> m.dom().contains("onDestroyRemoveChildren"@)
                && m["onDestroyRemoveChildren"@] == JsonView::Bool(false)
        }),
{
    reveal_strlit("accountId");
    reveal_strlit("destroy");
    reveal_strlit("onDestroyRemoveContents");
    reveal_strlit("onDestroyRemoveEvents");
    reveal_strlit("onDestroyRemoveChildren");
    assert("accountId"@.len() == 9);
    assert("destroy"@.len() == 7);
    assert("onDestroyRemoveContents"@.len() == 23);
    assert("onDestroyRemoveEvents"@.len() == 21);
    assert("onDestroyRemoveChildren"@.len() == 23);
}

/// Objects that are gone count as deleted, those that the target kept as skipped, and
/// all of them as failed where the call could not be made; no other counter changes.
pub proof fn removals_are_counted_as_they_went(c: TypeCounts, asked: nat, outcome: Result<SetOutcome, String>)
    requires
        c.room(asked as int),
        outcome matches Ok(o) ==> c.room(o.destroyed@.len() as int) && c.room(o.not_destroyed@.len() as int),
    ensures
        ({
            let r = removed(c, asked, outcome);
            &&& r.created == c.created && r.fetched == c.fetched && r.updated == c.updated
            &&& outcome matches Ok(o) ==> r.deleted == c.deleted + o.destroyed@.len() && r.skipped == c.skipped
                + o.not_destroyed@.len() && r.failed == c.failed
            &&& outcome is Err ==> r.failed == c.failed + asked && r.deleted == c.deleted && r.skipped == c.skipped
        }),
{
}

/// The user agrees by one of three answers, whatever whitespace stands around it; any
/// other answer does not agree.
pub proof fn only_a_yes_agrees(line: Seq<char>)
    ensures
        agrees(line) ==> text::trim_text(line).len() == 1 || text::trim_text(line).len() == 3,
        text::trim_text(line) == seq!['y'] || text::trim_text(line) == seq!['Y'] || text::trim_text(line)
            == seq!['y', 'e', 's'] <==> agrees(line),
{
    reveal_strlit("y");
    reveal_strlit("Y");
    reveal_strlit("yes");
    assert("y"@ =~= seq!['y']);
    assert("Y"@ =~= seq!['Y']);
    assert("yes"@ =~= seq!['y', 'e', 's']);
}

/// The user is shown the first five ids, and all of them where there are fewer.
pub proof fn at_most_five_ids_are_shown(ids: Seq<Seq<char>>)
    ensures
        ids.len() <= 5 ==> sample_text(ids) == text::join_text(ids, ", "@),
        ids.len() > 5 ==> sample_text(ids) == text::join_text(
            seq![ids[0], ids[1], ids[2], ids[3], ids[4]],
            ", "@,
        ),
{
    if ids.len() <= 5 {
        assert(ids.take(ids.len() as int) =~= ids);
    } else {
        assert(ids.take(5) =~= seq![ids[0], ids[1], ids[2], ids[3], ids[4]]);
    }
}

/// Objects are removed only in a run that is to do so and to change the target, where
/// there are any, and where the user agreed beforehand or cannot be asked. A user who
/// can be asked is, unless they agreed.
pub proof fn nothing_is_removed_unasked(
    plans: &Vec<Plan>,
    prune: bool,
    dry_run: bool,
    yes: bool,
    terminal: bool,
    r: PruneStep,
)
    requires
        call_ensures(prune_phase, (plans, prune, dry_run, yes, terminal), r),
    ensures
        r is Destroy ==> prune && !dry_run && (yes || !terminal),
        r is Ask ==> prune && !dry_run && !yes && terminal,
        r is Nothing ==> !prune || dry_run || total_of(plans@, plans@.len()) == 0,
        !prune || dry_run ==> r is Nothing,
{
}

/// What would be removed is shown by its kind, how much it is, and a few of its ids.
pub proof fn removals_are_shown(ty: ObjectType, p: Plan)
    ensures
        plan_line(ty, p) == "  "@ + text::filled_right(ty.jmap(), 22) + (" "@ + text::filled_left(
            text::decimal_text(p.prune_candidates@.len()),
            6,
        ) + (" candidate(s); sample: "@ + sample_text(text::texts(p.prune_candidates@)))),
{
}

/// A line of the table of a run that changes nothing shows the kind, how many objects
/// would be created and are there, and in a run that removes any, how many would go;
/// the head names the columns.
pub proof fn dry_runs_are_shown_in_columns(r: DryRow)
    ensures
        ({
            let line = text::filled_right(r.ty.jmap(), 22) + " "@ + (text::filled_left(
                text::decimal_text(r.created as nat),
                10,
            ) + " "@ + text::filled_left(text::decimal_text(r.matched as nat), 10));
            let head = text::filled_right("TYPE"@, 22) + " "@ + (text::filled_left("CREATE"@, 10) + " "@
                + text::filled_left("MATCHED"@, 10));
            &&& dry_line(r, false) == line
            &&& dry_line(r, true) == line + " "@ + text::filled_left(text::decimal_text(r.removed as nat), 12)
            &&& dry_head(false) == head
            &&& dry_head(true) == head + " "@ + text::filled_left("WOULD-DESTROY"@, 12)
        }),
{
}

/// Each kind goes by its name on a target, and by that name in small letters in the
/// archive.
pub proof fn kinds_go_by_their_names(t: ObjectType)
    ensures
        t == ObjectType::Mailbox ==> t.jmap() == "Mailbox"@ && t.archive() == "mailbox"@,
        t == ObjectType::AddressBook ==> t.jmap() == "AddressBook"@ && t.archive() == "addressbook"@,
        t == ObjectType::Calendar ==> t.jmap() == "Calendar"@ && t.archive() == "calendar"@,
        t == ObjectType::FileNode ==> t.jmap() == "FileNode"@ && t.archive() == "filenode"@,
        t == ObjectType::Identity ==> t.jmap() == "Identity"@ && t.archive() == "identity"@,
        t == ObjectType::SieveScript ==> t.jmap() == "SieveScript"@ && t.archive() == "sievescript"@,
        t == ObjectType::ParticipantIdentity ==> t.jmap() == "ParticipantIdentity"@ && t.archive()
            == "participantidentity"@,
        t == ObjectType::Email ==> t.jmap() == "Email"@ && t.archive() == "email"@,
        t == ObjectType::ContactCard ==> t.jmap() == "ContactCard"@ && t.archive() == "contactcard"@,
        t == ObjectType::CalendarEvent ==> t.jmap() == "CalendarEvent"@ && t.archive() == "calendarevent"@,
        all_types().contains(t),
        ObjectType::named(t.archive()) == Some(t),
{
    crate::types::archive_names_tell_kinds_apart(t);
    let all = all_types();
    assert(all[0] == ObjectType::Mailbox);
    assert(all[1] == ObjectType::AddressBook);
    assert(all[2] == ObjectType::Calendar);
    assert(all[3] == ObjectType::FileNode);
    assert(all[4] == ObjectType::Identity);
    assert(all[5] == ObjectType::SieveScript);
    assert(all[6] == ObjectType::ParticipantIdentity);
    assert(all[7] == ObjectType::Email);
    assert(all[8] == ObjectType::ContactCard);
    assert(all[9] == ObjectType::CalendarEvent);
}

} // verus!
