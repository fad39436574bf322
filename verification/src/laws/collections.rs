//! Exporting calendars and address books.

use vstd::prelude::*;
use vstd::string::*;

use crate::error::{Error, ErrorView};
use crate::json::{equal, JsonView};
use crate::sync::export::common;
use crate::sync::export::common::{entries, EntryView, Tally, VerdictView};
use crate::sync::export::flat::{
    after_created, after_refused, batch_of, declared, default_failure, least, matching, may_go, needs_update,
    prune_view, reconcile, source_default, step, update_args, update_properties, update_verdict, update_wire,
    wanted_default, wire_of, CreateView, FlatInput, FlatPlan, Matching, UpdateReply,
};
use crate::text;
use crate::types::ObjectType;

verus! {

proof fn lemma_one_declared(locals: Seq<(i64, String, bool)>, k: int, n: nat)
    requires
        0 <= k < locals.len(),
        n <= locals.len(),
        forall|a: int| 0 <= a < locals.len() ==> ((#[trigger] locals[a]).2 <==> a == k),
    ensures
        declared(locals, n) == if k < n {
            seq![locals[k].0]
        } else {
            Seq::empty()
        },
    decreases n,
{
    if n > 0 {
        lemma_one_declared(locals, k, (n - 1) as nat);
        assert(locals[n - 1].2 <==> n - 1 == k);
        assert(Seq::<i64>::empty().push(locals[k].0) =~= seq![locals[k].0]);
    }
}

proof fn lemma_none_declared(locals: Seq<(i64, String, bool)>, n: nat)
    requires
        n <= locals.len(),
        forall|a: int| 0 <= a < locals.len() ==> !(#[trigger] locals[a]).2,
    ensures
        declared(locals, n).len() == 0,
    decreases n,
{
    if n > 0 {
        lemma_none_declared(locals, (n - 1) as nat);
        assert(!locals[n - 1].2);
    }
}

proof fn lemma_two_declared(locals: Seq<(i64, String, bool)>, a: int, b: int, n: nat)
    requires
        0 <= a < b < locals.len(),
        n <= locals.len(),
        locals[a].2,
        locals[b].2,
    ensures
        a < n ==> declared(locals, n).len() >= 1,
        b < n ==> declared(locals, n).len() >= 2,
    decreases n,
{
    if n > 0 {
        lemma_two_declared(locals, a, b, (n - 1) as nat);
    }
}

proof fn lemma_least(locals: Seq<(i64, String, bool)>, n: nat)
    requires
        n <= locals.len(),
    ensures
        n == 0 ==> least(locals, n) is None,
        n > 0 ==> least(locals, n) is Some,
        least(locals, n) is Some ==> exists|a: int|
            0 <= a < n && (#[trigger] locals[a]).0 == least(locals, n)->0,
        forall|a: int| 0 <= a < n ==> least(locals, n)->0 <= (#[trigger] locals[a]).0,
    decreases n,
{
    if n > 0 {
        lemma_least(locals, (n - 1) as nat);
        let was = least(locals, (n - 1) as nat);
        if was is Some && locals[n - 1].0 >= was->0 {
            let a = choose|a: int| 0 <= a < n - 1 && (#[trigger] locals[a]).0 == was->0;
            assert(locals[a].0 == least(locals, n)->0);
        } else {
            assert(locals[n - 1].0 == least(locals, n)->0);
        }
    }
}

/// The calendar that the archive declares its default is the one that becomes the
/// default of the target.
pub proof fn the_declared_calendar_becomes_the_default(
    locals: Seq<(i64, String, bool)>,
    target_has_default: bool,
    k: int,
)
    requires
        0 <= k < locals.len(),
        forall|a: int| 0 <= a < locals.len() ==> ((#[trigger] locals[a]).2 <==> a == k),
    ensures
        source_default(locals, target_has_default) == Ok::<(Option<i64>, bool), ErrorView>(
            (Some(locals[k].0), false),
        ),
{
    lemma_one_declared(locals, k, locals.len());
}

/// Where the archive declares no default, the oldest calendar takes the default of the
/// target, which is told; a target without a default is left without one.
pub proof fn an_undeclared_default_is_the_oldest_calendar(
    locals: Seq<(i64, String, bool)>,
    target_has_default: bool,
)
    requires
        forall|a: int| 0 <= a < locals.len() ==> !(#[trigger] locals[a]).2,
    ensures
        ({
            let r = source_default(locals, target_has_default);
            &&& r is Ok
            &&& !target_has_default || locals.len() == 0 ==> r->Ok_0 == (None::<i64>, false)
            &&& target_has_default && locals.len() > 0 ==> r->Ok_0.1 && r->Ok_0.0 is Some && (exists|a: int|
                0 <= a < locals.len() && (#[trigger] locals[a]).0 == r->Ok_0.0->0) && (forall|a: int|
                0 <= a < locals.len() ==> r->Ok_0.0->0 <= (#[trigger] locals[a]).0)
        }),
{
    lemma_none_declared(locals, locals.len());
    lemma_least(locals, locals.len());
}

/// An archive that declares two default calendars is refused.
pub proof fn two_defaults_are_refused(
    locals: Seq<(i64, String, bool)>,
    target_has_default: bool,
    a: int,
    b: int,
)
    requires
        0 <= a < b < locals.len(),
        locals[a].2,
        locals[b].2,
    ensures
        source_default(locals, target_has_default) matches Err(e) && e is Partial,
{
    lemma_two_declared(locals, a, b, locals.len());
}

/// A collection is sent as it is archived, but for the mark of a default.
pub proof fn collections_are_sent_as_archived(row: Map<Seq<char>, JsonView>, p: Seq<char>)
    ensures
        ({
            let sent = wire_of(JsonView::Object(row));
            &&& sent is Object
            &&& p == "isDefault"@ ==> sent.field(p) is None
            &&& p != "isDefault"@ ==> sent.field(p) == JsonView::Object(row).field(p)
        }),
{
}

/// An update of a calendar holds all that is archived of it, but for the mark of a
/// default, and clears what the archive lacks.
pub proof fn calendar_updates_are_complete(row: Map<Seq<char>, JsonView>, p: Seq<char>)
    ensures
        ({
            let sent = update_wire(JsonView::Object(row));
            &&& sent is Some
            &&& p == "isDefault"@ ==> sent->0.field(p) is None
            &&& p != "isDefault"@ && row.dom().contains(p) ==> sent->0.field(p) == Some(row[p])
            &&& !row.dom().contains(p) && (p == "description"@ || p == "color"@ || p == "timeZone"@)
                ==> sent->0.field(p) == Some(JsonView::Null)
            &&& !row.dom().contains(p) && (p == "defaultAlertsWithTime"@ || p == "defaultAlertsWithoutTime"@)
                ==> sent->0.field(p) == Some(JsonView::Object(Map::empty()))
            &&& !row.dom().contains(p) && p != "description"@ && p != "color"@ && p != "timeZone"@ && p
                != "defaultAlertsWithTime"@ && p != "defaultAlertsWithoutTime"@ ==> sent->0.field(p) is None
        }),
{
    lemma_calendar_names();
}

proof fn lemma_calendar_names()
    ensures
        "isDefault"@ != "description"@,
        "isDefault"@ != "color"@,
        "isDefault"@ != "timeZone"@,
        "isDefault"@ != "defaultAlertsWithTime"@,
        "isDefault"@ != "defaultAlertsWithoutTime"@,
        "description"@ != "color"@,
        "description"@ != "timeZone"@,
        "description"@ != "defaultAlertsWithTime"@,
        "description"@ != "defaultAlertsWithoutTime"@,
        "color"@ != "timeZone"@,
        "color"@ != "defaultAlertsWithTime"@,
        "color"@ != "defaultAlertsWithoutTime"@,
        "timeZone"@ != "defaultAlertsWithTime"@,
        "timeZone"@ != "defaultAlertsWithoutTime"@,
        "defaultAlertsWithTime"@ != "defaultAlertsWithoutTime"@,
{
    reveal_strlit("isDefault");
    reveal_strlit("description");
    reveal_strlit("color");
    reveal_strlit("timeZone");
    reveal_strlit("defaultAlertsWithTime");
    reveal_strlit("defaultAlertsWithoutTime");
    assert("isDefault"@.len() == 9);
    assert("description"@.len() == 11);
    assert("color"@.len() == 5);
    assert("timeZone"@.len() == 8);
    assert("defaultAlertsWithTime"@.len() == 21);
    assert("defaultAlertsWithoutTime"@.len() == 24);
}

/// The properties of a calendar that a target is to have as archived.
pub open spec fn kept(p: Seq<char>) -> bool {
    p == "name"@ || p == "description"@ || p == "color"@ || p == "sortOrder"@ || p == "isSubscribed"@ || p
        == "isVisible"@ || p == "includeInAvailability"@ || p == "defaultAlertsWithTime"@ || p
        == "defaultAlertsWithoutTime"@ || p == "timeZone"@
}

/// Whether two calendars agree on a property.
pub open spec fn alike(a: Map<Seq<char>, JsonView>, b: Map<Seq<char>, JsonView>, p: Seq<char>) -> bool {
    a.dom().contains(p) && b.dom().contains(p) && equal(a[p], b[p])
}

/// A calendar that differs from the archived one in any property that is kept is
/// updated; one that agrees in all of them is not.
pub proof fn calendars_that_differ_are_updated(
    target: Map<Seq<char>, JsonView>,
    desired: Map<Seq<char>, JsonView>,
    p: Seq<char>,
)
    ensures
        kept(p) && !alike(target, desired, p) ==> needs_update(JsonView::Object(target), JsonView::Object(desired)),
        (forall|q: Seq<char>| #[trigger] kept(q) ==> alike(target, desired, q)) ==> !needs_update(
            JsonView::Object(target),
            JsonView::Object(desired),
        ),
{
    let all = update_properties();
    assert(all[0] == "name"@);
    assert(all[1] == "description"@);
    assert(all[2] == "color"@);
    assert(all[3] == "sortOrder"@);
    assert(all[4] == "isSubscribed"@);
    assert(all[5] == "isVisible"@);
    assert(all[6] == "includeInAvailability"@);
    assert(all[7] == "defaultAlertsWithTime"@);
    assert(all[8] == "defaultAlertsWithoutTime"@);
    assert(all[9] == "timeZone"@);
    assert(forall|i: int| 0 <= i < all.len() ==> kept(#[trigger] all[i]));
}

/// Whether the settled part of a plan stays as more collections are settled.
spec fn grown(a: Matching, b: Matching) -> bool {
    &&& a.hits.len() <= b.hits.len()
    &&& a.matched.len() <= b.matched.len()
    &&& a.verdicts.len() <= b.verdicts.len()
    &&& a.updates.len() <= b.updates.len()
    &&& a.creates.len() <= b.creates.len()
    &&& forall|k: int| 0 <= k < a.hits.len() ==> #[trigger] b.hits[k] == a.hits[k]
    &&& forall|k: int| 0 <= k < a.matched.len() ==> #[trigger] b.matched[k] == a.matched[k]
    &&& forall|k: int| 0 <= k < a.verdicts.len() ==> #[trigger] b.verdicts[k] == a.verdicts[k]
    &&& forall|k: int| 0 <= k < a.updates.len() ==> #[trigger] b.updates[k] == a.updates[k]
    &&& forall|k: int| 0 <= k < a.creates.len() ==> #[trigger] b.creates[k] == a.creates[k]
}

proof fn lemma_matching_grows(inp: FlatInput, source: Option<i64>, a: nat, n: nat)
    requires
        a <= n <= inp.locals@.len(),
    ensures
        grown(matching(inp, source, a), matching(inp, source, n)),
        matching(inp, source, n).hits.len() == n,
    decreases n,
{
    if a < n {
        lemma_matching_grows(inp, source, a, (n - 1) as nat);
    } else if n > 0 {
        lemma_matching_grows(inp, source, (n - 1) as nat, (n - 1) as nat);
    }
}

/// Every collection is settled. One without a counterpart is created, as the default
/// where it is to be that. An address book with a counterpart is left as it is. A
/// calendar with one is updated where it differs, and else left as it is, unless it is
/// to be made the default; where its row could not be built, that is recorded.
pub proof fn every_collection_is_settled(inp: FlatInput, source: Option<i64>, i: int)
    requires
        0 <= i < inp.locals@.len(),
    ensures
        ({
            let m = matching(inp, source, inp.locals@.len());
            let local = inp.locals@[i].0;
            &&& m.hits[i] is None ==> exists|k: int|
                0 <= k < m.creates.len() && (#[trigger] m.creates[k]).0 == i && m.creates[k].1 == if inp.ty
                    == ObjectType::Calendar {
                    source == Some(local)
                } else {
                    inp.locals@[i].2
                }
            &&& m.hits[i] is Some ==> {
                let t = inp.targets@[m.hits[i]->0]@;
                let id = t.text_at("id"@)->0;
                &&& m.matched.contains(id)
                &&& inp.ty != ObjectType::Calendar ==> m.verdicts.contains(
                    VerdictView { local, tally: Tally::Skipped, entry: EntryView::Resolve, target: Some(id) },
                )
                &&& inp.ty == ObjectType::Calendar && inp.rows@[i] is Ok && inp.rows@[i]->Ok_0@ is Object ==> {
                    let w = update_wire(inp.rows@[i]->Ok_0@)->0;
                    &&& needs_update(t, w) ==> m.updates.contains((local, id, w))
                    &&& !needs_update(t, w) && !(source == Some(local) && t.bool_at("isDefault"@) != Some(true))
                        ==> m.verdicts.contains(
                        VerdictView { local, tally: Tally::Skipped, entry: EntryView::Resolve, target: Some(id) },
                    )
                }
                &&& inp.ty == ObjectType::Calendar && inp.rows@[i] is Err ==> exists|k: int|
                    0 <= k < m.verdicts.len() && (#[trigger] m.verdicts[k]).local == local && m.verdicts[k].tally
                        == Tally::Failed && m.verdicts[k].entry is Record && m.verdicts[k].entry->0.error_type
                        == "buildFailed"@ && m.verdicts[k].entry->0.error_detail == inp.rows@[i]->Err_0@
                        && m.verdicts[k].entry->0.client_id == "u"@ + text::integer_text(local as int)
            }
        }),
{
    let before = matching(inp, source, i as nat);
    let after = matching(inp, source, (i + 1) as nat);
    let m = matching(inp, source, inp.locals@.len());
    lemma_matching_grows(inp, source, i as nat, (i + 1) as nat);
    lemma_matching_grows(inp, source, i as nat, i as nat);
    lemma_matching_grows(inp, source, (i + 1) as nat, inp.locals@.len());
    assert(after == step(inp, source, before, i));
    assert(m.hits[i] == after.hits[i]);
    assert(m.hits[i] == inp.hit(source, i, before.matched));
    reveal_strlit("buildFailed");
    if m.hits[i] is None {
        assert(m.creates[after.creates.len() - 1] == after.creates[after.creates.len() - 1]);
    } else {
        assert(m.matched[after.matched.len() - 1] == after.matched[after.matched.len() - 1]);
        if after.verdicts.len() > before.verdicts.len() {
            assert(m.verdicts[after.verdicts.len() - 1] == after.verdicts[after.verdicts.len() - 1]);
        }
        if after.updates.len() > before.updates.len() {
            assert(m.updates[after.updates.len() - 1] == after.updates[after.updates.len() - 1]);
        }
    }
}

proof fn lemma_only_unmatched(inp: FlatInput, source: Option<i64>, n: nat, k: int)
    requires
        n <= inp.locals@.len(),
        0 <= k < matching(inp, source, n).creates.len(),
    ensures
        0 <= matching(inp, source, n).creates[k].0 < n,
        matching(inp, source, n).hits[matching(inp, source, n).creates[k].0] is None,
    decreases n,
{
    let before = matching(inp, source, (n - 1) as nat);
    lemma_matching_grows(inp, source, (n - 1) as nat, n);
    lemma_matching_grows(inp, source, (n - 1) as nat, (n - 1) as nat);
    if k < before.creates.len() {
        lemma_only_unmatched(inp, source, (n - 1) as nat, k);
    }
}

/// Only what has no counterpart is created, and only what has one is updated.
pub proof fn matched_collections_are_not_created(inp: FlatInput, source: Option<i64>, k: int)
    requires
        0 <= k < matching(inp, source, inp.locals@.len()).creates.len(),
    ensures
        ({
            let m = matching(inp, source, inp.locals@.len());
            0 <= m.creates[k].0 < inp.locals@.len() && m.hits[m.creates[k].0] is None
        }),
{
    lemma_only_unmatched(inp, source, inp.locals@.len(), k);
}

proof fn lemma_default_from(inp: FlatInput, n: nat, j: int)
    requires
        n <= j < inp.targets@.len(),
        inp.targets@[j]@.bool_at("isDefault"@) == Some(true),
        inp.targets@[j]@.text_at("id"@) is Some,
    ensures
        inp.default_from(n) is Some,
        n <= inp.default_from(n)->0 <= j,
        inp.targets@[inp.default_from(n)->0]@.bool_at("isDefault"@) == Some(true),
        inp.targets@[inp.default_from(n)->0]@.text_at("id"@) is Some,
    decreases j - n,
{
    if !(inp.targets@[n as int]@.bool_at("isDefault"@) == Some(true) && inp.id(n as int) is Some) {
        lemma_default_from(inp, n + 1, j);
    }
}

proof fn lemma_no_default_from(inp: FlatInput, n: nat)
    requires
        inp.default_from(n) is Some,
    ensures
        n <= inp.default_from(n)->0 < inp.targets@.len(),
        inp.targets@[inp.default_from(n)->0]@.bool_at("isDefault"@) == Some(true),
        inp.targets@[inp.default_from(n)->0]@.text_at("id"@) is Some,
    decreases inp.targets@.len() - n,
{
    if !(inp.targets@[n as int]@.bool_at("isDefault"@) == Some(true) && inp.id(n as int) is Some) {
        lemma_no_default_from(inp, n + 1);
    }
}

/// The default calendar of a target is one that it marks as that and that has an id;
/// there is one wherever a calendar is so marked.
pub proof fn the_default_of_a_target_is_marked(inp: FlatInput, j: int)
    requires
        inp.ty == ObjectType::Calendar,
    ensures
        0 <= j < inp.targets@.len() && inp.targets@[j]@.bool_at("isDefault"@) == Some(true)
            && inp.targets@[j]@.text_at("id"@) is Some ==> inp.target_default() is Some && inp.target_default()->0
            <= j,
        inp.target_default() is Some ==> 0 <= inp.target_default()->0 < inp.targets@.len()
            && inp.targets@[inp.target_default()->0]@.bool_at("isDefault"@) == Some(true)
            && inp.targets@[inp.target_default()->0]@.text_at("id"@) is Some,
{
    if 0 <= j < inp.targets@.len() && inp.targets@[j]@.bool_at("isDefault"@) == Some(true)
        && inp.targets@[j]@.text_at("id"@) is Some {
        lemma_default_from(inp, 0, j);
    }
    if inp.target_default() is Some {
        lemma_no_default_from(inp, 0);
    }
}

proof fn lemma_fit(inp: FlatInput, source: Option<i64>, i: int, matched: Seq<Seq<char>>, n: nat)
    ensures
        inp.first_fit(source, i, matched, n) is Some ==> n <= inp.first_fit(source, i, matched, n)->0
            < inp.targets@.len() && inp.fits(source, i, inp.first_fit(source, i, matched, n)->0, matched),
    decreases inp.targets@.len() - n,
{
    if n < inp.targets@.len() && !inp.fits(source, i, n as int, matched) {
        lemma_fit(inp, source, i, matched, n + 1);
    }
}

/// A counterpart has the name of the collection that it stands for, unless both are
/// the default.
pub proof fn counterparts_have_the_same_name(inp: FlatInput, source: Option<i64>, i: int)
    requires
        0 <= i < inp.locals@.len(),
        matching(inp, source, inp.locals@.len()).hits[i] is Some,
    ensures
        ({
            let j = matching(inp, source, inp.locals@.len()).hits[i]->0;
            ||| inp.ty == ObjectType::Calendar && inp.target_default() == Some(j) && source == Some(
                inp.locals@[i].0,
            )
            ||| 0 <= j < inp.targets@.len() && inp.target_keys@[j] is Some && inp.target_keys@[j]->0@
                == inp.keys@[i]@ && inp.targets@[j]@.text_at("id"@) is Some
        }),
{
    let before = matching(inp, source, i as nat);
    lemma_matching_grows(inp, source, i as nat, i as nat);
    lemma_matching_grows(inp, source, (i + 1) as nat, inp.locals@.len());
    lemma_fit(inp, source, i, before.matched, 0);
    let m = matching(inp, source, inp.locals@.len());
    assert(m.hits[i] == matching(inp, source, (i + 1) as nat).hits[i]);
}

proof fn lemma_default_is_free(inp: FlatInput, i: int, n: nat)
    requires
        inp.ty == ObjectType::Calendar,
        0 <= i < inp.locals@.len(),
        n <= i,
        inp.target_default() is Some,
        forall|a: int| 0 <= a < inp.locals@.len() && a != i ==> (#[trigger] inp.locals@[a]).0 != inp.locals@[i].0,
    ensures
        !matching(inp, Some(inp.locals@[i].0), n).matched.contains(inp.id(inp.target_default()->0)->0),
        matching(inp, Some(inp.locals@[i].0), n).make_default is None,
    decreases n,
{
    let source = Some(inp.locals@[i].0);
    lemma_no_default_from(inp, 0);
    if n > 0 {
        lemma_default_is_free(inp, i, (n - 1) as nat);
        let before = matching(inp, source, (n - 1) as nat);
        lemma_fit(inp, source, n - 1, before.matched, 0);
        assert(inp.locals@[n - 1].0 != inp.locals@[i].0);
    }
}

/// The default calendar of the archive takes the default calendar of the target,
/// whatever their names.
pub proof fn the_default_takes_the_default(inp: FlatInput, i: int)
    requires
        inp.ty == ObjectType::Calendar,
        0 <= i < inp.locals@.len(),
        inp.target_default() is Some,
        forall|a: int| 0 <= a < inp.locals@.len() && a != i ==> (#[trigger] inp.locals@[a]).0 != inp.locals@[i].0,
    ensures
        matching(inp, Some(inp.locals@[i].0), inp.locals@.len()).hits[i] == inp.target_default(),
{
    let source = Some(inp.locals@[i].0);
    lemma_default_is_free(inp, i, i as nat);
    lemma_matching_grows(inp, source, i as nat, i as nat);
    lemma_matching_grows(inp, source, (i + 1) as nat, inp.locals@.len());
    let m = matching(inp, source, inp.locals@.len());
    assert(m.hits[i] == matching(inp, source, (i + 1) as nat).hits[i]);
}

proof fn lemma_make_default(inp: FlatInput, i: int, n: nat)
    requires
        inp.ty == ObjectType::Calendar,
        0 <= i < inp.locals@.len(),
        n <= inp.locals@.len(),
        forall|a: int| 0 <= a < inp.locals@.len() && a != i ==> (#[trigger] inp.locals@[a]).0 != inp.locals@[i].0,
    ensures
        ({
            let m = matching(inp, Some(inp.locals@[i].0), n);
            m.make_default == if i < n && m.hits[i] is Some && inp.targets@[m.hits[i]->0]@.bool_at("isDefault"@)
                != Some(true) {
                Some((inp.locals@[i].0, inp.targets@[m.hits[i]->0]@.text_at("id"@)->0))
            } else {
                None
            }
        }),
    decreases n,
{
    if n > 0 {
        lemma_make_default(inp, i, (n - 1) as nat);
        let source = Some(inp.locals@[i].0);
        lemma_matching_grows(inp, source, (n - 1) as nat, (n - 1) as nat);
        if n - 1 != i {
            assert(inp.locals@[n - 1].0 != inp.locals@[i].0);
        }
    }
}

/// A matched calendar is made the default exactly where it is to be that and the
/// target does not mark it as that already; no other calendar is.
pub proof fn the_default_is_set_where_it_is_not(inp: FlatInput, i: int)
    requires
        inp.ty == ObjectType::Calendar,
        0 <= i < inp.locals@.len(),
        forall|a: int| 0 <= a < inp.locals@.len() && a != i ==> (#[trigger] inp.locals@[a]).0 != inp.locals@[i].0,
    ensures
        ({
            let m = matching(inp, Some(inp.locals@[i].0), inp.locals@.len());
            m.make_default == if m.hits[i] is Some && inp.targets@[m.hits[i]->0]@.bool_at("isDefault"@) != Some(
                true,
            ) {
                Some((inp.locals@[i].0, inp.targets@[m.hits[i]->0]@.text_at("id"@)->0))
            } else {
                None
            }
        }),
{
    lemma_make_default(inp, i, inp.locals@.len());
}

/// The call that updates calendars holds each update under the id of its calendar, and
/// nothing else.
pub proof fn every_update_is_sent(u: Seq<(i64, Seq<char>, JsonView)>, n: nat, i: int, p: Seq<char>)
    requires
        n <= u.len(),
        forall|a: int, b: int| 0 <= a < b < u.len() ==> (#[trigger] u[a]).1 != (#[trigger] u[b]).1,
    ensures
        0 <= i < n ==> update_args(u, n).dom().contains(u[i].1) && update_args(u, n)[u[i].1] == u[i].2,
        update_args(u, n).dom().contains(p) ==> exists|a: int| 0 <= a < n && (#[trigger] u[a]).1 == p,
    decreases n,
{
    if n > 0 {
        every_update_is_sent(u, (n - 1) as nat, i, p);
        if update_args(u, n).dom().contains(p) && p != u[n - 1].1 {
            let a = choose|a: int| 0 <= a < n - 1 && (#[trigger] u[a]).1 == p;
            assert(u[a].1 == p);
        } else if p == u[n - 1].1 {
            assert(u[n - 1].1 == p);
        }
    }
}

/// A calendar whose update the target confirms counts as updated. One that it refuses,
/// or that could not be sent, counts as failed, with a row that says why. In a run that
/// changes nothing it counts as updated, and its row stays.
pub proof fn calendar_updates_end_as_the_target_says(
    reply: UpdateReply,
    u: (i64, Seq<char>, JsonView),
    stamp: Seq<char>,
)
    ensures
        ({
            let v = update_verdict(reply, u, stamp);
            &&& v.local == u.0
            &&& reply is DryRun ==> v.tally == Tally::Updated && v.entry is Keep
            &&& reply matches UpdateReply::Answered(o) ==> {
                let confirmed = exists|k: int| 0 <= k < o.updated@.len() && (#[trigger] o.updated@[k])@ == u.1;
                &&& confirmed ==> v.tally == Tally::Updated && v.entry is Resolve
                &&& !confirmed ==> v.tally == Tally::Failed && v.entry is Record && v.entry->0.local_id == u.0
                    && v.entry->0.client_id == "u"@ + text::integer_text(u.0 as int) && v.entry->0.failed_at == stamp
                &&& !confirmed && o.not_updated@.len() == 1 && o.not_updated@[0].0@ == u.1
                    && o.not_updated@[0].1@.text_at("type"@) is Some
                    && o.not_updated@[0].1@.text_at("type"@)->0.len() > 0 ==> v.entry->0.error_type
                    == o.not_updated@[0].1@.text_at("type"@)->0 && v.entry->0.error_detail
                    == crate::json::json_compact(o.not_updated@[0].1@)
            }
            &&& reply matches UpdateReply::Failed(e) ==> v.tally == Tally::Failed && v.entry is Record
                && v.entry->0.error_type == "updateFailed"@ && v.entry->0.error_detail == "target "@ + u.1 + (": "@
                + e@) && v.entry->0.local_id == u.0
        }),
{
    reveal_strlit("updateFailed");
    if let UpdateReply::Answered(o) = reply {
        let all = text::texts(o.updated@);
        if exists|k: int| 0 <= k < o.updated@.len() && (#[trigger] o.updated@[k])@ == u.1 {
            let k = choose|k: int| 0 <= k < o.updated@.len() && (#[trigger] o.updated@[k])@ == u.1;
            assert(all[k] == u.1);
        } else {
            if all.contains(u.1) {
                let k = choose|k: int| 0 <= k < all.len() && all[k] == u.1;
                assert(o.updated@[k]@ == u.1);
            }
            if o.not_updated@.len() == 1 {
                assert(entries(o.not_updated@)[0] == (o.not_updated@[0].0@, o.not_updated@[0].1@));
                reveal_with_fuel(common::lookup, 2);
            }
        }
    }
}

/// A collection that could not be made the default counts as failed, and its row names
/// the collection of the target and says why.
pub proof fn a_default_that_is_not_set_is_told(
    ty: ObjectType,
    local: i64,
    cid: Seq<char>,
    target: Seq<char>,
    why: Seq<char>,
    stamp: Seq<char>,
)
    ensures
        ({
            let v = default_failure(ty, local, cid, target, why, stamp);
            &&& v.local == local
            &&& v.tally == Tally::Failed
            &&& v.entry is Record
            &&& v.entry->0.error_type == "defaultSetFailed"@
            &&& v.entry->0.error_detail == "target "@ + target + (": "@ + why)
            &&& v.entry->0.client_id == cid
            &&& v.entry->0.local_id == local
            &&& v.entry->0.failed_at == stamp
        }),
{
    reveal_strlit("defaultSetFailed");
}

/// A collection to create is sent under its creation id, without the mark of a default;
/// where its row could not be built, that is recorded and it is not sent.
pub proof fn every_creation_is_sent(inp: FlatInput, creates: Seq<(int, bool)>, n: nat, k: int)
    requires
        0 <= k < n <= creates.len(),
    ensures
        ({
            let (sent, lost) = batch_of(inp, creates, n);
            let i = creates[k].0;
            let local = inp.locals@[i].0;
            &&& sent.len() + lost.len() == n
            &&& inp.rows@[i] is Ok ==> exists|a: int|
                0 <= a < sent.len() && (#[trigger] sent[a]).0 == "c"@ + text::integer_text(local as int) && sent[a].1
                    == wire_of(inp.rows@[i]->Ok_0@)
            &&& inp.rows@[i] is Err ==> exists|a: int|
                0 <= a < lost.len() && (#[trigger] lost[a]).local == local && lost[a].tally == Tally::Failed
                    && lost[a].entry is Record && lost[a].entry->0.error_type == "buildFailed"@
                    && lost[a].entry->0.error_detail == inp.rows@[i]->Err_0@ && lost[a].entry->0.client_id == "c"@
                    + text::integer_text(local as int)
        }),
    decreases n,
{
    reveal_strlit("buildFailed");
    let (sent, lost) = batch_of(inp, creates, n);
    let (sent1, lost1) = batch_of(inp, creates, (n - 1) as nat);
    let i = creates[k].0;
    let local = inp.locals@[i].0;
    lemma_batch_len(inp, creates, n);
    lemma_batch_len(inp, creates, (n - 1) as nat);
    if k == n - 1 {
        if inp.rows@[i] is Ok {
            let a = sent.len() - 1;
            assert(sent[a].0 == "c"@ + text::integer_text(local as int));
        } else {
            let a = lost.len() - 1;
            assert(lost[a].local == local);
        }
    } else {
        every_creation_is_sent(inp, creates, (n - 1) as nat, k);
        if inp.rows@[i] is Ok {
            let a = choose|a: int|
                0 <= a < sent1.len() && (#[trigger] sent1[a]).0 == "c"@ + text::integer_text(local as int)
                    && sent1[a].1 == wire_of(inp.rows@[i]->Ok_0@);
            assert(sent[a] == sent1[a]);
        } else {
            let a = choose|a: int|
                0 <= a < lost1.len() && (#[trigger] lost1[a]).local == local && lost1[a].tally == Tally::Failed
                    && lost1[a].entry is Record && lost1[a].entry->0.error_type == "buildFailed"@
                    && lost1[a].entry->0.error_detail == inp.rows@[i]->Err_0@ && lost1[a].entry->0.client_id == "c"@
                    + text::integer_text(local as int);
            assert(lost[a] == lost1[a]);
        }
    }
}

proof fn lemma_batch_len(inp: FlatInput, creates: Seq<(int, bool)>, n: nat)
    requires
        n <= creates.len(),
    ensures
        batch_of(inp, creates, n).0.len() + batch_of(inp, creates, n).1.len() == n,
    decreases n,
{
    if n > 0 {
        lemma_batch_len(inp, creates, (n - 1) as nat);
    }
}

proof fn lemma_created_stays(
    locals: Seq<(i64, String, bool)>,
    creates: Seq<(int, bool)>,
    made: Seq<(Seq<char>, JsonView)>,
    n: nat,
    i: int,
    local: i64,
    id: Seq<char>,
)
    requires
        0 <= i < n <= made.len(),
        made[i].0 == "c"@ + text::integer_text(local as int),
        made[i].1.text_at("id"@) == Some(id),
    ensures
        ({
            let r = after_created(locals, creates, made, n);
            &&& r.verdicts.contains(
                VerdictView { local, tally: Tally::Created, entry: EntryView::Resolve, target: Some(id) },
            )
            &&& wanted_default(locals, creates, local as int) ==> r.make_default.contains((local, made[i].0, id))
        }),
    decreases n,
{
    let r = after_created(locals, creates, made, n);
    let was = after_created(locals, creates, made, (n - 1) as nat);
    let v = VerdictView { local, tally: Tally::Created, entry: EntryView::Resolve, target: Some(id) };
    if i == n - 1 {
        common::creation_ids_name_their_object(local);
        assert(r.verdicts[r.verdicts.len() - 1] == v);
        if wanted_default(locals, creates, local as int) {
            assert(r.make_default[r.make_default.len() - 1] == (local, made[i].0, id));
        }
    } else {
        lemma_created_stays(locals, creates, made, (n - 1) as nat, i, local, id);
        let a = choose|a: int| 0 <= a < was.verdicts.len() && was.verdicts[a] == v;
        assert(r.verdicts[a] == v);
        if wanted_default(locals, creates, local as int) {
            let b = choose|b: int| 0 <= b < was.make_default.len() && was.make_default[b] == (local, made[i].0, id);
            assert(r.make_default[b] == (local, made[i].0, id));
        }
    }
}

/// A collection that the target created counts as created, is mapped to the id that the
/// target gave it, and is made the default where it was to be that.
pub proof fn created_collections_are_mapped(
    locals: Seq<(i64, String, bool)>,
    creates: Seq<(int, bool)>,
    made: Seq<(Seq<char>, JsonView)>,
    i: int,
    k: int,
    local: i64,
    id: Seq<char>,
)
    requires
        0 <= i < made.len(),
        0 <= k < creates.len(),
        locals[creates[k].0].0 == local,
        made[i].0 == "c"@ + text::integer_text(local as int),
        made[i].1.text_at("id"@) == Some(id),
    ensures
        ({
            let r = after_created(locals, creates, made, made.len());
            &&& r.verdicts.contains(
                VerdictView { local, tally: Tally::Created, entry: EntryView::Resolve, target: Some(id) },
            )
            &&& creates[k].1 ==> r.make_default.contains((local, made[i].0, id))
        }),
{
    lemma_created_stays(locals, creates, made, made.len(), i, local, id);
}

/// A collection that the target refused counts as failed, with the type and the text of
/// the target's error; what was settled before stays.
pub proof fn refused_collections_get_a_row(
    start: CreateView,
    ty: ObjectType,
    refused: Seq<(Seq<char>, JsonView)>,
    stamp: Seq<char>,
    n: nat,
    i: int,
    local: i64,
    kind: Seq<char>,
)
    requires
        0 <= i < n <= refused.len(),
        refused[i].0 == "c"@ + text::integer_text(local as int),
        refused[i].1.text_at("type"@) == Some(kind),
        kind.len() > 0,
    ensures
        ({
            let r = after_refused(start, ty, refused, stamp, n);
            &&& r.make_default == start.make_default
            &&& exists|k: int|
                0 <= k < r.verdicts.len() && (#[trigger] r.verdicts[k]).local == local && r.verdicts[k].tally
                    == Tally::Failed && r.verdicts[k].entry is Record && r.verdicts[k].entry->0.error_type == kind
                    && r.verdicts[k].entry->0.error_detail == crate::json::json_compact(refused[i].1)
                    && r.verdicts[k].entry->0.client_id == refused[i].0 && r.verdicts[k].entry->0.failed_at == stamp
        }),
    decreases n,
{
    let r = after_refused(start, ty, refused, stamp, n);
    let was = after_refused(start, ty, refused, stamp, (n - 1) as nat);
    lemma_refusals_keep(start, ty, refused, stamp, n);
    if i == n - 1 {
        common::creation_ids_name_their_object(local);
        assert(r.verdicts[r.verdicts.len() - 1].local == local);
    } else {
        refused_collections_get_a_row(start, ty, refused, stamp, (n - 1) as nat, i, local, kind);
        let k = choose|k: int|
            0 <= k < was.verdicts.len() && (#[trigger] was.verdicts[k]).local == local && was.verdicts[k].tally
                == Tally::Failed && was.verdicts[k].entry is Record && was.verdicts[k].entry->0.error_type == kind
                && was.verdicts[k].entry->0.error_detail == crate::json::json_compact(refused[i].1)
                && was.verdicts[k].entry->0.client_id == refused[i].0 && was.verdicts[k].entry->0.failed_at == stamp;
        assert(r.verdicts[k] == was.verdicts[k]);
    }
}

/// Refusals take away nothing that was settled before them.
pub proof fn refusals_keep_what_was_created(
    start: CreateView,
    ty: ObjectType,
    refused: Seq<(Seq<char>, JsonView)>,
    stamp: Seq<char>,
    v: VerdictView,
)
    requires
        start.verdicts.contains(v),
    ensures
        after_refused(start, ty, refused, stamp, refused.len()).verdicts.contains(v),
        after_refused(start, ty, refused, stamp, refused.len()).make_default == start.make_default,
{
    lemma_refusals_keep(start, ty, refused, stamp, refused.len());
    let k = choose|k: int| 0 <= k < start.verdicts.len() && start.verdicts[k] == v;
    assert(after_refused(start, ty, refused, stamp, refused.len()).verdicts[k] == v);
}

proof fn lemma_refusals_keep(
    start: CreateView,
    ty: ObjectType,
    refused: Seq<(Seq<char>, JsonView)>,
    stamp: Seq<char>,
    n: nat,
)
    requires
        n <= refused.len(),
    ensures
        ({
            let r = after_refused(start, ty, refused, stamp, n);
            &&& r.make_default == start.make_default
            &&& r.verdicts.len() >= start.verdicts.len()
            &&& forall|k: int| 0 <= k < start.verdicts.len() ==> #[trigger] r.verdicts[k] == start.verdicts[k]
        }),
    decreases n,
{
    if n > 0 {
        lemma_refusals_keep(start, ty, refused, stamp, (n - 1) as nat);
    }
}

/// Every collection of the target with an id is considered for removal, with what
/// stands against that: that it has a counterpart, that it is the default, and that the
/// target does not let it be deleted.
pub proof fn collections_are_considered_for_removal(
    targets: Seq<JsonView>,
    matched: Seq<Seq<char>>,
    n: nat,
    i: int,
    id: Seq<char>,
)
    requires
        0 <= i < n <= targets.len(),
        targets[i].text_at("id"@) == Some(id),
    ensures
        exists|k: int|
            0 <= k < prune_view(targets, matched, n).len() && #[trigger] prune_view(targets, matched, n)[k] == (
                id,
                matched.contains(id),
                targets[i].bool_at("isDefault"@) == Some(true),
                may_go(targets[i]),
            ),
    decreases n,
{
    let all = prune_view(targets, matched, n);
    let rest = prune_view(targets, matched, (n - 1) as nat);
    let e = (id, matched.contains(id), targets[i].bool_at("isDefault"@) == Some(true), may_go(targets[i]));
    if i == n - 1 {
        assert(all[all.len() - 1] == e);
    } else {
        collections_are_considered_for_removal(targets, matched, (n - 1) as nat, i, id);
        let k = choose|k: int| 0 <= k < rest.len() && #[trigger] rest[k] == e;
        assert(all[k] == rest[k]);
    }
}

/// A collection may be deleted unless the target says that it may not.
pub proof fn rights_decide_on_removal(t: Map<Seq<char>, JsonView>, r: Map<Seq<char>, JsonView>)
    ensures
        ({
            let denied = r.dom().contains("mayDelete"@) && r["mayDelete"@] == JsonView::Bool(false);
            &&& !t.dom().contains("myRights"@) ==> may_go(JsonView::Object(t))
            &&& t.dom().contains("myRights"@) && t["myRights"@] == JsonView::Object(r) ==> may_go(
                JsonView::Object(t),
            ) == !denied
        }),
{
}

/// A plan for address books sets no default. A plan for calendars goes by the one that
/// the archive declares, and an archive that declares two gets none.
pub proof fn plans_go_by_the_declared_default(inp: &FlatInput, r: Result<FlatPlan, Error>, a: int, b: int)
    requires
        call_ensures(reconcile, (inp,), r),
        inp.aligned(),
    ensures
        inp.ty != ObjectType::Calendar ==> r is Ok && r->Ok_0@.inferred is None && r->Ok_0@.matching == matching(
            *inp,
            None,
            inp.locals@.len(),
        ),
        inp.ty == ObjectType::Calendar && 0 <= a < b < inp.locals@.len() && inp.locals@[a].2 && inp.locals@[b].2 ==> r
            is Err && r->Err_0@ is Partial,
        inp.ty == ObjectType::Calendar && 0 <= a < inp.locals@.len() && (forall|k: int|
            0 <= k < inp.locals@.len() ==> ((#[trigger] inp.locals@[k]).2 <==> k == a)) ==> r is Ok
            && r->Ok_0@.inferred is None && r->Ok_0@.matching == matching(
            *inp,
            Some(inp.locals@[a].0),
            inp.locals@.len(),
        ),
{
    if inp.ty == ObjectType::Calendar {
        if 0 <= a < b < inp.locals@.len() && inp.locals@[a].2 && inp.locals@[b].2 {
            two_defaults_are_refused(inp.locals@, inp.target_default() is Some, a, b);
        }
        if 0 <= a < inp.locals@.len() && (forall|k: int|
            0 <= k < inp.locals@.len() ==> ((#[trigger] inp.locals@[k]).2 <==> k == a)) {
            the_declared_calendar_becomes_the_default(inp.locals@, inp.target_default() is Some, a);
        }
    }
}

/// No refusal is lost: each is a row of an object or is counted among those that name
/// none, and what was created is never counted so.
pub proof fn refused_collections_are_all_counted(
    start: CreateView,
    ty: ObjectType,
    refused: Seq<(Seq<char>, JsonView)>,
    stamp: Seq<char>,
    n: nat,
    locals: Seq<(i64, String, bool)>,
    creates: Seq<(int, bool)>,
    made: Seq<(Seq<char>, JsonView)>,
)
    requires
        n <= refused.len(),
    ensures
        ({
            let r = after_refused(start, ty, refused, stamp, n);
            r.verdicts.len() + r.strays == start.verdicts.len() + start.strays + n
        }),
        after_created(locals, creates, made, made.len()).strays == 0,
    decreases n,
{
    lemma_created_no_strays(locals, creates, made, made.len());
    if n > 0 {
        refused_collections_are_all_counted(start, ty, refused, stamp, (n - 1) as nat, locals, creates, made);
    }
}

proof fn lemma_created_no_strays(
    locals: Seq<(i64, String, bool)>,
    creates: Seq<(int, bool)>,
    made: Seq<(Seq<char>, JsonView)>,
    n: nat,
)
    ensures
        after_created(locals, creates, made, n).strays == 0,
    decreases n,
{
    if n > 0 {
        lemma_created_no_strays(locals, creates, made, (n - 1) as nat);
    }
}

} // verus!
