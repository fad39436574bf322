//! A whole export: which kinds are worked on, in which order, and what is removed
//! from the target afterwards.

use vstd::prelude::*;
use vstd::string::*;

use crate::error::{Error, ErrorView};
use crate::json::{Json, JsonObject, JsonView};
use crate::sync::export::common::SetOutcome;
use crate::text;
use crate::types::{ObjectType, TypeCounts};

verus! {

/// The order in which kinds are exported: what others refer to comes first.
pub open spec fn export_order() -> Seq<ObjectType> {
    seq![
        ObjectType::Mailbox,
        ObjectType::AddressBook,
        ObjectType::Calendar,
        ObjectType::FileNode,
        ObjectType::Identity,
        ObjectType::SieveScript,
        ObjectType::ParticipantIdentity,
        ObjectType::Email,
        ObjectType::ContactCard,
        ObjectType::CalendarEvent,
    ]
}

fn order() -> (r: Vec<ObjectType>)
    ensures
        r@ == export_order(),
{
    let r = vec![
        ObjectType::Mailbox,
        ObjectType::AddressBook,
        ObjectType::Calendar,
        ObjectType::FileNode,
        ObjectType::Identity,
        ObjectType::SieveScript,
        ObjectType::ParticipantIdentity,
        ObjectType::Email,
        ObjectType::ContactCard,
        ObjectType::CalendarEvent,
    ];
    assert(r@ =~= export_order());
    r
}

/// Whether a kind is worked on: it is selected, the target supports it, and the
/// archive has objects of it. A run that removes what the archive has no match for
/// also works on a kind that was asked for by name and of which the archive has
/// nothing.
pub open spec fn worked_on(
    t: ObjectType,
    selected: Option<Seq<ObjectType>>,
    archived: Seq<ObjectType>,
    supported: Seq<ObjectType>,
    prune: bool,
) -> bool {
    &&& selected matches Some(s) ==> s.contains(t)
    &&& supported.contains(t)
    &&& archived.contains(t) || (prune && selected is Some)
}

/// The kinds that are worked on, among the first `n` of the order.
pub open spec fn work_of(
    selected: Option<Seq<ObjectType>>,
    archived: Seq<ObjectType>,
    supported: Seq<ObjectType>,
    prune: bool,
    n: nat,
) -> Seq<ObjectType>
    decreases n,
{
    if n == 0 || n > export_order().len() {
        Seq::empty()
    } else {
        let rest = work_of(selected, archived, supported, prune, (n - 1) as nat);
        let t = export_order()[n - 1];
        if worked_on(t, selected, archived, supported, prune) {
            rest.push(t)
        } else {
            rest
        }
    }
}

fn has(list: &Vec<ObjectType>, t: ObjectType) -> (r: bool)
    ensures
        r == list@.contains(t),
{
    let mut i: usize = 0;
    while i < list.len()
        invariant
            i <= list.len(),
            forall|j: int| 0 <= j < i ==> list@[j] != t,
        decreases list.len() - i,
    {
        if list[i] == t {
            return true;
        }
        i += 1;
    }
    false
}

/// The kinds of an optional list.
pub open spec fn opt_types(o: Option<&Vec<ObjectType>>) -> Option<Seq<ObjectType>> {
    match o {
        Some(v) => Some(v@),
        None => None,
    }
}

/// The kinds to work on, in order; see [`work_of`].
pub fn work_list(
    selected: Option<&Vec<ObjectType>>,
    archived: &Vec<ObjectType>,
    supported: &Vec<ObjectType>,
    prune: bool,
) -> (r: Vec<ObjectType>)
    ensures
        r@ == work_of(opt_types(selected), archived@, supported@, prune, export_order().len()),
{
    let all = order();
    let mut out: Vec<ObjectType> = Vec::new();
    let mut i: usize = 0;
    while i < all.len()
        invariant
            all@ == export_order(),
            i <= all.len(),
            out@ == work_of(opt_types(selected), archived@, supported@, prune, i as nat),
        decreases all.len() - i,
    {
        let t = all[i];
        let wanted = match selected {
            Some(s) => has(s, t),
            None => true,
        };
        let present = has(archived, t) || (prune && selected.is_some());
        if wanted && present && has(supported, t) {
            out.push(t);
        }
        i += 1;
    }
    out
}

proof fn lemma_work(
    selected: Option<Seq<ObjectType>>,
    archived: Seq<ObjectType>,
    supported: Seq<ObjectType>,
    prune: bool,
    n: nat,
    t: ObjectType,
)
    requires
        n <= export_order().len(),
    ensures
        work_of(selected, archived, supported, prune, n).contains(t) <==> (export_order().take(n as int).contains(t)
            && worked_on(t, selected, archived, supported, prune)),
    decreases n,
{
    let all = export_order();
    if n == 0 {
        assert(all.take(0) =~= Seq::<ObjectType>::empty());
    } else {
        lemma_work(selected, archived, supported, prune, (n - 1) as nat, t);
        let a = all.take(n - 1);
        let b = all.take(n as int);
        assert(b =~= a.push(all[n - 1]));
        let wa = work_of(selected, archived, supported, prune, (n - 1) as nat);
        let wb = work_of(selected, archived, supported, prune, n);
        if a.contains(t) {
            let i = choose|i: int| 0 <= i < a.len() && a[i] == t;
            assert(b[i] == t);
        }
        if b.contains(t) && !a.contains(t) {
            let i = choose|i: int| 0 <= i < b.len() && b[i] == t;
            if i < n - 1 {
                assert(a[i] == t);
            }
        }
        if t == all[n - 1] {
            assert(b[n - 1] == t);
        }
        if wa.contains(t) {
            let i = choose|i: int| 0 <= i < wa.len() && wa[i] == t;
            assert(wb[i] == t);
        }
        if wb.contains(t) && !wa.contains(t) {
            let i = choose|i: int| 0 <= i < wb.len() && wb[i] == t;
            if i < wa.len() {
                assert(wa[i] == t);
            }
        }
        if t == all[n - 1] && worked_on(t, selected, archived, supported, prune) {
            assert(wb[wb.len() - 1] == t);
        }
    }
}

/// A kind is worked on exactly where it is selected and supported, and is archived
/// or asked for by name in a run that removes what the archive has no match for.
pub proof fn kinds_are_worked_on_as_asked(
    selected: Option<Seq<ObjectType>>,
    archived: Seq<ObjectType>,
    supported: Seq<ObjectType>,
    prune: bool,
    t: ObjectType,
)
    ensures
        work_of(selected, archived, supported, prune, export_order().len()).contains(t) <==> worked_on(
            t,
            selected,
            archived,
            supported,
            prune,
        ),
{
    let all = export_order();
    lemma_work(selected, archived, supported, prune, all.len(), t);
    assert(all.take(all.len() as int) =~= all);
    assert(all.contains(t)) by {
        match t {
            ObjectType::Mailbox => assert(all[0] == t),
            ObjectType::AddressBook => assert(all[1] == t),
            ObjectType::Calendar => assert(all[2] == t),
            ObjectType::FileNode => assert(all[3] == t),
            ObjectType::Identity => assert(all[4] == t),
            ObjectType::SieveScript => assert(all[5] == t),
            ObjectType::ParticipantIdentity => assert(all[6] == t),
            ObjectType::Email => assert(all[7] == t),
            ObjectType::ContactCard => assert(all[8] == t),
            ObjectType::CalendarEvent => assert(all[9] == t),
        }
    }
}

/// The place of a kind in the order.
pub open spec fn rank(t: ObjectType) -> int {
    match t {
        ObjectType::Mailbox => 0,
        ObjectType::AddressBook => 1,
        ObjectType::Calendar => 2,
        ObjectType::FileNode => 3,
        ObjectType::Identity => 4,
        ObjectType::SieveScript => 5,
        ObjectType::ParticipantIdentity => 6,
        ObjectType::Email => 7,
        ObjectType::ContactCard => 8,
        ObjectType::CalendarEvent => 9,
    }
}

/// Kinds are worked on in the order of the export, each once: containers before
/// what they contain.
pub proof fn kinds_are_worked_on_in_order(
    selected: Option<Seq<ObjectType>>,
    archived: Seq<ObjectType>,
    supported: Seq<ObjectType>,
    prune: bool,
    n: nat,
)
    requires
        n <= export_order().len(),
    ensures
        ({
            let w = work_of(selected, archived, supported, prune, n);
            &&& forall|i: int, j: int| 0 <= i < j < w.len() ==> rank(#[trigger] w[i]) < rank(#[trigger] w[j])
            &&& forall|i: int| 0 <= i < w.len() ==> rank(#[trigger] w[i]) < n
        }),
    decreases n,
{
    if n > 0 {
        kinds_are_worked_on_in_order(selected, archived, supported, prune, (n - 1) as nat);
        let w = work_of(selected, archived, supported, prune, (n - 1) as nat);
        let v = work_of(selected, archived, supported, prune, n);
        assert(rank(export_order()[n - 1]) == n - 1);
        assert forall|i: int| 0 <= i < v.len() implies rank(#[trigger] v[i]) < n by {
            if i < w.len() {
                assert(v[i] == w[i]);
            }
        }
        assert forall|i: int, j: int| 0 <= i < j < v.len() implies rank(#[trigger] v[i]) < rank(#[trigger] v[j]) by {
            assert(v[i] == w[i]);
            if j < w.len() {
                assert(v[j] == w[j]);
            }
        }
    }
}

/// Which pass works on a kind.
#[derive(Debug, Clone, Copy, PartialEq, Eq, Structural)]
pub enum Pass {
    Tree,
    Flat,
    Identity,
    Participant,
    Sieve,
    Uid,
    Email,
}

/// The pass for a kind.
pub fn reconcile_type(ty: ObjectType) -> (r: Pass)
    ensures
        r == match ty {
            ObjectType::Mailbox | ObjectType::FileNode => Pass::Tree,
            ObjectType::AddressBook | ObjectType::Calendar => Pass::Flat,
            ObjectType::Identity => Pass::Identity,
            ObjectType::ParticipantIdentity => Pass::Participant,
            ObjectType::SieveScript => Pass::Sieve,
            ObjectType::ContactCard | ObjectType::CalendarEvent => Pass::Uid,
            ObjectType::Email => Pass::Email,
        },
{
    match ty {
        ObjectType::Mailbox | ObjectType::FileNode => Pass::Tree,
        ObjectType::AddressBook | ObjectType::Calendar => Pass::Flat,
        ObjectType::Identity => Pass::Identity,
        ObjectType::ParticipantIdentity => Pass::Participant,
        ObjectType::SieveScript => Pass::Sieve,
        ObjectType::ContactCard | ObjectType::CalendarEvent => Pass::Uid,
        ObjectType::Email => Pass::Email,
    }
}

/// What a pass leaves to be done: objects of the target to remove, and the
/// script that is active there.
pub struct Plan {
    pub prune_candidates: Vec<String>,
    pub active_sieve_target: Option<String>,
}

impl Default for Plan {
    fn default() -> (r: Plan)
        ensures
            r.prune_candidates@.len() == 0,
            r.active_sieve_target is None,
    {
        Plan { prune_candidates: Vec::new(), active_sieve_target: None }
    }
}

/// The plan of a pass. One that gave up part way leaves nothing to be done, and
/// counts as one failure.
pub fn settle_pass(result: Result<Plan, Error>, counts: &mut TypeCounts) -> (r: Plan)
    requires
        old(counts).room(1),
    ensures
        match result {
            Ok(p) => r == p && *final(counts) == *old(counts),
            Err(_) => r.prune_candidates@.len() == 0 && r.active_sieve_target is None && *final(counts)
                == (TypeCounts { failed: (old(counts).failed + 1) as u64, ..*old(counts) }),
        },
{
    match result {
        Ok(p) => p,
        Err(_) => {
            counts.failed = counts.failed + 1;
            Plan::default()
        },
    }
}

/// The number of objects to remove, over the first `n` plans.
pub open spec fn total_of(plans: Seq<Plan>, n: nat) -> nat
    decreases n,
{
    if n == 0 || n > plans.len() {
        0
    } else {
        total_of(plans, (n - 1) as nat) + plans[n - 1].prune_candidates@.len()
    }
}

/// The number of objects to remove.
pub fn prune_total(plans: &Vec<Plan>) -> (r: u128)
    ensures
        r == total_of(plans@, plans@.len()),
{
    let mut total: u128 = 0;
    let mut i: usize = 0;
    while i < plans.len()
        invariant
            i <= plans.len(),
            total == total_of(plans@, i as nat),
            total <= i * (usize::MAX as u128),
        decreases plans.len() - i,
    {
        proof {
            let a = i as int;
            let b = plans@.len() as int;
            let m = usize::MAX as int;
            assert(a * m + m == (a + 1) * m) by (nonlinear_arith);
            assert((a + 1) * m <= b * m && b * m <= m * m) by (nonlinear_arith)
                requires
                    0 <= a < b <= m,
            ;
            assert(m * m <= 0xffff_ffff_ffff_ffff * 0xffff_ffff_ffff_ffff) by (nonlinear_arith)
                requires
                    0 <= m <= 0xffff_ffff_ffff_ffff,
            ;
        }
        total = total + plans[i].prune_candidates.len() as u128;
        i += 1;
    }
    total
}

/// What is done about the objects to remove.
#[derive(Debug, Clone, Copy, PartialEq, Eq, Structural)]
pub enum PruneStep {
    /// There is nothing to remove, or nothing is to be changed.
    Nothing,
    /// The user is asked.
    Ask,
    Destroy,
}

/// Decides whether objects are removed: only where that was asked for, there are
/// any, the run is not a dry one, and the user agreed beforehand or cannot be asked.
pub fn prune_phase(plans: &Vec<Plan>, prune: bool, dry_run: bool, yes: bool, terminal: bool) -> (r: PruneStep)
    ensures
        r == if !prune || total_of(plans@, plans@.len()) == 0 || dry_run {
            PruneStep::Nothing
        } else if !yes && terminal {
            PruneStep::Ask
        } else {
            PruneStep::Destroy
        },
{
    if !prune || prune_total(plans) == 0 || dry_run {
        PruneStep::Nothing
    } else if !yes && terminal {
        PruneStep::Ask
    } else {
        PruneStep::Destroy
    }
}

/// Whether an answer agrees.
pub open spec fn agrees(line: Seq<char>) -> bool {
    let t = text::trim_text(line);
    t == "y"@ || t == "Y"@ || t == "yes"@
}

/// Whether an answer, without the whitespace around it, agrees.
pub fn answer_agrees(trimmed: &str) -> (r: bool)
    ensures
        r == (trimmed@ == "y"@ || trimmed@ == "Y"@ || trimmed@ == "yes"@),
{
    text::same(trimmed, "y") || text::same(trimmed, "Y") || text::same(trimmed, "yes")
}

/// What follows from the user's answer: removal, or the end of the run.
pub fn confirm(line: &str) -> (r: Result<(), Error>)
    ensures
        match r {
            Ok(_) => agrees(line@),
            Err(e) => !agrees(line@) && e@ == ErrorView::PruneAborted,
        },
{
    if answer_agrees(text::trim(line).as_str()) {
        Ok(())
    } else {
        Err(Error::PruneAborted)
    }
}

/// The places of the plans with something to remove, last first.
pub open spec fn destroy_order(plans: Seq<Plan>, n: nat) -> Seq<int>
    decreases n,
{
    if n == 0 || n > plans.len() {
        Seq::empty()
    } else if plans[n - 1].prune_candidates@.len() > 0 {
        seq![n - 1] + destroy_order(plans, (n - 1) as nat)
    } else {
        destroy_order(plans, (n - 1) as nat)
    }
}

/// The order in which objects are removed: what is contained before what contains
/// it. See [`destroy_order`].
pub fn removal_order(plans: &Vec<Plan>) -> (r: Vec<usize>)
    ensures
        Seq::new(r@.len(), |i: int| r@[i] as int) == destroy_order(plans@, plans@.len()),
{
    let mut out: Vec<usize> = Vec::new();
    let mut n: usize = plans.len();
    let ghost whole = destroy_order(plans@, plans@.len());
    assert(Seq::new(out@.len(), |i: int| out@[i] as int) + destroy_order(plans@, n as nat) =~= whole);
    while n > 0
        invariant
            n <= plans.len(),
            Seq::new(out@.len(), |i: int| out@[i] as int) + destroy_order(plans@, n as nat) == whole,
        decreases n,
    {
        let ghost was = Seq::new(out@.len(), |i: int| out@[i] as int);
        let ghost rest = destroy_order(plans@, (n - 1) as nat);
        if plans[n - 1].prune_candidates.len() > 0 {
            out.push(n - 1);
            assert(Seq::new(out@.len(), |i: int| out@[i] as int) =~= was.push(n - 1));
            assert(was.push(n - 1) + rest =~= was + (seq![n - 1] + rest));
        }
        n -= 1;
    }
    assert(Seq::new(out@.len(), |i: int| out@[i] as int) =~= whole);
    out
}

/// Objects are removed in the reverse of the order in which they are exported.
pub proof fn removal_goes_backwards(plans: Seq<Plan>, n: nat)
    requires
        n <= plans.len(),
    ensures
        ({
            let d = destroy_order(plans, n);
            &&& forall|i: int, j: int| 0 <= i < j < d.len() ==> #[trigger] d[i] > #[trigger] d[j]
            &&& forall|i: int| 0 <= i < d.len() ==> 0 <= #[trigger] d[i] < n
        }),
    decreases n,
{
    if n > 0 {
        removal_goes_backwards(plans, (n - 1) as nat);
        let d = destroy_order(plans, n);
        let e = destroy_order(plans, (n - 1) as nat);
        if plans[n - 1].prune_candidates@.len() > 0 {
            assert forall|i: int| 0 < i < d.len() implies #[trigger] d[i] == e[i - 1] by {}
        }
    }
}

/// What keeps the contents of a removed container.
pub open spec fn keep_contents(ty: ObjectType) -> Option<Seq<char>> {
    match ty {
        ObjectType::AddressBook => Some("onDestroyRemoveContents"@),
        ObjectType::Calendar => Some("onDestroyRemoveEvents"@),
        ObjectType::FileNode => Some("onDestroyRemoveChildren"@),
        _ => None,
    }
}

/// The argument, set to false, that keeps the contents of removed containers;
/// see [`keep_contents`].
pub fn destroy_contents_arg(ty: ObjectType) -> (r: Option<&'static str>)
    ensures
        text::opt_str(r) == keep_contents(ty),
{
    match ty {
        ObjectType::AddressBook => Some("onDestroyRemoveContents"),
        ObjectType::Calendar => Some("onDestroyRemoveEvents"),
        ObjectType::FileNode => Some("onDestroyRemoveChildren"),
        _ => None,
    }
}

/// The arguments of the call that removes objects.
pub open spec fn destroy_args(account: Seq<char>, ty: ObjectType, ids: Seq<Seq<char>>) -> Map<
    Seq<char>,
    JsonView,
> {
    let m = Map::<Seq<char>, JsonView>::empty().insert("accountId"@, JsonView::Str(account)).insert(
        "destroy"@,
        JsonView::Array(Seq::new(ids.len(), |i: int| JsonView::Str(ids[i]))),
    );
    match keep_contents(ty) {
        Some(k) => m.insert(k, JsonView::Bool(false)),
        None => m,
    }
}

/// See [`destroy_args`].
pub fn do_destroy(account: &str, ty: ObjectType, plan: &Plan) -> (r: JsonObject)
    ensures
        r@ == destroy_args(account@, ty, text::texts(plan.prune_candidates@)),
{
    let mut ids: Vec<Json> = Vec::new();
    let mut i: usize = 0;
    while i < plan.prune_candidates.len()
        invariant
            i <= plan.prune_candidates.len(),
            ids.len() == i,
            forall|j: int| 0 <= j < i ==> (#[trigger] ids@[j])@ == JsonView::Str(plan.prune_candidates@[j]@),
        decreases plan.prune_candidates.len() - i,
    {
        ids.push(Json::text(plan.prune_candidates[i].as_str()));
        i += 1;
    }
    let list = Json::Array(ids);
    let ghost all = text::texts(plan.prune_candidates@);
    assert(list@->Array_0 =~= Seq::new(all.len(), |i: int| JsonView::Str(all[i])));
    let mut o = JsonObject::new();
    o.insert("accountId".to_owned(), Json::text(account));
    o.insert("destroy".to_owned(), list);
    match destroy_contents_arg(ty) {
        Some(k) => {
            o.insert(k.to_owned(), Json::Bool(false));
        },
        None => {},
    }
    o
}

/// The counters after a removal: objects that are gone, those that stay, and all of
/// them as failed where the call could not be made.
pub open spec fn removed(c: TypeCounts, asked: nat, outcome: Result<SetOutcome, String>) -> TypeCounts {
    match outcome {
        Ok(o) => TypeCounts {
            deleted: (c.deleted + o.destroyed@.len()) as u64,
            skipped: (c.skipped + o.not_destroyed@.len()) as u64,
            ..c
        },
        Err(_) => TypeCounts { failed: (c.failed + asked) as u64, ..c },
    }
}

/// Counts how a removal went; see [`removed`].
pub fn count_destroyed(counts: &mut TypeCounts, asked: usize, outcome: &Result<SetOutcome, String>)
    requires
        old(counts).room(asked as int),
        outcome matches Ok(o) ==> old(counts).room(o.destroyed@.len() as int) && old(counts).room(
            o.not_destroyed@.len() as int,
        ),
    ensures
        *final(counts) == removed(*old(counts), asked as nat, *outcome),
{
    match outcome {
        Ok(o) => {
            counts.deleted = counts.deleted + o.destroyed.len() as u64;
            counts.skipped = counts.skipped + o.not_destroyed.len() as u64;
        },
        Err(_) => {
            counts.failed = counts.failed + asked as u64;
        },
    }
}

/// The first few of some ids, for the user.
pub open spec fn sample_text(ids: Seq<Seq<char>>) -> Seq<char> {
    text::join_text(
        ids.take(
            if ids.len() < 5 {
                ids.len() as int
            } else {
                5
            },
        ),
        ", "@,
    )
}

/// See [`sample_text`].
pub fn sample(ids: &Vec<String>) -> (r: String)
    ensures
        r@ == sample_text(text::texts(ids@)),
{
    let mut first: Vec<String> = Vec::new();
    let ghost all = text::texts(ids@);
    let mut i: usize = 0;
    while i < ids.len() && i < 5
        invariant
            i <= ids.len(),
            i <= 5,
            all == text::texts(ids@),
            text::texts(first@) == all.take(i as int),
        decreases ids.len() - i,
    {
        let ghost was = text::texts(first@);
        first.push(ids[i].as_str().to_owned());
        assert(text::texts(first@) =~= was.push(all[i as int]));
        assert(all.take(i + 1) =~= all.take(i as int).push(all[i as int]));
        i += 1;
    }
    text::join(&first, ", ")
}

/// A line of the plan of removal: how many objects of a kind, and which.
pub open spec fn plan_line(ty: ObjectType, p: Plan) -> Seq<char> {
    "  "@ + text::filled_right(ty.jmap(), 22) + (" "@ + text::filled_left(
        text::decimal_text(p.prune_candidates@.len()),
        6,
    ) + (" candidate(s); sample: "@ + sample_text(text::texts(p.prune_candidates@))))
}

/// See [`plan_line`].
pub fn prune_plan_line(ty: ObjectType, p: &Plan) -> (r: String)
    ensures
        r@ == plan_line(ty, *p),
{
    let count = text::decimal(p.prune_candidates.len() as u128);
    let tail = text::joined(" candidate(s); sample: ", sample(&p.prune_candidates).as_str());
    let rest = text::joined3(" ", text::fill_left(count.as_str(), 6).as_str(), tail.as_str());
    text::joined3("  ", text::fill_right(ty.jmap_name(), 22).as_str(), rest.as_str())
}

/// The arguments of the call that leaves no script active, which is made before
/// scripts are removed: an active script cannot be.
pub fn deactivate_active_sieve_script(account: &str) -> (r: JsonObject)
    ensures
        r@ == Map::<Seq<char>, JsonView>::empty().insert("accountId"@, JsonView::Str(account@)).insert(
            "onSuccessDeactivateScript"@,
            JsonView::Bool(true),
        ),
{
    let mut o = JsonObject::new();
    o.insert("accountId".to_owned(), Json::text(account));
    o.insert("onSuccessDeactivateScript".to_owned(), Json::Bool(true));
    o
}

/// A line of the table that shows what a run would do: the kind, and how many
/// objects would be created, are there already, and would be removed.
pub struct DryRow {
    pub ty: ObjectType,
    pub created: u64,
    pub matched: u64,
    pub removed: u64,
}

/// A kind and two numbers in columns.
pub open spec fn columns(name: Seq<char>, a: Seq<char>, b: Seq<char>) -> Seq<char> {
    text::filled_right(name, 22) + " "@ + (text::filled_left(a, 10) + " "@ + text::filled_left(b, 10))
}

/// A line of the table.
pub open spec fn dry_line(r: DryRow, prune: bool) -> Seq<char> {
    let c = columns(
        r.ty.jmap(),
        text::decimal_text(r.created as nat),
        text::decimal_text(r.matched as nat),
    );
    if prune {
        c + " "@ + text::filled_left(text::decimal_text(r.removed as nat), 12)
    } else {
        c
    }
}

/// The head of the table.
pub open spec fn dry_head(prune: bool) -> Seq<char> {
    let c = columns("TYPE"@, "CREATE"@, "MATCHED"@);
    if prune {
        c + " "@ + text::filled_left("WOULD-DESTROY"@, 12)
    } else {
        c
    }
}

fn write_columns(name: &str, a: &str, b: &str) -> (r: String)
    ensures
        r@ == columns(name@, a@, b@),
{
    let tail = text::joined3(text::fill_left(a, 10).as_str(), " ", text::fill_left(b, 10).as_str());
    text::joined3(text::fill_right(name, 22).as_str(), " ", tail.as_str())
}

/// The table that shows what a run would do: a head and a line for each kind.
pub fn print_dry_run(rows: &Vec<DryRow>, prune: bool) -> (r: Vec<String>)
    ensures
        text::texts(r@) == seq![dry_head(prune)] + Seq::new(rows@.len(), |i: int| dry_line(rows@[i], prune)),
{
    let mut out: Vec<String> = Vec::new();
    let head = write_columns("TYPE", "CREATE", "MATCHED");
    if prune {
        out.push(text::joined3(head.as_str(), " ", text::fill_left("WOULD-DESTROY", 12).as_str()));
    } else {
        out.push(head);
    }
    let mut i: usize = 0;
    while i < rows.len()
        invariant
            i <= rows.len(),
            out.len() == i + 1,
            out@[0]@ == dry_head(prune),
            forall|j: int| 0 <= j < i ==> (#[trigger] out@[j + 1])@ == dry_line(rows@[j], prune),
        decreases rows.len() - i,
    {
        let row = &rows[i];
        let line = write_columns(
            row.ty.jmap_name(),
            text::decimal(row.created as u128).as_str(),
            text::decimal(row.matched as u128).as_str(),
        );
        let full = if prune {
            text::joined3(
                line.as_str(),
                " ",
                text::fill_left(text::decimal(row.removed as u128).as_str(), 12).as_str(),
            )
        } else {
            line
        };
        let ghost was = out@;
        out.push(full);
        assert forall|j: int| 0 <= j < i + 1 implies (#[trigger] out@[j + 1])@ == dry_line(rows@[j], prune) by {
            if j < i {
                assert(out@[j + 1] == was[j + 1]);
            }
        }
        i += 1;
    }
    let ghost want = seq![dry_head(prune)] + Seq::new(rows@.len(), |i: int| dry_line(rows@[i], prune));
    assert forall|k: int| 0 <= k < want.len() implies text::texts(out@)[k] == want[k] by {
        if k > 0 {
            assert(out@[(k - 1) + 1]@ == dry_line(rows@[k - 1], prune));
        }
    }
    assert(text::texts(out@) =~= want);
    out
}

/// What a run came to.
pub struct Summary {
    pub per_type: Vec<(ObjectType, TypeCounts)>,
    pub unrecorded_failures: Vec<String>,
    pub retries_observed: u64,
    pub retry_after_sleeps: u64,
}

/// A run: the kinds to work on, and for each that has been worked on, its plan
/// and its counters.
pub struct Run {
    pub work: Vec<ObjectType>,
    pub plans: Vec<Plan>,
    pub counts: Vec<TypeCounts>,
    pub dry_rows: Vec<DryRow>,
    pub unrecorded_failures: Vec<String>,
}

impl Run {
    /// There is one plan for each kind that has counters, and no more of them than
    /// kinds.
    pub open spec fn wf(self) -> bool {
        self.plans@.len() == self.counts@.len() && self.plans@.len() <= self.work@.len()
    }

    /// A run with nothing done yet.
    pub fn begin(work: Vec<ObjectType>) -> (r: Run)
        ensures
            r.wf(),
            r.work == work,
            r.plans@.len() == 0,
            r.dry_rows@.len() == 0,
            r.unrecorded_failures@.len() == 0,
    {
        Run {
            work,
            plans: Vec::new(),
            counts: Vec::new(),
            dry_rows: Vec::new(),
            unrecorded_failures: Vec::new(),
        }
    }

    /// The kind to work on next.
    pub fn next_kind(&self) -> (r: Option<ObjectType>)
        requires
            self.wf(),
        ensures
            r == if self.plans@.len() < self.work@.len() {
                Some(self.work@[self.plans@.len() as int])
            } else {
                None
            },
    {
        if self.plans.len() < self.work.len() {
            Some(self.work[self.plans.len()])
        } else {
            None
        }
    }

    /// Takes in how the pass over the next kind went. A dry run keeps a line for
    /// the table of each pass that did not give up.
    pub fn finish_kind(
        &mut self,
        result: Result<Plan, Error>,
        counts: TypeCounts,
        unrecorded: Option<String>,
        dry_run: bool,
    )
        requires
            old(self).wf(),
            old(self).plans@.len() < old(self).work@.len(),
            counts.room(1),
        ensures
            final(self).wf(),
            final(self).work == old(self).work,
            final(self).plans@.len() == old(self).plans@.len() + 1,
            final(self).plans@.drop_last() == old(self).plans@,
            final(self).counts@.drop_last() == old(self).counts@,
            final(self).unrecorded_failures@ == match unrecorded {
                Some(u) => old(self).unrecorded_failures@.push(u),
                None => old(self).unrecorded_failures@,
            },
            match result {
                Ok(p) => final(self).plans@.last() == p && final(self).counts@.last() == counts
                    && final(self).dry_rows@ == if dry_run {
                    old(self).dry_rows@.push(
                        DryRow {
                            ty: old(self).work@[old(self).plans@.len() as int],
                            created: counts.created,
                            matched: counts.skipped,
                            removed: p.prune_candidates@.len() as u64,
                        },
                    )
                } else {
                    old(self).dry_rows@
                },
                Err(_) => final(self).plans@.last().prune_candidates@.len() == 0
                    && final(self).plans@.last().active_sieve_target is None && final(self).counts@.last() == (
                TypeCounts { failed: (counts.failed + 1) as u64, ..counts }) && final(self).dry_rows@ == old(
                    self,
                ).dry_rows@,
            },
    {
        let mut counts = counts;
        match &result {
            Ok(p) => {
                if dry_run {
                    self.dry_rows.push(
                        DryRow {
                            ty: self.work[self.plans.len()],
                            created: counts.created,
                            matched: counts.skipped,
                            removed: p.prune_candidates.len() as u64,
                        },
                    );
                }
            },
            Err(_) => {},
        }
        let plan = settle_pass(result, &mut counts);
        self.plans.push(plan);
        self.counts.push(counts);
        match unrecorded {
            Some(u) => self.unrecorded_failures.push(u),
            None => {},
        }
        assert(self.plans@.drop_last() =~= old(self).plans@);
        assert(self.counts@.drop_last() =~= old(self).counts@);
    }

    /// Takes in how the removal of the objects of a kind went; see [`removed`].
    pub fn finish_removal(&mut self, i: usize, outcome: &Result<SetOutcome, String>)
        requires
            old(self).wf(),
            i < old(self).counts@.len(),
            old(self).counts@[i as int].room(old(self).plans@[i as int].prune_candidates@.len() as int),
            outcome matches Ok(o) ==> old(self).counts@[i as int].room(o.destroyed@.len() as int) && old(
                self,
            ).counts@[i as int].room(o.not_destroyed@.len() as int),
        ensures
            final(self).wf(),
            final(self).work == old(self).work,
            final(self).plans == old(self).plans,
            final(self).dry_rows == old(self).dry_rows,
            final(self).unrecorded_failures == old(self).unrecorded_failures,
            final(self).counts@ == old(self).counts@.update(
                i as int,
                removed(
                    old(self).counts@[i as int],
                    old(self).plans@[i as int].prune_candidates@.len(),
                    *outcome,
                ),
            ),
    {
        let asked: usize = self.plans[i].prune_candidates.len();
        let mut counts: TypeCounts = self.counts[i];
        count_destroyed(&mut counts, asked, outcome);
        self.counts.set(i, counts);
    }
}

/// Sums up a run: the counters of each kind that was worked on, in order, and
/// the failures that could not be recorded. A dry run sums up to nothing.
pub fn run(done: Run, retries: u64, sleeps: u64, dry_run: bool) -> (r: Summary)
    requires
        done.wf(),
    ensures
        dry_run ==> r.per_type@.len() == 0 && r.unrecorded_failures@.len() == 0 && r.retries_observed == 0
            && r.retry_after_sleeps == 0,
        !dry_run ==> r.per_type@ == Seq::new(done.counts@.len(), |i: int| (done.work@[i], done.counts@[i]))
            && r.unrecorded_failures == done.unrecorded_failures && r.retries_observed == retries
            && r.retry_after_sleeps == sleeps,
{
    if dry_run {
        return Summary {
            per_type: Vec::new(),
            unrecorded_failures: Vec::new(),
            retries_observed: 0,
            retry_after_sleeps: 0,
        };
    }
    let mut per_type: Vec<(ObjectType, TypeCounts)> = Vec::new();
    let mut i: usize = 0;
    while i < done.counts.len()
        invariant
            done.wf(),
            i <= done.counts.len(),
            per_type@ == Seq::new(i as nat, |i: int| (done.work@[i], done.counts@[i])),
        decreases done.counts.len() - i,
    {
        per_type.push((done.work[i], done.counts[i]));
        i += 1;
        assert(per_type@ =~= Seq::new(i as nat, |i: int| (done.work@[i], done.counts@[i])));
    }
    Summary {
        per_type,
        unrecorded_failures: done.unrecorded_failures,
        retries_observed: retries,
        retry_after_sleeps: sleeps,
    }
}

} // verus!
