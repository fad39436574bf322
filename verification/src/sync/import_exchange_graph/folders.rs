//! Folders: mail folders, calendars and address books.

use std::collections::{HashMap, HashSet};
use vstd::hash_set::StringHashSet;
use vstd::prelude::*;
use vstd::string::*;

use crate::error::{Error, ErrorView};
use crate::exchange::tz;
use crate::exchange_graph::calendar_map::{color_hex, graph_calendar_color_to_hex, windows_or_iana_to_iana};
use crate::json::{views, Json, JsonObject, JsonView};
use crate::sync::order::{
    in_order, key_values, left, lemma_left, lemma_left_bound, places, smaller_keys_come_first, stable_order,
};
use crate::text;
use crate::types::TypeCounts;

verus! {

broadcast use vstd::std_specs::hash::group_hash_axioms;

/// The place of the last of the first `n` entries with an id.
pub open spec fn last_with_id(entries: Seq<JsonView>, id: Seq<char>, n: nat) -> Option<int>
    decreases n,
{
    if n == 0 {
        None
    } else if entries[n - 1].text_at("id"@) == Some(id) {
        Some(n - 1)
    } else {
        last_with_id(entries, id, (n - 1) as nat)
    }
}

/// The entry that an id stands for; the last one, where several have it.
pub open spec fn entry_of(entries: Seq<JsonView>, id: Seq<char>) -> Option<int> {
    last_with_id(entries, id, entries.len())
}

/// The id of an entry; empty where it has none.
pub open spec fn id_of(entry: JsonView) -> Seq<char> {
    match entry.text_at("id"@) {
        Some(id) => id,
        None => ""@,
    }
}

/// For each entry, the one that its parent's id stands for.
pub open spec fn parents_of(entries: Seq<JsonView>) -> Seq<Option<int>> {
    Seq::new(
        entries.len(),
        |i: int|
            match entries[i].text_at("parentFolderId"@) {
                Some(p) => entry_of(entries, p),
                None => None,
            },
    )
}

/// For each entry, the one that its own id stands for.
pub open spec fn nodes_of(entries: Seq<JsonView>) -> Seq<Option<int>> {
    Seq::new(entries.len(), |i: int| entry_of(entries, id_of(entries[i])))
}

/// The depth of an entry and the depths known afterwards: one more than that of
/// its parent, none for an entry without one. `seen` marks the entries that the
/// way up has passed; coming back to one of them ends it.
pub open spec fn climbed(k: int, parents: Seq<Option<int>>, known: Seq<Option<nat>>, seen: Seq<bool>) -> (
    nat,
    Seq<Option<nat>>,
)
    decreases left(seen),
{
    if !(0 <= k < parents.len() && known.len() == parents.len() && seen.len() == parents.len()) {
        (0, known)
    } else if known[k] is Some {
        (known[k]->0, known)
    } else if seen[k] {
        (0, known)
    } else {
        match parents[k] {
            Some(p) => {
                proof {
                    lemma_left(seen, k);
                }
                let (d, m) = climbed(p, parents, known, seen.update(k, true));
                (d + 1, m.update(k, Some(d + 1)))
            },
            None => (0, known.update(k, Some(0))),
        }
    }
}

/// Nothing known, or nothing seen, of `n` entries.
pub open spec fn nothing_known(n: nat) -> Seq<Option<nat>> {
    Seq::new(n, |i: int| None)
}

/// See [`nothing_known`].
pub open spec fn nothing_seen(n: nat) -> Seq<bool> {
    Seq::new(n, |i: int| false)
}

/// The depths of the first `n` entries and what is known afterwards.
pub open spec fn depths(parents: Seq<Option<int>>, nodes: Seq<Option<int>>, n: nat) -> (
    Seq<int>,
    Seq<Option<nat>>,
)
    decreases n,
{
    if n == 0 {
        (Seq::empty(), nothing_known(parents.len()))
    } else {
        let (before, known) = depths(parents, nodes, (n - 1) as nat);
        match nodes[n - 1] {
            Some(k) => {
                let (d, m) = climbed(k, parents, known, nothing_seen(parents.len()));
                (before.push(d as int), m)
            },
            None => (before.push(0), known),
        }
    }
}

/// The depths of the entries of a listing.
pub open spec fn entry_depths(entries: Seq<JsonView>) -> Seq<int> {
    depths(parents_of(entries), nodes_of(entries), entries.len()).0
}

/// The entries at some places.
pub open spec fn taken(entries: Seq<JsonView>, order: Seq<int>) -> Seq<JsonView> {
    Seq::new(order.len(), |i: int| entries[order[i]])
}

/// Whether `out` is a listing in the order of its depths.
pub open spec fn arranged(entries: Seq<JsonView>, out: Seq<JsonView>) -> bool {
    exists|order: Seq<int>| in_order(entry_depths(entries), order) && #[trigger] taken(entries, order) == out
}

/// Whether parents are places of the listing.
pub open spec fn in_range(parents: Seq<Option<int>>) -> bool {
    forall|k: int| 0 <= k < parents.len() ==> match #[trigger] parents[k] {
        Some(p) => 0 <= p < parents.len(),
        None => true,
    }
}

spec fn marks(known: Seq<Option<nat>>) -> Seq<bool> {
    Seq::new(known.len(), |i: int| known[i] is Some)
}

spec fn filled(known: Seq<Option<nat>>) -> int {
    known.len() - left(marks(known))
}

spec fn bounded(known: Seq<Option<nat>>) -> bool {
    forall|i: int| 0 <= i < known.len() && #[trigger] known[i] is Some ==> known[i]->0 <= filled(known)
}

proof fn lemma_filled(known: Seq<Option<nat>>, k: int, d: nat)
    requires
        0 <= k < known.len(),
        known[k] is None,
    ensures
        filled(known.update(k, Some(d))) == filled(known) + 1,
{
    lemma_left(marks(known), k);
    assert(marks(known.update(k, Some(d))) =~= marks(known).update(k, true));
}

proof fn lemma_climb_bound(k: int, parents: Seq<Option<int>>, known: Seq<Option<nat>>, seen: Seq<bool>)
    requires
        0 <= k < parents.len(),
        known.len() == parents.len(),
        seen.len() == parents.len(),
        in_range(parents),
        bounded(known),
    ensures
        ({
            let (d, m) = climbed(k, parents, known, seen);
            &&& m.len() == known.len()
            &&& bounded(m)
            &&& d <= filled(m)
            &&& filled(known) <= filled(m)
            &&& forall|j: int|
                0 <= j < known.len() && seen[j] && #[trigger] known[j] is None ==> m[j] is None
        }),
    decreases left(seen),
{
    lemma_left_bound(marks(known));
    if known[k] is Some || seen[k] {
    } else {
        match parents[k] {
            Some(p) => {
                lemma_left(seen, k);
                let inner = seen.update(k, true);
                lemma_climb_bound(p, parents, known, inner);
                let (d, m) = climbed(p, parents, known, inner);
                assert(inner[k] && known[k] is None);
                assert(m[k] is None);
                lemma_filled(m, k, d + 1);
                let r = m.update(k, Some(d + 1));
                assert forall|i: int| 0 <= i < r.len() && #[trigger] r[i] is Some implies r[i]->0 <= filled(
                    r,
                ) by {
                    if i != k {
                        assert(m[i] is Some);
                    }
                }
                assert forall|j: int|
                    0 <= j < known.len() && seen[j] && #[trigger] known[j] is None implies r[j] is None by {
                    assert(inner[j]);
                }
            },
            None => {
                lemma_filled(known, k, 0);
                let r = known.update(k, Some(0nat));
                assert forall|i: int| 0 <= i < r.len() && #[trigger] r[i] is Some implies r[i]->0 <= filled(
                    r,
                ) by {
                    if i != k {
                        assert(known[i] is Some);
                    }
                }
            },
        }
    }
}

/// The places of parents as numbers.
pub open spec fn opt_places(v: Seq<Option<usize>>) -> Seq<Option<int>> {
    Seq::new(
        v.len(),
        |i: int|
            match v[i] {
                Some(p) => Some(p as int),
                None => None,
            },
    )
}

/// Known depths as numbers.
pub open spec fn opt_depths(v: Seq<Option<u128>>) -> Seq<Option<nat>> {
    Seq::new(
        v.len(),
        |i: int|
            match v[i] {
                Some(d) => Some(d as nat),
                None => None,
            },
    )
}

/// The depth of an entry; see [`climbed`].
fn climb(k: usize, parents: &Vec<Option<usize>>, known: &mut Vec<Option<u128>>, seen: &mut Vec<bool>) -> (d:
    u128)
    requires
        k < parents@.len(),
        old(known)@.len() == parents@.len(),
        old(seen)@.len() == parents@.len(),
        in_range(opt_places(parents@)),
        bounded(opt_depths(old(known)@)),
    ensures
        final(known)@.len() == parents@.len(),
        final(seen)@.len() == parents@.len(),
        (d as nat, opt_depths(final(known)@)) == climbed(
            k as int,
            opt_places(parents@),
            opt_depths(old(known)@),
            old(seen)@,
        ),
    decreases left(old(seen)@),
{
    let ghost ups = opt_places(parents@);
    let ghost memo = opt_depths(known@);
    let ghost marked = seen@;
    proof {
        lemma_climb_bound(k as int, ups, memo, marked);
        assert(ups[k as int] == match parents@[k as int] {
            Some(p) => Some(p as int),
            None => None::<int>,
        });
        assert(memo[k as int] == match known@[k as int] {
            Some(d) => Some(d as nat),
            None => None::<nat>,
        });
    }
    match known[k] {
        Some(d) => {
            return d;
        },
        None => {},
    }
    if seen[k] {
        return 0;
    }
    match parents[k] {
        Some(p) => {
            proof {
                lemma_left(marked, k as int);
                assert(0 <= ups[k as int]->0 < ups.len());
            }
            seen.set(k, true);
            proof {
                lemma_climb_bound(p as int, ups, memo, marked.update(k as int, true));
            }
            let d: u128 = climb(p, parents, known, seen);
            proof {
                lemma_left_bound(marks(opt_depths(known@)));
                assert(d <= known.len());
            }
            let e: u128 = d + 1;
            let ghost m = opt_depths(known@);
            known.set(k, Some(e));
            assert(opt_depths(known@) =~= m.update(k as int, Some(e as nat)));
            e
        },
        None => {
            known.set(k, Some(0));
            assert(opt_depths(known@) =~= memo.update(k as int, Some(0nat)));
            0
        },
    }
}

/// The entry that an id stands for; see [`entry_of`].
fn find_entry(entries: &Vec<Json>, id: &str) -> (r: Option<usize>)
    ensures
        match r {
            Some(i) => i < entries@.len() && entry_of(views(entries@), id@) == Some(i as int),
            None => entry_of(views(entries@), id@) is None,
        },
{
    let ghost all = views(entries@);
    let mut n: usize = entries.len();
    while n > 0
        invariant
            n <= entries.len(),
            all == views(entries@),
            entry_of(all, id@) == last_with_id(all, id@, n as nat),
        decreases n,
    {
        assert(all[n - 1] == entries@[n - 1]@);
        match entries[n - 1].str_at("id") {
            Some(x) => {
                if text::same(x, id) {
                    return Some(n - 1);
                }
            },
            None => {},
        }
        n -= 1;
    }
    None
}

proof fn lemma_entry(entries: Seq<JsonView>, id: Seq<char>, n: nat)
    requires
        n <= entries.len(),
    ensures
        match last_with_id(entries, id, n) {
            Some(i) => 0 <= i < n && entries[i].text_at("id"@) == Some(id),
            None => forall|i: int| 0 <= i < n ==> (#[trigger] entries[i]).text_at("id"@) != Some(id),
        },
    decreases n,
{
    if n > 0 {
        lemma_entry(entries, id, (n - 1) as nat);
    }
}

proof fn lemma_in_range(entries: Seq<JsonView>)
    ensures
        in_range(parents_of(entries)),
{
    let ups = parents_of(entries);
    assert forall|k: int| 0 <= k < ups.len() implies match #[trigger] ups[k] {
        Some(p) => 0 <= p < ups.len(),
        None => true,
    } by {
        match entries[k].text_at("parentFolderId"@) {
            Some(p) => lemma_entry(entries, p, entries.len()),
            None => {},
        }
    }
}

fn parent_places(entries: &Vec<Json>) -> (r: Vec<Option<usize>>)
    ensures
        opt_places(r@) == parents_of(views(entries@)),
{
    let ghost all = views(entries@);
    let mut out: Vec<Option<usize>> = Vec::new();
    let mut i: usize = 0;
    while i < entries.len()
        invariant
            i <= entries.len(),
            all == views(entries@),
            out.len() == i,
            forall|j: int| 0 <= j < i ==> opt_places(out@)[j] == #[trigger] parents_of(all)[j],
        decreases entries.len() - i,
    {
        let ghost was = opt_places(out@);
        let up: Option<usize> = match entries[i].str_at("parentFolderId") {
            Some(p) => find_entry(entries, p),
            None => None,
        };
        out.push(up);
        proof {
            assert(all[i as int] == entries@[i as int]@);
            assert forall|j: int| 0 <= j < i + 1 implies opt_places(out@)[j] == #[trigger] parents_of(all)[j] by {
                if j < i {
                    assert(opt_places(out@)[j] == was[j]);
                }
            }
        }
        i += 1;
    }
    assert(opt_places(out@) =~= parents_of(all));
    out
}

fn blank(n: usize) -> (r: (Vec<Option<u128>>, Vec<bool>))
    ensures
        opt_depths(r.0@) == nothing_known(n as nat),
        r.1@ == nothing_seen(n as nat),
{
    let mut a: Vec<Option<u128>> = Vec::new();
    let mut b: Vec<bool> = Vec::new();
    let mut i: usize = 0;
    while i < n
        invariant
            i <= n,
            a.len() == i,
            b.len() == i,
            forall|j: int| 0 <= j < i ==> #[trigger] a@[j] is None,
            forall|j: int| 0 <= j < i ==> !#[trigger] b@[j],
        decreases n - i,
    {
        a.push(None);
        b.push(false);
        i += 1;
    }
    assert(opt_depths(a@) =~= nothing_known(n as nat));
    assert(b@ =~= nothing_seen(n as nat));
    (a, b)
}

/// The mail folders of a listing, parents before their children: in the order of
/// their depths, and as listed among folders of one depth.
pub fn order_by_parent(server: &Vec<Json>) -> (r: Vec<Json>)
    ensures
        arranged(views(server@), views(r@)),
{
    let ghost all = views(server@);
    let parents = parent_places(server);
    let ghost ups = parents_of(all);
    let ghost nodes = nodes_of(all);
    let (mut known, _) = blank(server.len());
    let mut keys: Vec<i128> = Vec::new();
    proof {
        lemma_in_range(all);
        assert(opt_places(parents@).len() == parents@.len());
        assert(opt_depths(known@).len() == known@.len());
        assert(key_values(keys@) =~= depths(ups, nodes, 0).0);
    }
    let mut i: usize = 0;
    while i < server.len()
        invariant
            i <= server.len(),
            all == views(server@),
            ups == parents_of(all),
            nodes == nodes_of(all),
            opt_places(parents@) == ups,
            parents@.len() == server@.len(),
            in_range(ups),
            known@.len() == server@.len(),
            keys@.len() == i,
            bounded(opt_depths(known@)),
            (key_values(keys@), opt_depths(known@)) == depths(ups, nodes, i as nat),
        decreases server.len() - i,
    {
        assert(all[i as int] == server@[i as int]@);
        let id = match server[i].str_at("id") {
            Some(x) => x,
            None => "",
        };
        let ghost was = key_values(keys@);
        match find_entry(server, id) {
            Some(k) => {
                let (_, mut seen) = blank(server.len());
                let ghost memo = opt_depths(known@);
                proof {
                    lemma_climb_bound(k as int, ups, memo, seen@);
                }
                let d: u128 = climb(k, &parents, &mut known, &mut seen);
                proof {
                    lemma_left_bound(marks(opt_depths(known@)));
                    assert(d <= known.len());
                }
                keys.push(d as i128);
                assert(key_values(keys@) =~= was.push(d as int));
            },
            None => {
                keys.push(0);
                assert(key_values(keys@) =~= was.push(0));
            },
        }
        i += 1;
    }
    let order = stable_order(&keys);
    let ghost spots = places(order@);
    assert(spots.len() == order@.len() && key_values(keys@).len() == keys@.len());
    let mut out: Vec<Json> = Vec::new();
    let mut j: usize = 0;
    while j < order.len()
        invariant
            j <= order.len(),
            all == views(server@),
            spots == places(order@),
            order@.len() == server@.len(),
            forall|i: int| 0 <= i < spots.len() ==> 0 <= #[trigger] spots[i] < all.len(),
            out.len() == j,
            forall|i: int| 0 <= i < j ==> (#[trigger] out@[i])@ == all[spots[i]],
        decreases order.len() - j,
    {
        assert(spots[j as int] == order@[j as int]);
        let k: usize = order[j];
        assert(all[k as int] == server@[k as int]@);
        out.push(server[k].copy());
        j += 1;
    }
    assert(views(out@) =~= taken(all, spots));
    out
}

/// Whether the entries have ids of their own, and parents of a lower rank.
pub open spec fn well_founded(entries: Seq<JsonView>, rank: spec_fn(Seq<char>) -> nat) -> bool {
    &&& forall|i: int, j: int|
        0 <= i < j < entries.len() && (#[trigger] entries[i]).text_at("id"@) is Some ==> entries[i].text_at("id"@)
            != (#[trigger] entries[j]).text_at("id"@)
    &&& forall|i: int|
        0 <= i < entries.len() ==> match ((#[trigger] entries[i]).text_at("id"@), entries[i].text_at(
            "parentFolderId"@,
        )) {
            (Some(id), Some(p)) => entry_of(entries, p) is Some ==> rank(p) < rank(id),
            _ => true,
        }
    &&& forall|i: int| 0 <= i < entries.len() ==> (#[trigger] entries[i]).text_at("id"@) is Some
}

spec fn node_rank(entries: Seq<JsonView>, rank: spec_fn(Seq<char>) -> nat, k: int) -> nat {
    rank(id_of(entries[k]))
}

spec fn settled(parents: Seq<Option<int>>, known: Seq<Option<nat>>) -> bool {
    forall|j: int| 0 <= j < known.len() && #[trigger] known[j] is Some ==> match parents[j] {
        None => known[j] == Some(0nat),
        Some(p) => known[p] is Some && known[j]->0 == known[p]->0 + 1,
    }
}

proof fn lemma_rank(entries: Seq<JsonView>, rank: spec_fn(Seq<char>) -> nat, k: int)
    requires
        well_founded(entries, rank),
        0 <= k < entries.len(),
        parents_of(entries)[k] is Some,
    ensures
        0 <= parents_of(entries)[k]->0 < entries.len(),
        node_rank(entries, rank, parents_of(entries)[k]->0) < node_rank(entries, rank, k),
{
    let p = entries[k].text_at("parentFolderId"@)->0;
    lemma_entry(entries, p, entries.len());
}

proof fn lemma_climb_settles(
    k: int,
    entries: Seq<JsonView>,
    rank: spec_fn(Seq<char>) -> nat,
    known: Seq<Option<nat>>,
    seen: Seq<bool>,
)
    requires
        well_founded(entries, rank),
        0 <= k < entries.len(),
        known.len() == entries.len(),
        seen.len() == entries.len(),
        settled(parents_of(entries), known),
        forall|j: int|
            0 <= j < seen.len() && #[trigger] seen[j] ==> node_rank(entries, rank, j) > node_rank(
                entries,
                rank,
                k,
            ),
    ensures
        ({
            let (d, m) = climbed(k, parents_of(entries), known, seen);
            &&& m.len() == known.len()
            &&& settled(parents_of(entries), m)
            &&& m[k] == Some(d)
            &&& forall|j: int| 0 <= j < known.len() && #[trigger] known[j] is Some ==> m[j] == known[j]
            &&& forall|j: int|
                0 <= j < known.len() && seen[j] && #[trigger] known[j] is None ==> m[j] is None
        }),
    decreases left(seen),
{
    let parents = parents_of(entries);
    lemma_in_range(entries);
    if known[k] is Some {
    } else {
        match parents[k] {
            Some(p) => {
                lemma_left(seen, k);
                lemma_rank(entries, rank, k);
                let inner = seen.update(k, true);
                assert forall|j: int| 0 <= j < inner.len() && #[trigger] inner[j] implies node_rank(
                    entries,
                    rank,
                    j,
                ) > node_rank(entries, rank, p) by {
                    if j != k {
                        assert(seen[j]);
                    }
                }
                lemma_climb_settles(p, entries, rank, known, inner);
                let (d, m) = climbed(p, parents, known, inner);
                let r = m.update(k, Some(d + 1));
                assert(inner[k] && known[k] is None);
                assert(m[k] is None);
                assert forall|j: int| 0 <= j < r.len() && #[trigger] r[j] is Some implies match parents[j] {
                    None => r[j] == Some(0nat),
                    Some(q) => r[q] is Some && r[j]->0 == r[q]->0 + 1,
                } by {
                    if j != k {
                        assert(m[j] is Some);
                    }
                }
                assert forall|j: int|
                    0 <= j < known.len() && seen[j] && #[trigger] known[j] is None implies r[j] is None by {
                    assert(inner[j]);
                }
            },
            None => {
                let r = known.update(k, Some(0nat));
                assert forall|j: int| 0 <= j < r.len() && #[trigger] r[j] is Some implies match parents[j] {
                    None => r[j] == Some(0nat),
                    Some(q) => r[q] is Some && r[j]->0 == r[q]->0 + 1,
                } by {
                    if j != k {
                        assert(known[j] is Some);
                    }
                }
            },
        }
    }
}

proof fn lemma_depths_settle(entries: Seq<JsonView>, rank: spec_fn(Seq<char>) -> nat, n: nat)
    requires
        well_founded(entries, rank),
        n <= entries.len(),
    ensures
        ({
            let (ds, known) = depths(parents_of(entries), nodes_of(entries), n);
            &&& ds.len() == n
            &&& known.len() == entries.len()
            &&& settled(parents_of(entries), known)
            &&& forall|i: int| 0 <= i < n ==> #[trigger] known[i] is Some && ds[i] == known[i]->0
        }),
    decreases n,
{
    let parents = parents_of(entries);
    let nodes = nodes_of(entries);
    if n > 0 {
        lemma_depths_settle(entries, rank, (n - 1) as nat);
        let (before, known) = depths(parents, nodes, (n - 1) as nat);
        let id = id_of(entries[n - 1]);
        lemma_entry(entries, id, entries.len());
        assert(entries[n - 1].text_at("id"@) == Some(id));
        let k = entry_of(entries, id)->0;
        assert(k == n - 1) by {
            if k < n - 1 {
                assert(entries[k].text_at("id"@) != entries[n - 1].text_at("id"@));
            } else if k > n - 1 {
                assert(entries[n - 1].text_at("id"@) != entries[k].text_at("id"@));
            }
        }
        assert(nodes[n - 1] == Some(k));
        let seen = nothing_seen(parents.len());
        lemma_climb_settles(k, entries, rank, known, seen);
        let (d, m) = climbed(k, parents, known, seen);
        let ds = before.push(d as int);
        assert forall|i: int| 0 <= i < n implies #[trigger] m[i] is Some && ds[i] == m[i]->0 by {
            if i < n - 1 {
                assert(ds[i] == before[i]);
                assert(known[i] is Some);
            }
        }
        assert(depths(parents, nodes, n) == (ds, m));
        assert(settled(parents, m));
    } else {
        assert(settled(parents, nothing_known(parents.len())));
    }
}

/// Parents come before their children, where every folder has an id of its own
/// and no folder is above itself: `rank` tells how far down a folder is.
pub proof fn parents_come_first(
    entries: Seq<JsonView>,
    order: Seq<int>,
    rank: spec_fn(Seq<char>) -> nat,
    parent: int,
    child: int,
)
    requires
        well_founded(entries, rank),
        in_order(entry_depths(entries), order),
        0 <= parent < order.len(),
        0 <= child < order.len(),
        taken(entries, order)[parent].text_at("id"@) is Some,
        taken(entries, order)[child].text_at("parentFolderId"@) == taken(entries, order)[parent].text_at("id"@),
    ensures
        parent < child,
{
    let n = entries.len();
    lemma_depths_settle(entries, rank, n);
    let (ds, known) = depths(parents_of(entries), nodes_of(entries), n);
    let a = order[parent];
    let b = order[child];
    let id = entries[a].text_at("id"@)->0;
    lemma_entry(entries, id, n);
    let k = entry_of(entries, id)->0;
    assert(k == a) by {
        assert(entries[a].text_at("id"@) == Some(id));
        if k < a {
            assert(entries[k].text_at("id"@) != entries[a].text_at("id"@));
        } else if a < k {
            assert(entries[a].text_at("id"@) != entries[k].text_at("id"@));
        }
    }
    assert(parents_of(entries)[b] == Some(a));
    assert(ds[b] == known[b]->0 && ds[a] == known[a]->0);
    smaller_keys_come_first(ds, order, parent, child);
}

/// A mail folder of the server and its number in the archive.
#[derive(Debug)]
pub struct MailFolder {
    pub graph_id: String,
    pub parent_graph_id: Option<String>,
    pub display_name: String,
    pub is_hidden: bool,
    pub local_id: i64,
}

/// A calendar of the server and its number in the archive.
#[derive(Debug)]
pub struct CalendarFolder {
    pub graph_id: String,
    pub local_id: i64,
}

/// An address book of the server and its number in the archive.
#[derive(Debug)]
pub struct ContactFolder {
    pub graph_id: String,
    pub local_id: i64,
    /// Whether this is the default address book, whose contacts are listed apart.
    pub is_default: bool,
}

/// The id that stands for the default address book, which the server leaves out
/// when it lists the others. It is the same in every run, so that the book is
/// found again.
pub const DEFAULT_CONTACTS_GRAPH_ID: &'static str = "mp-default-contacts";

/// The last number that goes with an id, among the first `n` pairs.
pub open spec fn number_for(pairs: Seq<(Seq<char>, i64)>, id: Seq<char>, n: nat) -> Option<i64>
    decreases n,
{
    if n == 0 {
        None
    } else if pairs[n - 1].0 == id {
        Some(pairs[n - 1].1)
    } else {
        number_for(pairs, id, (n - 1) as nat)
    }
}

/// Ids and numbers.
pub open spec fn numbered(v: Seq<(String, i64)>) -> Seq<(Seq<char>, i64)> {
    Seq::new(v.len(), |i: int| (v[i].0@, v[i].1))
}

/// The ids and numbers of mail folders.
pub open spec fn mail_numbers(v: Seq<MailFolder>) -> Seq<(Seq<char>, i64)> {
    Seq::new(v.len(), |i: int| (v[i].graph_id@, v[i].local_id))
}

/// The number that the archive knows an id by.
fn known_number(local: &Vec<(String, i64)>, id: &str) -> (r: Option<i64>)
    ensures
        r == number_for(numbered(local@), id@, local@.len()),
{
    let ghost all = numbered(local@);
    let mut n: usize = local.len();
    while n > 0
        invariant
            n <= local.len(),
            all == numbered(local@),
            number_for(all, id@, local@.len()) == number_for(all, id@, n as nat),
        decreases n,
    {
        assert(all[n - 1] == (local@[n - 1].0@, local@[n - 1].1));
        if text::same(local[n - 1].0.as_str(), id) {
            return Some(local[n - 1].1);
        }
        n -= 1;
    }
    None
}

/// The number of a folder that has been stored.
fn stored_number(out: &Vec<MailFolder>, id: &str) -> (r: Option<i64>)
    ensures
        r == number_for(mail_numbers(out@), id@, out@.len()),
{
    let ghost all = mail_numbers(out@);
    let mut n: usize = out.len();
    while n > 0
        invariant
            n <= out.len(),
            all == mail_numbers(out@),
            number_for(all, id@, out@.len()) == number_for(all, id@, n as nat),
        decreases n,
    {
        assert(all[n - 1] == (out@[n - 1].graph_id@, out@[n - 1].local_id));
        if text::same(out[n - 1].graph_id.as_str(), id) {
            return Some(out[n - 1].local_id);
        }
        n -= 1;
    }
    None
}

/// The names by which the server knows folders with a role, and the roles.
pub open spec fn well_known() -> Seq<(Seq<char>, Seq<char>)> {
    seq![
        ("inbox"@, "inbox"@),
        ("drafts"@, "drafts"@),
        ("sentitems"@, "sent"@),
        ("deleteditems"@, "trash"@),
        ("junkemail"@, "junk"@),
        ("archive"@, "archive"@),
    ]
}

/// The names and roles of [`well_known`].
pub fn well_known_folders() -> (r: Vec<(&'static str, &'static str)>)
    ensures
        crate::web::pair_views(r@) == well_known(),
{
    let v = vec![
        ("inbox", "inbox"),
        ("drafts", "drafts"),
        ("sentitems", "sent"),
        ("deleteditems", "trash"),
        ("junkemail", "junk"),
        ("archive", "archive"),
    ];
    assert(crate::web::pair_views(v@) =~= well_known());
    v
}

/// The role of a folder, given what the server answered about the first `n` of
/// the folders with a role: the last one that names it.
pub open spec fn role_for(answers: Seq<Option<JsonView>>, id: Seq<char>, n: nat) -> Option<Seq<char>>
    decreases n,
{
    if n == 0 {
        None
    } else {
        match answers[n - 1] {
            Some(v) if v.text_at("id"@) == Some(id) => Some(well_known()[n - 1].1),
            _ => role_for(answers, id, (n - 1) as nat),
        }
    }
}

/// The views of answers; `None` where the server gave none.
pub open spec fn answer_views(v: Seq<Option<Json>>) -> Seq<Option<JsonView>> {
    Seq::new(
        v.len(),
        |i: int|
            match v[i] {
                Some(j) => Some(j@),
                None => None,
            },
    )
}

/// The role of a folder; see [`role_for`].
pub fn resolve_well_known_roles(answers: &Vec<Option<Json>>, id: &str) -> (r: Option<&'static str>)
    requires
        answers@.len() <= well_known().len(),
    ensures
        text::opt_str(r) == role_for(answer_views(answers@), id@, answers@.len()),
{
    let table = well_known_folders();
    let ghost all = answer_views(answers@);
    let mut n: usize = answers.len();
    while n > 0
        invariant
            n <= answers.len(),
            answers@.len() <= well_known().len(),
            crate::web::pair_views(table@) == well_known(),
            table@.len() == well_known().len(),
            all == answer_views(answers@),
            role_for(all, id@, answers@.len()) == role_for(all, id@, n as nat),
        decreases n,
    {
        assert(all[n - 1] == match answers@[n - 1] {
            Some(j) => Some(j@),
            None => None::<JsonView>,
        });
        assert(well_known()[n - 1] == (table@[n - 1].0@, table@[n - 1].1@));
        match &answers[n - 1] {
            Some(v) => match v.str_at("id") {
                Some(x) => {
                    if text::same(x, id) {
                        return Some(table[n - 1].1);
                    }
                },
                None => {},
            },
            None => {},
        }
        n -= 1;
    }
    None
}

/// What is stored about a mail folder.
pub struct MailRow {
    pub graph_id: String,
    pub parent_graph_id: Option<String>,
    pub display_name: String,
    pub is_hidden: bool,
    pub role: Option<&'static str>,
    /// The number of the parent, where it is stored already.
    pub parent_local_id: Option<i64>,
    /// The number of the folder itself, where the archive has it already.
    pub existing: Option<i64>,
}

/// The view of a [`MailRow`].
pub struct MailRowView {
    pub graph_id: Seq<char>,
    pub parent_graph_id: Option<Seq<char>>,
    pub display_name: Seq<char>,
    pub is_hidden: bool,
    pub role: Option<Seq<char>>,
    pub parent_local_id: Option<i64>,
    pub existing: Option<i64>,
}

impl View for MailRow {
    type V = MailRowView;

    open spec fn view(&self) -> MailRowView {
        MailRowView {
            graph_id: self.graph_id@,
            parent_graph_id: text::opt_text(self.parent_graph_id),
            display_name: self.display_name@,
            is_hidden: self.is_hidden,
            role: text::opt_str(self.role),
            parent_local_id: self.parent_local_id,
            existing: self.existing,
        }
    }
}

/// What is stored about a mail folder; nothing, where it has no id.
pub open spec fn mail_row(
    v: JsonView,
    answers: Seq<Option<JsonView>>,
    stored: Seq<(Seq<char>, i64)>,
    local: Seq<(Seq<char>, i64)>,
) -> Option<MailRowView> {
    match v.text_at("id"@) {
        None => None,
        Some(id) => Some(
            MailRowView {
                graph_id: id,
                parent_graph_id: v.text_at("parentFolderId"@),
                display_name: match v.text_at("displayName"@) {
                    Some(n) => n,
                    None => "Unnamed"@,
                },
                is_hidden: v.bool_at("isHidden"@) == Some(true),
                role: role_for(answers, id, answers.len()),
                parent_local_id: match v.text_at("parentFolderId"@) {
                    Some(p) => number_for(stored, p, stored.len()),
                    None => None,
                },
                existing: number_for(local, id, local.len()),
            },
        ),
    }
}

/// The row for a mail folder; see [`mail_row`]. `stored` are the folders stored so
/// far, `local` those that the archive had before.
pub fn reconcile_mail(
    value: &Json,
    answers: &Vec<Option<Json>>,
    stored: &Vec<MailFolder>,
    local: &Vec<(String, i64)>,
) -> (r: Option<MailRow>)
    requires
        answers@.len() <= well_known().len(),
    ensures
        match r {
            Some(row) => mail_row(value@, answer_views(answers@), mail_numbers(stored@), numbered(local@))
                == Some(row@),
            None => mail_row(value@, answer_views(answers@), mail_numbers(stored@), numbered(local@)) is None,
        },
{
    match value.str_at("id") {
        None => None,
        Some(id) => {
            let parent = value.str_at("parentFolderId");
            let display_name = match value.str_at("displayName") {
                Some(n) => n,
                None => "Unnamed",
            };
            let is_hidden = match value.bool_at("isHidden") {
                Some(b) => b,
                None => false,
            };
            let parent_local_id: Option<i64> = match parent {
                Some(p) => stored_number(stored, p),
                None => None,
            };
            Some(
                MailRow {
                    graph_id: id.to_owned(),
                    parent_graph_id: text::owned(parent),
                    display_name: display_name.to_owned(),
                    is_hidden,
                    role: resolve_well_known_roles(answers, id),
                    parent_local_id,
                    existing: known_number(local, id),
                },
            )
        },
    }
}

/// Counts a folder that was stored: as created, or as fetched where the archive
/// had it.
pub fn count_stored(existing: Option<i64>, counts: &mut TypeCounts)
    requires
        old(counts).room(1),
    ensures
        *final(counts) == if existing is Some {
            TypeCounts { fetched: (old(counts).fetched + 1) as u64, ..*old(counts) }
        } else {
            TypeCounts { created: (old(counts).created + 1) as u64, ..*old(counts) }
        },
{
    if existing.is_some() {
        counts.fetched = counts.fetched + 1;
    } else {
        counts.created = counts.created + 1;
    }
}

/// Takes in that a mail folder was stored under a number.
pub fn settle_mail(row: MailRow, local_id: i64, stored: &mut Vec<MailFolder>, counts: &mut TypeCounts)
    requires
        old(counts).room(1),
    ensures
        *final(counts) == if row.existing is Some {
            TypeCounts { fetched: (old(counts).fetched + 1) as u64, ..*old(counts) }
        } else {
            TypeCounts { created: (old(counts).created + 1) as u64, ..*old(counts) }
        },
        final(stored)@ == old(stored)@.push(
            MailFolder {
                graph_id: row.graph_id,
                parent_graph_id: row.parent_graph_id,
                display_name: row.display_name,
                is_hidden: row.is_hidden,
                local_id,
            },
        ),
{
    count_stored(row.existing, counts);
    stored.push(
        MailFolder {
            graph_id: row.graph_id,
            parent_graph_id: row.parent_graph_id,
            display_name: row.display_name,
            is_hidden: row.is_hidden,
            local_id,
        },
    );
}

/// What is stored about a calendar.
pub struct CalendarRow {
    pub graph_id: String,
    pub name: String,
    pub color: Option<String>,
    pub is_default: bool,
    pub existing: Option<i64>,
}

/// The view of a [`CalendarRow`].
pub struct CalendarRowView {
    pub graph_id: Seq<char>,
    pub name: Seq<char>,
    pub color: Option<Seq<char>>,
    pub is_default: bool,
    pub existing: Option<i64>,
}

impl View for CalendarRow {
    type V = CalendarRowView;

    open spec fn view(&self) -> CalendarRowView {
        CalendarRowView {
            graph_id: self.graph_id@,
            name: self.name@,
            color: text::opt_text(self.color),
            is_default: self.is_default,
            existing: self.existing,
        }
    }
}

/// The colour of a calendar. An empty `hexColor` is no colour: the named one
/// counts then.
pub open spec fn calendar_color(v: JsonView) -> Option<Seq<char>> {
    match v.text_at("hexColor"@) {
        Some(c) if c.len() > 0 => Some(c),
        _ => match v.text_at("color"@) {
            Some(c) => color_hex(c),
            None => None,
        },
    }
}

/// What is stored about a calendar; nothing, where it has no id.
pub open spec fn calendar_row(v: JsonView, local: Seq<(Seq<char>, i64)>) -> Option<CalendarRowView> {
    match v.text_at("id"@) {
        None => None,
        Some(id) => Some(
            CalendarRowView {
                graph_id: id,
                name: match v.text_at("name"@) {
                    Some(n) => n,
                    None => "Calendar"@,
                },
                color: calendar_color(v),
                is_default: v.bool_at("isDefaultCalendar"@) == Some(true),
                existing: number_for(local, id, local.len()),
            },
        ),
    }
}

fn read_color(value: &Json) -> (r: Option<String>)
    ensures
        text::opt_text(r) == calendar_color(value@),
{
    match value.str_at("hexColor") {
        Some(c) => {
            if !c.is_empty() {
                return Some(c.to_owned());
            }
        },
        None => {},
    }
    match value.str_at("color") {
        Some(c) => text::owned(graph_calendar_color_to_hex(c)),
        None => None,
    }
}

/// The row for a calendar; see [`calendar_row`].
pub fn reconcile_calendars(value: &Json, local: &Vec<(String, i64)>) -> (r: Option<CalendarRow>)
    ensures
        match r {
            Some(row) => calendar_row(value@, numbered(local@)) == Some(row@),
            None => calendar_row(value@, numbered(local@)) is None,
        },
{
    match value.str_at("id") {
        None => None,
        Some(id) => {
            let name = match value.str_at("name") {
                Some(n) => n,
                None => "Calendar",
            };
            let is_default = match value.bool_at("isDefaultCalendar") {
                Some(b) => b,
                None => false,
            };
            Some(
                CalendarRow {
                    graph_id: id.to_owned(),
                    name: name.to_owned(),
                    color: read_color(value),
                    is_default,
                    existing: known_number(local, id),
                },
            )
        },
    }
}

/// What is stored about an address book.
pub struct BookRow {
    pub graph_id: String,
    pub name: String,
    pub is_default: bool,
    pub existing: Option<i64>,
}

/// The view of a [`BookRow`].
pub struct BookRowView {
    pub graph_id: Seq<char>,
    pub name: Seq<char>,
    pub is_default: bool,
    pub existing: Option<i64>,
}

impl View for BookRow {
    type V = BookRowView;

    open spec fn view(&self) -> BookRowView {
        BookRowView {
            graph_id: self.graph_id@,
            name: self.name@,
            is_default: self.is_default,
            existing: self.existing,
        }
    }
}

/// What is stored about an address book; nothing, where it has no id.
pub open spec fn book_row(v: JsonView, local: Seq<(Seq<char>, i64)>) -> Option<BookRowView> {
    match v.text_at("id"@) {
        None => None,
        Some(id) => Some(
            BookRowView {
                graph_id: id,
                name: match v.text_at("displayName"@) {
                    Some(n) => n,
                    None => "Contacts"@,
                },
                is_default: id == DEFAULT_CONTACTS_GRAPH_ID@,
                existing: number_for(local, id, local.len()),
            },
        ),
    }
}

/// The row for an address book; see [`book_row`].
pub fn reconcile_address_books(value: &Json, local: &Vec<(String, i64)>) -> (r: Option<BookRow>)
    ensures
        match r {
            Some(row) => book_row(value@, numbered(local@)) == Some(row@),
            None => book_row(value@, numbered(local@)) is None,
        },
{
    match value.str_at("id") {
        None => None,
        Some(id) => {
            let name = match value.str_at("displayName") {
                Some(n) => n,
                None => "Contacts",
            };
            Some(
                BookRow {
                    graph_id: id.to_owned(),
                    name: name.to_owned(),
                    is_default: text::same(id, DEFAULT_CONTACTS_GRAPH_ID),
                    existing: known_number(local, id),
                },
            )
        },
    }
}

/// The ids that have been met, and those whose children are still to be listed,
/// after the first `n` entries of a listing.
pub open spec fn met(
    seen: Set<Seq<char>>,
    frontier: Seq<Seq<char>>,
    entries: Seq<JsonView>,
    n: nat,
) -> (Set<Seq<char>>, Seq<Seq<char>>)
    decreases n,
{
    if n == 0 {
        (seen, frontier)
    } else {
        let (s, f) = met(seen, frontier, entries, (n - 1) as nat);
        match entries[n - 1].text_at("id"@) {
            Some(id) if !s.contains(id) => (s.insert(id), f.push(id)),
            _ => (s, f),
        }
    }
}

/// The search for address books: those found, the ids met, and the ids of those
/// whose children are still to be listed.
pub struct BookSearch {
    pub found: Vec<Json>,
    pub seen: StringHashSet,
    pub frontier: Vec<String>,
}

impl BookSearch {
    /// A search that has found nothing.
    pub fn begin() -> (r: BookSearch)
        ensures
            r.found@.len() == 0,
            r.seen@ == Set::<Seq<char>>::empty(),
            r.frontier@.len() == 0,
    {
        BookSearch { found: Vec::new(), seen: StringHashSet::new(), frontier: Vec::new() }
    }

    /// Takes in a listing, of the books at the top or of those in a book.
    pub fn listed(&mut self, entries: Vec<Json>)
        ensures
            views(final(self).found@) == views(old(self).found@) + views(entries@),
            (final(self).seen@, text::texts(final(self).frontier@)) == met(
                old(self).seen@,
                text::texts(old(self).frontier@),
                views(entries@),
                entries@.len(),
            ),
    {
        let ghost all = views(entries@);
        let ghost seen0 = self.seen@;
        let ghost frontier0 = text::texts(self.frontier@);
        let ghost found0 = views(self.found@);
        let mut i: usize = 0;
        while i < entries.len()
            invariant
                i <= entries.len(),
                all == views(entries@),
                views(self.found@) == found0 + all.take(i as int),
                (self.seen@, text::texts(self.frontier@)) == met(seen0, frontier0, all, i as nat),
            decreases entries.len() - i,
        {
            let ghost f = text::texts(self.frontier@);
            let ghost was = views(self.found@);
            assert(all[i as int] == entries@[i as int]@);
            match entries[i].str_at("id") {
                Some(id) => {
                    let ghost s = self.seen@;
                    if self.seen.insert(id.to_owned()) {
                        self.frontier.push(id.to_owned());
                        assert(text::texts(self.frontier@) =~= f.push(id@));
                    } else {
                        assert(self.seen@ =~= s);
                    }
                },
                None => {},
            }
            self.found.push(entries[i].copy());
            assert(views(self.found@) =~= was.push(all[i as int]));
            assert(all.take(i + 1) =~= all.take(i as int).push(all[i as int]));
            i += 1;
        }
        assert(all.take(all.len() as int) =~= all);
    }

    /// The book whose children are to be listed next.
    pub fn next(&mut self) -> (r: Option<String>)
        ensures
            final(self).found@ == old(self).found@,
            final(self).seen@ == old(self).seen@,
            match r {
                Some(id) => old(self).frontier@.len() > 0 && id == old(self).frontier@.last()
                    && final(self).frontier@ == old(self).frontier@.drop_last(),
                None => old(self).frontier@.len() == 0 && final(self).frontier@ == old(self).frontier@,
            },
    {
        self.frontier.pop()
    }

    /// Ends the search: the default book, which no listing has, comes last.
    pub fn finish(self) -> (r: Vec<Json>)
        ensures
            views(r@) == views(self.found@).push(default_book()),
    {
        let mut o = JsonObject::new();
        o.insert("id".to_owned(), Json::text(DEFAULT_CONTACTS_GRAPH_ID));
        o.insert("displayName".to_owned(), Json::text("Contacts"));
        let book = Json::Object(o);
        let ghost was = views(self.found@);
        let mut out = self.found;
        out.push(book);
        assert(views(out@) =~= was.push(default_book()));
        out
    }
}

/// The entry for the default address book.
pub open spec fn default_book() -> JsonView {
    JsonView::Object(
        Map::<Seq<char>, JsonView>::empty().insert("id"@, JsonView::Str(DEFAULT_CONTACTS_GRAPH_ID@)).insert(
            "displayName"@,
            JsonView::Str("Contacts"@),
        ),
    )
}

/// No book is asked for its children twice: the ids to be listed are all met, no
/// two are the same, and an id that was met before is not put up again.
pub proof fn books_are_listed_once(
    seen: Set<Seq<char>>,
    frontier: Seq<Seq<char>>,
    entries: Seq<JsonView>,
    n: nat,
)
    requires
        n <= entries.len(),
        frontier.no_duplicates(),
        forall|i: int| 0 <= i < frontier.len() ==> seen.contains(#[trigger] frontier[i]),
    ensures
        ({
            let (s, f) = met(seen, frontier, entries, n);
            &&& f.no_duplicates()
            &&& forall|i: int| 0 <= i < f.len() ==> s.contains(#[trigger] f[i])
            &&& forall|i: int| frontier.len() <= i < f.len() ==> !seen.contains(#[trigger] f[i])
            &&& frontier.len() <= f.len()
            &&& seen.subset_of(s)
        }),
    decreases n,
{
    if n > 0 {
        books_are_listed_once(seen, frontier, entries, (n - 1) as nat);
    }
}

/// The default zone of a mailbox's calendars.
pub open spec fn mailbox_zone(v: JsonView) -> Result<Option<Seq<char>>, ErrorView> {
    match v.text_at("timeZone"@) {
        Some(z) if text::trim_text(z).len() > 0 => match tz::iana_name(z) {
            Some(name) => Ok(Some(name)),
            None => Err(
                ErrorView::Partial(
                    "malformed: mailboxSettings returned unsupported timeZone "@ + text::debug_text(z),
                ),
            ),
        },
        _ => Ok(None),
    }
}

/// The default zone of a mailbox's calendars. A mailbox without one is in order;
/// one whose zone is unknown is not, since its events would be read against the
/// wrong clock.
pub fn mailbox_timezone_value(value: &Json) -> (r: Result<Option<String>, Error>)
    ensures
        match r {
            Ok(z) => mailbox_zone(value@) == Ok::<Option<Seq<char>>, ErrorView>(text::opt_text(z)),
            Err(e) => mailbox_zone(value@) == Err::<Option<Seq<char>>, ErrorView>(e@),
        },
{
    match value.str_at("timeZone") {
        Some(z) => {
            if text::trim(z).as_str().is_empty() {
                return Ok(None);
            }
            match windows_or_iana_to_iana(z) {
                Some(name) => Ok(Some(name)),
                None => {
                    let shown = text::quoted(z);
                    Err(
                        Error::Partial(
                            text::joined(
                                "malformed: mailboxSettings returned unsupported timeZone ",
                                shown.as_str(),
                            ),
                        ),
                    )
                },
            }
        },
        None => Ok(None),
    }
}

/// The pairs of the archive, among the first `n`, whose ids the server no longer
/// lists.
pub open spec fn vanished_of(local: Seq<(Seq<char>, i64)>, server: Seq<Seq<char>>, n: nat) -> Seq<
    (Seq<char>, i64),
>
    decreases n,
{
    if n == 0 {
        Seq::empty()
    } else {
        let rest = vanished_of(local, server, (n - 1) as nat);
        if server.contains(local[n - 1].0) {
            rest
        } else {
            rest.push(local[n - 1])
        }
    }
}

/// The folders of the archive that the server no longer lists; see
/// [`vanished_of`].
pub fn vanished(local: &Vec<(String, i64)>, server_ids: &Vec<String>) -> (r: Vec<(String, i64)>)
    ensures
        numbered(r@) == vanished_of(numbered(local@), text::texts(server_ids@), local@.len()),
{
    let ghost all = numbered(local@);
    let ghost ids = text::texts(server_ids@);
    let mut out: Vec<(String, i64)> = Vec::new();
    assert(numbered(out@) =~= Seq::<(Seq<char>, i64)>::empty());
    let mut i: usize = 0;
    while i < local.len()
        invariant
            i <= local.len(),
            all == numbered(local@),
            ids == text::texts(server_ids@),
            numbered(out@) == vanished_of(all, ids, i as nat),
        decreases local.len() - i,
    {
        let ghost was = numbered(out@);
        assert(all[i as int] == (local@[i as int].0@, local@[i as int].1));
        if !text::listed(server_ids, local[i].0.as_str()) {
            out.push((local[i].0.clone(), local[i].1));
            assert(numbered(out@) =~= was.push(all[i as int]));
        }
        i += 1;
    }
    out
}

/// A folder goes from the archive only where the server no longer lists it.
pub proof fn listed_folders_stay(local: Seq<(Seq<char>, i64)>, server: Seq<Seq<char>>, n: nat)
    requires
        n <= local.len(),
    ensures
        forall|i: int|
            0 <= i < vanished_of(local, server, n).len() ==> !server.contains(
                (#[trigger] vanished_of(local, server, n)[i]).0,
            ),
    decreases n,
{
    if n > 0 {
        listed_folders_stay(local, server, (n - 1) as nat);
        let rest = vanished_of(local, server, (n - 1) as nat);
        let all = vanished_of(local, server, n);
        assert forall|i: int| 0 <= i < all.len() implies !server.contains((#[trigger] all[i]).0) by {
            if i < rest.len() {
                assert(all[i] == rest[i]);
            }
        }
    }
}

/// Counts how deleting a folder that is gone went.
pub fn delete_vanished_flat(deleted: bool, counts: &mut TypeCounts)
    requires
        old(counts).room(1),
    ensures
        *final(counts) == if deleted {
            TypeCounts { deleted: (old(counts).deleted + 1) as u64, ..*old(counts) }
        } else {
            TypeCounts { failed: (old(counts).failed + 1) as u64, ..*old(counts) }
        },
{
    if deleted {
        counts.deleted = counts.deleted + 1;
    } else {
        counts.failed = counts.failed + 1;
    }
}

/// How many folders are above a folder of the archive. `seen` are those that the
/// way up has passed; coming back to one of them ends it.
pub open spec fn depth_from(id: i64, parents: Map<i64, Option<i64>>, seen: Set<i64>) -> nat
    decreases parents.dom().difference(seen).len(),
    when parents.dom().finite()
{
    if seen.contains(id) {
        0
    } else if parents.contains_key(id) && parents[id] is Some {
        proof {
            lemma_unseen(parents.dom(), seen, id);
        }
        1 + depth_from(parents[id]->0, parents, seen.insert(id))
    } else {
        0
    }
}

/// Visiting a folder for the first time leaves fewer to visit.
pub proof fn lemma_unseen(all: Set<i64>, seen: Set<i64>, id: i64)
    requires
        all.finite(),
        all.contains(id),
        !seen.contains(id),
    ensures
        all.difference(seen.insert(id)).len() < all.difference(seen).len(),
{
    assert(all.difference(seen.insert(id)) =~= all.difference(seen).remove(id));
}

proof fn lemma_depth_bound(id: i64, parents: Map<i64, Option<i64>>, seen: Set<i64>)
    requires
        parents.dom().finite(),
    ensures
        depth_from(id, parents, seen) <= parents.dom().difference(seen).len(),
    decreases parents.dom().difference(seen).len(),
{
    if !seen.contains(id) && parents.contains_key(id) && parents[id] is Some {
        lemma_unseen(parents.dom(), seen, id);
        lemma_depth_bound(parents[id]->0, parents, seen.insert(id));
    }
}

/// How many folders are above a folder of the archive; see [`depth_from`].
pub fn depth_of(id: i64, parents: &HashMap<i64, Option<i64>>) -> (r: usize)
    ensures
        r == depth_from(id, parents@, Set::empty()),
{
    let ghost all = parents@;
    let total: usize = parents.len();
    let mut seen: HashSet<i64> = HashSet::new();
    let mut depth: usize = 0;
    let mut cursor: i64 = id;
    let mut more = true;
    proof {
        lemma_depth_bound(id, all, Set::empty());
        assert(all.dom().difference(Set::empty()) =~= all.dom());
    }
    while more
        invariant
            all == parents@,
            all.dom().finite(),
            depth + depth_from(cursor, all, seen@) == depth_from(id, all, Set::empty()),
            depth_from(id, all, Set::empty()) <= usize::MAX,
            !more ==> depth_from(cursor, all, seen@) == 0,
        decreases all.dom().difference(seen@).len(), (if more {
            1int
        } else {
            0int
        }),
    {
        if seen.contains(&cursor) {
            more = false;
        } else {
            match parents.get(&cursor) {
                Some(Some(p)) => {
                    let up: i64 = *p;
                    proof {
                        lemma_unseen(all.dom(), seen@, cursor);
                    }
                    seen.insert(cursor);
                    depth += 1;
                    cursor = up;
                },
                _ => {
                    more = false;
                },
            }
        }
    }
    depth
}

/// The keys by which folders that are gone are ordered: the deepest first.
pub open spec fn deletion_keys(gone: Seq<(Seq<char>, i64)>, parents: Map<i64, Option<i64>>) -> Seq<int> {
    Seq::new(gone.len(), |i: int| -(depth_from(gone[i].1, parents, Set::empty()) as int))
}

/// The order in which mail folders that are gone are deleted: the deepest first,
/// since a folder with children cannot be deleted.
pub fn delete_vanished_mailboxes(gone: &Vec<(String, i64)>, parents: &HashMap<i64, Option<i64>>) -> (r: Vec<
    usize,
>)
    ensures
        in_order(deletion_keys(numbered(gone@), parents@), places(r@)),
{
    let ghost all = numbered(gone@);
    let mut keys: Vec<i128> = Vec::new();
    let mut i: usize = 0;
    while i < gone.len()
        invariant
            i <= gone.len(),
            all == numbered(gone@),
            keys.len() == i,
            forall|j: int| 0 <= j < i ==> keys@[j] == #[trigger] deletion_keys(all, parents@)[j],
        decreases gone.len() - i,
    {
        let d: usize = depth_of(gone[i].1, parents);
        assert(all[i as int].1 == gone@[i as int].1);
        keys.push(0 - d as i128);
        i += 1;
    }
    assert(key_values(keys@) =~= deletion_keys(all, parents@));
    stable_order(&keys)
}

proof fn lemma_depth_seen(
    id: i64,
    parents: Map<i64, Option<i64>>,
    a: Set<i64>,
    b: Set<i64>,
    rank: spec_fn(i64) -> nat,
)
    requires
        parents.dom().finite(),
        forall|k: i64|
            #[trigger] parents.contains_key(k) && parents[k] is Some ==> rank(parents[k]->0) < rank(k),
        forall|k: i64| #[trigger] a.contains(k) ==> rank(k) > rank(id),
        forall|k: i64| #[trigger] b.contains(k) ==> rank(k) > rank(id),
    ensures
        depth_from(id, parents, a) == depth_from(id, parents, b),
    decreases rank(id),
{
    if parents.contains_key(id) && parents[id] is Some {
        let p = parents[id]->0;
        lemma_depth_seen(p, parents, a.insert(id), b.insert(id), rank);
    }
}

/// Children are deleted before their parents, where no folder is above itself:
/// `rank` tells how far down a folder is.
pub proof fn children_are_deleted_first(
    gone: Seq<(Seq<char>, i64)>,
    parents: Map<i64, Option<i64>>,
    order: Seq<int>,
    rank: spec_fn(i64) -> nat,
    child: int,
    parent: int,
)
    requires
        parents.dom().finite(),
        forall|k: i64|
            #[trigger] parents.contains_key(k) && parents[k] is Some ==> rank(parents[k]->0) < rank(k),
        in_order(deletion_keys(gone, parents), order),
        0 <= child < order.len(),
        0 <= parent < order.len(),
        parents.contains_key(gone[order[child]].1),
        parents[gone[order[child]].1] == Some(gone[order[parent]].1),
    ensures
        child < parent,
{
    let keys = deletion_keys(gone, parents);
    let c = gone[order[child]].1;
    let p = gone[order[parent]].1;
    let none = Set::<i64>::empty();
    lemma_depth_seen(p, parents, none.insert(c), none, rank);
    assert(depth_from(c, parents, none) == 1 + depth_from(p, parents, none));
    smaller_keys_come_first(keys, order, child, parent);
}

} // verus!
