//! Putting things in order by a number, keeping the order of equals.

use vstd::prelude::*;

verus! {

/// Whether one place comes before another: by its key, and by where it stood among
/// equals.
pub open spec fn precedes(keys: Seq<int>, a: int, b: int) -> bool {
    keys[a] < keys[b] || (keys[a] == keys[b] && a < b)
}

/// Whether `order` lists the places of `keys`, each once, as [`precedes`] has them.
/// There is one such list.
pub open spec fn in_order(keys: Seq<int>, order: Seq<int>) -> bool {
    &&& order.len() == keys.len()
    &&& forall|i: int| 0 <= i < order.len() ==> 0 <= #[trigger] order[i] < keys.len()
    &&& forall|i: int, j: int|
        0 <= i < j < order.len() ==> precedes(keys, #[trigger] order[i], #[trigger] order[j])
}

/// The keys as numbers.
pub open spec fn key_values(keys: Seq<i128>) -> Seq<int> {
    Seq::new(keys.len(), |i: int| keys[i] as int)
}

/// Places as numbers.
pub open spec fn places(order: Seq<usize>) -> Seq<int> {
    Seq::new(order.len(), |i: int| order[i] as int)
}

/// The places of the keys in order; see [`in_order`].
pub fn stable_order(keys: &Vec<i128>) -> (r: Vec<usize>)
    ensures
        in_order(key_values(keys@), places(r@)),
{
    let mut out: Vec<usize> = Vec::new();
    let ghost all = key_values(keys@);
    let mut n: usize = 0;
    while n < keys.len()
        invariant
            n <= keys.len(),
            all == key_values(keys@),
            out.len() == n,
            forall|i: int| 0 <= i < n ==> (#[trigger] out@[i]) < n,
            forall|i: int, j: int|
                0 <= i < j < n ==> precedes(all, (#[trigger] out@[i]) as int, (#[trigger] out@[j]) as int),
        decreases keys.len() - n,
    {
        let k: i128 = keys[n];
        let mut at: usize = n;
        while at > 0 && keys[out[at - 1]] > k
            invariant
                at <= n,
                n < keys.len(),
                out.len() == n,
                k == keys@[n as int],
                forall|i: int| 0 <= i < n ==> (#[trigger] out@[i]) < n,
                forall|i: int| at <= i < n ==> keys@[(#[trigger] out@[i]) as int] > k,
            decreases at,
        {
            at -= 1;
        }
        let ghost was = out@;
        out.insert(at, n);
        proof {
            assert forall|i: int, j: int| 0 <= i < j < n + 1 implies precedes(
                all,
                (#[trigger] out@[i]) as int,
                (#[trigger] out@[j]) as int,
            ) by {
                if i < at && j < at {
                    assert(out@[i] == was[i] && out@[j] == was[j]);
                } else if i > at && j > at {
                    assert(out@[i] == was[i - 1] && out@[j] == was[j - 1]);
                } else if i < at && j > at {
                    assert(out@[i] == was[i] && out@[j] == was[j - 1]);
                } else if j == at {
                    assert(out@[i] == was[i]);
                    if i < at - 1 {
                        assert(precedes(all, was[i] as int, was[at - 1] as int));
                    }
                    assert(keys@[was[at - 1] as int] <= k);
                } else {
                    assert(out@[j] == was[j - 1]);
                    assert(keys@[was[j - 1] as int] > k);
                }
            }
        }
        n += 1;
    }
    let ghost order = places(out@);
    proof {
        assert forall|i: int, j: int| 0 <= i < j < order.len() implies precedes(
            all,
            #[trigger] order[i],
            #[trigger] order[j],
        ) by {
            assert(precedes(all, out@[i] as int, out@[j] as int));
        }
        assert forall|i: int| 0 <= i < order.len() implies 0 <= #[trigger] order[i] < all.len() by {
            assert(out@[i] < keys@.len());
        }
    }
    out
}

/// A place with a smaller key comes first.
pub proof fn smaller_keys_come_first(keys: Seq<int>, order: Seq<int>, i: int, j: int)
    requires
        in_order(keys, order),
        0 <= i < order.len(),
        0 <= j < order.len(),
        keys[order[i]] < keys[order[j]],
    ensures
        i < j,
{
    if j < i {
        assert(precedes(keys, order[j], order[i]));
    }
}

/// The number of places below `n` that are not marked.
spec fn unmarked(marks: Seq<bool>, n: nat) -> nat
    decreases n,
{
    if n == 0 {
        0
    } else {
        unmarked(marks, (n - 1) as nat) + if marks[n - 1] {
            0nat
        } else {
            1nat
        }
    }
}

proof fn lemma_marking(marks: Seq<bool>, k: int, n: nat)
    requires
        0 <= k < marks.len(),
        !marks[k],
        n <= marks.len(),
    ensures
        unmarked(marks.update(k, true), n) == unmarked(marks, n) - if k < n {
            1int
        } else {
            0int
        },
    decreases n,
{
    if n > 0 {
        lemma_marking(marks, k, (n - 1) as nat);
    }
}

/// How many places are left to visit.
pub closed spec fn left(marks: Seq<bool>) -> nat {
    unmarked(marks, marks.len())
}

/// Visiting a place for the first time leaves one place fewer.
pub proof fn lemma_left(marks: Seq<bool>, k: int)
    requires
        0 <= k < marks.len(),
        !marks[k],
    ensures
        left(marks.update(k, true)) == left(marks) - 1,
{
    lemma_marking(marks, k, marks.len());
    assert(marks.update(k, true).len() == marks.len());
}

/// No more places are left than there are.
pub proof fn lemma_left_bound(marks: Seq<bool>)
    ensures
        left(marks) <= marks.len(),
{
    lemma_unmarked_bound(marks, marks.len());
}

proof fn lemma_unmarked_bound(marks: Seq<bool>, n: nat)
    ensures
        unmarked(marks, n) <= n,
    decreases n,
{
    if n > 0 {
        lemma_unmarked_bound(marks, (n - 1) as nat);
    }
}

} // verus!
