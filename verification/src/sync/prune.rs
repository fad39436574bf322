//! Which objects of a target are removed because the archive has none like them.

use vstd::prelude::*;
use vstd::string::*;

use crate::text;

verus! {

/// An object of the target.
pub struct TargetObj {
    pub id: String,
    pub matched: bool,
    pub protected: bool,
    pub may_delete: bool,
}

/// Whether an object may be removed: nothing of the archive matches it, it is
/// not protected, and the target allows it.
pub open spec fn removable(o: TargetObj) -> bool {
    !o.matched && !o.protected && o.may_delete
}

/// The ids of the removable ones among the first `n` objects.
pub open spec fn removable_ids(objs: Seq<TargetObj>, n: nat) -> Seq<Seq<char>>
    decreases n,
{
    if n == 0 || n > objs.len() {
        Seq::empty()
    } else if removable(objs[n - 1]) {
        removable_ids(objs, (n - 1) as nat).push(objs[n - 1].id@)
    } else {
        removable_ids(objs, (n - 1) as nat)
    }
}

/// See [`removable_ids`].
pub fn candidates(objs: &Vec<TargetObj>) -> (r: Vec<String>)
    ensures
        text::texts(r@) == removable_ids(objs@, objs@.len()),
{
    let mut out: Vec<String> = Vec::new();
    let mut i: usize = 0;
    assert(text::texts(out@) =~= Seq::<Seq<char>>::empty());
    while i < objs.len()
        invariant
            i <= objs.len(),
            text::texts(out@) == removable_ids(objs@, i as nat),
        decreases objs.len() - i,
    {
        let o = &objs[i];
        if !o.matched && !o.protected && o.may_delete {
            let ghost was = text::texts(out@);
            out.push(o.id.clone());
            assert(text::texts(out@) =~= was.push(o.id@));
        }
        i += 1;
    }
    out
}

/// Nothing that is matched, protected or not allowed to go is removed.
pub proof fn only_removable_objects_go(objs: Seq<TargetObj>, n: nat, id: Seq<char>)
    requires
        n <= objs.len(),
        removable_ids(objs, n).contains(id),
    ensures
        exists|i: int| 0 <= i < n && (#[trigger] objs[i]).id@ == id && removable(objs[i]),
    decreases n,
{
    if n > 0 {
        let before = removable_ids(objs, (n - 1) as nat);
        if before.contains(id) {
            only_removable_objects_go(objs, (n - 1) as nat, id);
        } else {
            let j = choose|j: int| 0 <= j < removable_ids(objs, n).len() && removable_ids(objs, n)[j] == id;
            if j < before.len() {
                assert(before[j] == id);
            }
            assert(objs[n - 1].id@ == id);
        }
    }
}

} // verus!
