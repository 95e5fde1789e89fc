//! The two tables of the root block as the library keeps them: the table of
//! contents as a list of names without repetition, the free list as a map
//! from block size to freed offsets.
use vstd::prelude::*;
use std::collections::BTreeMap;
use crate::layout::{toc_index, toc_put, TocModel};

verus! {

/// The table of contents as names and block numbers.
pub open spec fn toc_view(toc: Seq<(String, usize)>) -> TocModel {
    toc.map_values(|e: (String, usize)| (e.0@, e.1))
}

/// The free list as sequences of offsets.
pub open spec fn free_view(free: Map<usize, Vec<usize>>) -> Map<usize, Seq<usize>> {
    free.map_values(|v: Vec<usize>| v@)
}

/// Sets `name` to `block` in a table of contents: a listed name keeps its
/// place, a new one goes to the end.
#[verifier::loop_isolation(false)]
pub fn put_entry(toc: &mut Vec<(String, usize)>, name: String, block: usize)
    ensures
        toc_view(final(toc)@) == toc_put(toc_view(old(toc)@), name@, block),
{
    let ghost before = toc_view(toc@);
    let mut i: usize = toc.len();
    assert(before.take(i as int) =~= before);
    while i > 0
        invariant
            i <= toc.len(),
            toc_view(toc@) == before,
            toc_index(before, name@) == toc_index(before.take(i as int), name@),
        decreases i,
    {
        i -= 1;
        proof {
            let part = before.take(i + 1);
            assert(part.last() == before[i as int]);
            assert(part.drop_last() =~= before.take(i as int));
            assert(before[i as int].0 == toc@[i as int].0@);
            assert(toc_index(part, name@) == if part.last().0 == name@ {
                Some(i as int)
            } else {
                toc_index(before.take(i as int), name@)
            });
        }
        if toc[i].0 == name {
            toc.set(i, (name, block));
            assert(toc_view(toc@) =~= before.update(i as int, (name@, block)));
            return ;
        }
    }
    toc.push((name, block));
    assert(toc_view(toc@) =~= before.push((name@, block)));
}

/// The block that `name` names in a table of contents.
#[verifier::loop_isolation(false)]
pub fn find_block(toc: &Vec<(String, usize)>, name: &String) -> (r: Option<usize>)
    ensures
        match toc_index(toc_view(toc@), name@) {
            Some(i) => r == Some(toc_view(toc@)[i].1),
            None => r is None,
        },
{
    let ghost all = toc_view(toc@);
    let mut i: usize = toc.len();
    assert(all.take(i as int) =~= all);
    while i > 0
        invariant
            i <= toc.len(),
            toc_index(all, name@) == toc_index(all.take(i as int), name@),
        decreases i,
    {
        i -= 1;
        proof {
            let part = all.take(i + 1);
            assert(part.last() == all[i as int]);
            assert(part.drop_last() =~= all.take(i as int));
            assert(all[i as int].0 == toc@[i as int].0@);
            assert(toc_index(part, name@) == if part.last().0 == name@ {
                Some(i as int)
            } else {
                toc_index(all.take(i as int), name@)
            });
        }
        if toc[i].0 == *name {
            return Some(toc[i].1);
        }
    }
    None
}

/// Stores `items` as the freed blocks of the size class with block size
/// `size`, in place of what was stored for it.
pub fn put_bucket(free: &mut BTreeMap<usize, Vec<usize>>, size: usize, items: Vec<usize>)
    ensures
        free_view(final(free)@) == free_view(old(free)@).insert(size, items@),
{
    broadcast use vstd::std_specs::btree::group_btree_axioms;
    broadcast use vstd::laws_cmp::group_laws_cmp;

    let ghost before = free_view(free@);
    free.insert(size, items);
    assert(free_view(free@) =~= before.insert(size, items@));
}

} // verus!
