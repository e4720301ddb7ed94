//! The paint order of the blocks: the nearest to the viewer first.

use vstd::prelude::*;
use crate::cube::Cube;

verus! {

/// How near a block is to the viewer: the sum of the coordinates of its
/// centre, doubled. The projected centre of a nearer block lies lower on
/// the screen.
pub open spec fn depth_key(c: Cube) -> int {
    2 * c.coord.x + 2 * c.coord.y + 2 * c.size
}

/// Whether the block at index `p` of `s` is painted before the one at index
/// `q`: it is nearer, or as near and earlier in `s`.
pub open spec fn ranks_before(s: Seq<Cube>, p: int, q: int) -> bool {
    depth_key(s[p]) > depth_key(s[q]) || (depth_key(s[p]) == depth_key(s[q]) && p < q)
}

/// Whether `after` is `before` in paint order: `perm` gives for each place
/// in `after` the index in `before` that it holds, `inv` gives for each
/// index in `before` its place in `after`, and the places run in the order
/// of `ranks_before`.
pub open spec fn in_paint_order(
    before: Seq<Cube>,
    after: Seq<Cube>,
    perm: Seq<int>,
    inv: Seq<int>,
) -> bool {
    &&& after.len() == before.len()
    &&& perm.len() == before.len()
    &&& inv.len() == before.len()
    &&& forall|k: int|
        0 <= k < before.len() ==> 0 <= (#[trigger] perm[k]) < before.len() && after[k]
            == before[perm[k]]
    &&& forall|k: int|
        0 <= k < before.len() ==> 0 <= (#[trigger] inv[k]) < before.len() && perm[inv[k]] == k
    &&& forall|k: int| 0 <= k < before.len() ==> inv[#[trigger] perm[k]] == k
    &&& forall|a: int, b: int|
        0 <= a < b < before.len() ==> ranks_before(before, #[trigger] perm[a], #[trigger] perm[b])
}

/// Whether `after` is `before` in paint order.
pub open spec fn paint_order_of(before: Seq<Cube>, after: Seq<Cube>) -> bool {
    exists|perm: Seq<int>, inv: Seq<int>| #[trigger] in_paint_order(before, after, perm, inv)
}

/// The depth of a block, as `depth_key` has it.
fn key_of(c: &Cube) -> (k: i64)
    ensures
        k == depth_key(*c),
{
    2 * (c.coord.x as i64) + 2 * (c.coord.y as i64) + 2 * (c.size as i64)
}

/// Puts the blocks in paint order: the nearest first, and blocks that are
/// equally near in the order in which they stood.
pub fn sort_by_depth(cubes: &mut Vec<Cube>)
    ensures
        paint_order_of(old(cubes)@, final(cubes)@),
{
    let n = cubes.len();
    let ghost before = cubes@;
    let ghost mut perm: Seq<int> = Seq::new(n as nat, |k: int| k);
    let ghost mut inv: Seq<int> = Seq::new(n as nat, |k: int| k);
    let mut i: usize = 0;
    while i < n
        invariant
            0 <= i <= n == before.len() == cubes@.len(),
            perm.len() == n,
            inv.len() == n,
            forall|k: int| 0 <= k < n ==> 0 <= (#[trigger] perm[k]) < n && cubes@[k] == before[perm[k]],
            forall|k: int| 0 <= k < n ==> 0 <= (#[trigger] inv[k]) < n && perm[inv[k]] == k,
            forall|k: int| 0 <= k < n ==> inv[#[trigger] perm[k]] == k,
            forall|k: int| i <= k < n ==> (#[trigger] perm[k]) == k,
            forall|k: int| 0 <= k < i ==> (#[trigger] perm[k]) < i,
            forall|a: int, b: int|
                0 <= a < b < i ==> ranks_before(before, #[trigger] perm[a], #[trigger] perm[b]),
        decreases n - i,
    {
        let mut j: usize = i;
        while j > 0 && key_of(&cubes[j - 1]) < key_of(&cubes[j])
            invariant
                0 <= j <= i < n == before.len() == cubes@.len(),
                perm.len() == n,
                inv.len() == n,
                forall|k: int|
                    0 <= k < n ==> 0 <= (#[trigger] perm[k]) < n && cubes@[k] == before[perm[k]],
                forall|k: int| 0 <= k < n ==> 0 <= (#[trigger] inv[k]) < n && perm[inv[k]] == k,
                forall|k: int| 0 <= k < n ==> inv[#[trigger] perm[k]] == k,
                forall|k: int| i < k < n ==> (#[trigger] perm[k]) == k,
                forall|k: int| 0 <= k <= i ==> (#[trigger] perm[k]) <= i,
                perm[j as int] == i,
                forall|a: int, b: int|
                    0 <= a < b <= i && a != j && b != j ==> ranks_before(
                        before,
                        #[trigger] perm[a],
                        #[trigger] perm[b],
                    ),
                forall|b: int|
                    j < b <= i ==> depth_key(before[i as int]) > depth_key(before[#[trigger] perm[b]]),
            decreases j,
        {
            let left = cubes[j - 1];
            let right = cubes[j];
            cubes.set(j - 1, right);
            cubes.set(j, left);
            proof {
                let pl = perm[j - 1];
                let pr = perm[j as int];
                perm = perm.update(j - 1, pr).update(j as int, pl);
                inv = inv.update(pr, j - 1).update(pl, j as int);
                assert forall|k: int| 0 <= k < n implies 0 <= (#[trigger] inv[k]) < n && perm[inv[k]]
                    == k by {
                    if k != pr && k != pl {
                        let old_place = inv[k];
                        assert(old_place != j - 1 && old_place != j);
                    }
                }
            }
            j -= 1;
        }
        proof {
            assert forall|a: int, b: int| 0 <= a < b < i + 1 implies ranks_before(
                before,
                #[trigger] perm[a],
                #[trigger] perm[b],
            ) by {
                if a == j {
                    assert(depth_key(before[i as int]) > depth_key(before[perm[b]]));
                } else if b == j {
                    assert(perm[a] <= i);
                    assert(inv[perm[a]] == a && inv[perm[j as int]] == j);
                    if a == j - 1 {
                        assert(cubes@[a] == before[perm[a]]);
                        assert(cubes@[j as int] == before[perm[j as int]]);
                    } else {
                        assert(ranks_before(before, perm[a], perm[j - 1]));
                        assert(cubes@[j - 1] == before[perm[j - 1]]);
                        assert(cubes@[j as int] == before[perm[j as int]]);
                    }
                }
            }
        }
        i += 1;
    }
    proof {
        assert(in_paint_order(before, cubes@, perm, inv));
    }
}

} // verus!
