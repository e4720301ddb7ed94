//! The scene: the blocks and labels, the viewport, the queued input, and
//! what one frame makes of them.

use vstd::prelude::*;
use crate::cube::Cube;
use crate::depth::{in_paint_order, paint_order_of, sort_by_depth};
use crate::geometry::{polygon_contains, Coord};
use crate::grid::{pointer_spec, Grid};
use crate::input::{lemma_frame_keeps_cursor, Cursor, MouseEvent, MouseState, TouchEvent};
use crate::link::Link;
use crate::propagation::{drag, drag_outcome, lemma_drag_moves_dragged_block};

verus! {

/// The extent of the window in CSS pixels, and its pixel ratio.
#[derive(Clone, Copy, Debug, PartialEq, Eq, Structural)]
pub struct WindowDimensions {
    pub width: u32,
    pub height: u32,
    pub device_pixel_ratio: u8,
}

/// The scene and its interaction state.
pub struct CubeGrid {
    /// The blocks, the nearest first once sorted.
    pub cubes: Vec<Cube>,
    pub grid: Grid,
    pub links: Vec<Link>,
    /// The identifier that the next block gets.
    pub next_id: usize,
    /// The window as last reported.
    pub window_dimensions: WindowDimensions,
    /// Touch samples that wait for the next frame.
    pub touch_events: Vec<TouchEvent>,
    /// Pointer samples that wait for the next frame.
    pub mouse_events: Vec<MouseEvent>,
    pub mouse_state: MouseState,
}

/// Whether exactly the block at index `only` is active; no block is, where
/// `only` is no index.
pub open spec fn active_only(cubes: Seq<Cube>, only: int) -> bool {
    forall|i: int| 0 <= i < cubes.len() ==> ((#[trigger] cubes[i]).is_active <==> i == only)
}

/// Whether exactly one block is active.
pub open spec fn one_active(cubes: Seq<Cube>) -> bool {
    exists|i: int| 0 <= i < cubes.len() && #[trigger] active_only(cubes, i)
}

/// Whether no label is active but, at most, the one at index `only`.
pub open spec fn links_idle_but(links: Seq<Link>, only: int) -> bool {
    forall|j: int| 0 <= j < links.len() && j != only ==> !(#[trigger] links[j]).is_active
}

/// Whether there is a label and at most one label is active.
pub open spec fn one_label_at_most(links: Seq<Link>) -> bool {
    exists|j: int| 0 <= j < links.len() && #[trigger] links_idle_but(links, j)
}

/// Whether the block at index `i` is under the pointer at `posn`.
pub open spec fn cube_hit(cubes: Seq<Cube>, i: int, posn: Coord, grid: Grid) -> bool {
    polygon_contains(cubes[i].outline_spec(grid), pointer_spec(posn, grid))
}

/// Whether the label at index `j` is under the pointer at `posn`.
pub open spec fn link_hit(links: Seq<Link>, j: int, posn: Coord, grid: Grid) -> bool {
    polygon_contains(links[j].outline_spec(grid), pointer_spec(posn, grid))
}

/// The index of the first block at or after `from` under the pointer, or the
/// number of blocks if there is none.
pub open spec fn first_cube_hit(cubes: Seq<Cube>, posn: Coord, grid: Grid, from: int) -> int
    decreases cubes.len() - from,
{
    if from < 0 || from >= cubes.len() {
        cubes.len() as int
    } else if cube_hit(cubes, from, posn, grid) {
        from
    } else {
        first_cube_hit(cubes, posn, grid, from + 1)
    }
}

/// The index of the first label at or after `from` under the pointer, or the
/// number of labels if there is none.
pub open spec fn first_link_hit(links: Seq<Link>, posn: Coord, grid: Grid, from: int) -> int
    decreases links.len() - from,
{
    if from < 0 || from >= links.len() {
        links.len() as int
    } else if link_hit(links, from, posn, grid) {
        from
    } else {
        first_link_hit(links, posn, grid, from + 1)
    }
}

/// Whether `after` is `before` with exactly the block at index `only` active.
pub open spec fn cubes_retargeted(before: Seq<Cube>, after: Seq<Cube>, only: int) -> bool {
    &&& after.len() == before.len()
    &&& forall|i: int|
        0 <= i < before.len() ==> (#[trigger] after[i]) == (Cube { is_active: i == only, ..before[i] })
}

/// Whether `after` is `before` with no label active but the one at index
/// `only`, which is active if `lit`.
pub open spec fn links_retargeted(before: Seq<Link>, after: Seq<Link>, only: int, lit: bool) -> bool {
    &&& after.len() == before.len()
    &&& forall|j: int|
        0 <= j < before.len() ==> (#[trigger] after[j]) == (Link {
            is_active: j == only && lit,
            ..before[j]
        })
}

/// Whether two blocks have the same identifier, character and size.
pub open spec fn same_identity(a: Cube, b: Cube) -> bool {
    a.id == b.id && a.character == b.character && a.size == b.size
}

/// Whether `after` holds the blocks of `before`, each in its place with its
/// identifier, character and size.
pub open spec fn blocks_kept(before: Seq<Cube>, after: Seq<Cube>) -> bool {
    &&& after.len() == before.len()
    &&& forall|i: int| 0 <= i < before.len() ==> same_identity(before[i], #[trigger] after[i])
}

/// Whether every block keeps its activity.
pub open spec fn activity_kept(before: Seq<Cube>, after: Seq<Cube>) -> bool {
    &&& after.len() == before.len()
    &&& forall|i: int| 0 <= i < before.len() ==> (#[trigger] after[i]).is_active == before[i].is_active
}

/// Whether `blocks` holds a block with the identifier, character and size of
/// `c`.
pub open spec fn holds_block(blocks: Seq<Cube>, c: Cube) -> bool {
    exists|i: int| 0 <= i < blocks.len() && same_identity(#[trigger] blocks[i], c)
}

/// Whether `after` holds the blocks of `before`, in whatever order, each with
/// its identifier, character and size, and no other.
pub open spec fn blocks_carried(before: Seq<Cube>, after: Seq<Cube>) -> bool {
    &&& after.len() == before.len()
    &&& forall|k: int| 0 <= k < after.len() ==> holds_block(before, #[trigger] after[k])
    &&& forall|i: int| 0 <= i < before.len() ==> holds_block(after, #[trigger] before[i])
}

/// Blocks that keep their places and are then put in paint order are all
/// still there.
pub proof fn lemma_carried(a: Seq<Cube>, b: Seq<Cube>, c: Seq<Cube>)
    requires
        blocks_kept(a, b),
        paint_order_of(b, c),
    ensures
        blocks_carried(a, c),
{
    let (perm, inv) = choose|perm: Seq<int>, inv: Seq<int>| #[trigger] in_paint_order(b, c, perm, inv);
    assert forall|k: int| 0 <= k < c.len() implies holds_block(a, #[trigger] c[k]) by {
        assert(c[k] == b[perm[k]]);
        assert(same_identity(a[perm[k]], b[perm[k]]));
    }
    assert forall|i: int| 0 <= i < a.len() implies holds_block(c, #[trigger] a[i]) by {
        assert(c[inv[i]] == b[perm[inv[i]]]);
        assert(same_identity(a[i], b[i]));
        assert(same_identity(c[inv[i]], a[i]));
    }
}

/// Whether some block is active.
pub open spec fn any_active(cubes: Seq<Cube>) -> bool {
    exists|i: int| 0 <= i < cubes.len() && (#[trigger] cubes[i]).is_active
}

/// Marks the first block under the pointer as the only active one, and
/// gives its index, or the number of blocks if none is under the pointer.
pub fn retarget_cubes(cubes: &mut Vec<Cube>, posn: &Coord, grid: &Grid) -> (found: usize)
    requires
        grid.wf(),
    ensures
        found == first_cube_hit(old(cubes)@, *posn, *grid, 0),
        found <= old(cubes)@.len(),
        cubes_retargeted(old(cubes)@, final(cubes)@, found as int),
{
    let n = cubes.len();
    let mut found: usize = n;
    let mut i: usize = 0;
    while i < n
        invariant
            0 <= i <= n == cubes@.len() == old(cubes)@.len(),
            grid.wf(),
            found == n || found < i,
            first_cube_hit(old(cubes)@, *posn, *grid, 0) == if found < n {
                found as int
            } else {
                first_cube_hit(old(cubes)@, *posn, *grid, i as int)
            },
            forall|k: int|
                0 <= k < i ==> (#[trigger] cubes@[k]) == (Cube {
                    is_active: k == found,
                    ..old(cubes)@[k]
                }),
            forall|k: int| i <= k < n ==> (#[trigger] cubes@[k]) == old(cubes)@[k],
        decreases n - i,
    {
        let mut cube = cubes[i];
        if found == n && cube.hit_test(posn, grid) {
            cube.is_active = true;
            found = i;
        } else {
            cube.is_active = false;
        }
        cubes.set(i, cube);
        i += 1;
    }
    found
}

/// Marks no label as active but, where `open` and `lit`, the first under the
/// pointer, and gives that label's index where `open`, or the number of
/// labels if there is none.
pub fn retarget_links(links: &mut Vec<Link>, posn: &Coord, grid: &Grid, open: bool, lit: bool) -> (found:
    usize)
    requires
        grid.wf(),
    ensures
        found == if open {
            first_link_hit(old(links)@, *posn, *grid, 0)
        } else {
            old(links)@.len() as int
        },
        found <= old(links)@.len(),
        links_retargeted(old(links)@, final(links)@, found as int, lit),
{
    let n = links.len();
    let mut found: usize = n;
    let mut j: usize = 0;
    while j < n
        invariant
            0 <= j <= n == links@.len() == old(links)@.len(),
            grid.wf(),
            found == n || found < j,
            !open ==> found == n,
            open ==> first_link_hit(old(links)@, *posn, *grid, 0) == if found < n {
                found as int
            } else {
                first_link_hit(old(links)@, *posn, *grid, j as int)
            },
            forall|k: int|
                0 <= k < j ==> (#[trigger] links@[k]) == (Link {
                    is_active: k == found && lit,
                    ..old(links)@[k]
                }),
            forall|k: int| j <= k < n ==> (#[trigger] links@[k]) == old(links)@[k],
        decreases n - j,
    {
        let mut link = links[j];
        if open && found == n && link.hit_test(posn, grid) {
            link.is_active = lit;
            found = j;
        } else {
            link.is_active = false;
        }
        links.set(j, link);
        j += 1;
    }
    found
}

/// The index of the only active block, or the number of blocks where none
/// is active; nothing where more than one is.
pub fn only_active(cubes: &Vec<Cube>) -> (only: Option<usize>)
    ensures
        match only {
            Some(a) => a <= cubes@.len() && active_only(
                cubes@,
                if a < cubes@.len() {
                    a as int
                } else {
                    -1
                },
            ),
            None => forall|k: int| !active_only(cubes@, k),
        },
{
    let n = cubes.len();
    let mut found: usize = n;
    let mut i: usize = 0;
    while i < n
        invariant
            0 <= i <= n == cubes@.len(),
            found == n || found < i,
            forall|k: int| 0 <= k < i ==> ((#[trigger] cubes@[k]).is_active <==> k == found),
        decreases n - i,
    {
        if cubes[i].is_active {
            if found < n {
                assert forall|k: int| !active_only(cubes@, k) by {
                    if active_only(cubes@, k) {
                        assert(cubes@[found as int].is_active <==> found == k);
                        assert(cubes@[i as int].is_active <==> i == k);
                    }
                }
                return None;
            }
            found = i;
        }
        i += 1;
    }
    Some(found)
}

/// The index of the only active label, or the number of labels where none
/// is active; nothing where more than one is.
pub fn only_active_link(links: &Vec<Link>) -> (only: Option<usize>)
    ensures
        match only {
            Some(a) => a <= links@.len() && links_idle_but(links@, a as int) && (a < links@.len()
                ==> links@[a as int].is_active),
            None => forall|k: int| !links_idle_but(links@, k),
        },
{
    let n = links.len();
    let mut found: usize = n;
    let mut j: usize = 0;
    while j < n
        invariant
            0 <= j <= n == links@.len(),
            found == n || found < j,
            found < n ==> links@[found as int].is_active,
            forall|k: int| 0 <= k < j && k != found ==> !(#[trigger] links@[k]).is_active,
        decreases n - j,
    {
        if links[j].is_active {
            if found < n {
                assert forall|k: int| !links_idle_but(links@, k) by {
                    if links_idle_but(links@, k) {
                        if k != found {
                            assert(!links@[found as int].is_active);
                        } else {
                            assert(!links@[j as int].is_active);
                        }
                    }
                }
                return None;
            }
            found = j;
        }
        j += 1;
    }
    Some(found)
}

/// Whether some block is active.
pub fn has_active(cubes: &Vec<Cube>) -> (any: bool)
    ensures
        any == any_active(cubes@),
{
    let mut i: usize = 0;
    while i < cubes.len()
        invariant
            0 <= i <= cubes.len(),
            forall|k: int| 0 <= k < i ==> !(#[trigger] cubes@[k]).is_active,
        decreases cubes.len() - i,
    {
        if cubes[i].is_active {
            return true;
        }
        i += 1;
    }
    false
}

/// What the pointer hovers over is the same in two scenes that have the same
/// labels and cursor and agree on whether no block is active and on whether
/// exactly one is.
pub proof fn lemma_hover_same(a: CubeGrid, b: CubeGrid)
    requires
        b.links@ == a.links@,
        b.mouse_state.cursor_style == a.mouse_state.cursor_style,
        one_active(a.cubes@) == one_active(b.cubes@),
        active_only(a.cubes@, -1) == active_only(b.cubes@, -1),
    ensures
        a.hovering_block() == b.hovering_block(),
        a.hovering_hotspot() == b.hovering_hotspot(),
        a.hovering_nothing() == b.hovering_nothing(),
{
}

/// A scene stays in order while each block keeps its identifier and its
/// activity and stays well formed, the viewport stays valid, and the labels,
/// the next identifier and the cursor stay as they are.
pub proof fn lemma_flags_kept(a: CubeGrid, b: CubeGrid)
    requires
        a.wf(),
        b.links == a.links,
        b.grid.wf(),
        b.next_id == a.next_id,
        b.mouse_state.cursor_style == a.mouse_state.cursor_style,
        b.mouse_state.is_dragging_cube ==> a.mouse_state.is_dragging_cube,
        b.cubes@.len() == a.cubes@.len(),
        forall|i: int|
            0 <= i < b.cubes@.len() ==> {
                &&& (#[trigger] b.cubes@[i]).wf()
                &&& b.cubes@[i].id == a.cubes@[i].id
                &&& b.cubes@[i].is_active == a.cubes@[i].is_active
            },
    ensures
        b.wf(),
        a.hovering_block() == b.hovering_block(),
        a.hovering_hotspot() == b.hovering_hotspot(),
        a.hovering_nothing() == b.hovering_nothing(),
{
    assert forall|i: int| 0 <= i < b.cubes@.len() implies 1 <= (#[trigger] b.cubes@[i]).id
        < b.next_id by {
        assert(1 <= a.cubes@[i].id < a.next_id);
    }
    assert forall|i: int, j: int| 0 <= i < j < b.cubes@.len() implies (#[trigger] b.cubes@[i]).id != (
    #[trigger] b.cubes@[j]).id by {
        assert(a.cubes@[i].id != a.cubes@[j].id);
    }
    assert forall|k: int| active_only(a.cubes@, k) == active_only(b.cubes@, k) by {
        if active_only(a.cubes@, k) {
            assert forall|i: int| 0 <= i < b.cubes@.len() implies ((#[trigger] b.cubes@[i]).is_active
                <==> i == k) by {
                assert(a.cubes@[i].is_active <==> i == k);
            }
        }
        if active_only(b.cubes@, k) {
            assert forall|i: int| 0 <= i < a.cubes@.len() implies ((#[trigger] a.cubes@[i]).is_active
                <==> i == k) by {
                assert(b.cubes@[i].is_active <==> i == k);
            }
        }
    }
    lemma_hover_same(a, b);
}

/// A scene stays in order while its blocks, labels, identifiers and cursor
/// stay as they are and the viewport stays valid.
pub proof fn lemma_same_scene_wf(a: CubeGrid, b: CubeGrid)
    requires
        a.wf(),
        b.same_objects(a),
        b.grid.wf(),
        b.mouse_state.is_dragging_cube ==> a.mouse_state.is_dragging_cube,
    ensures
        b.wf(),
        a.hovering_block() == b.hovering_block(),
        a.hovering_hotspot() == b.hovering_hotspot(),
        a.hovering_nothing() == b.hovering_nothing(),
{
    assert(b.cubes@ == a.cubes@);
    lemma_flags_kept(a, b);
}

/// A scene stays in order when its blocks are put in paint order.
pub proof fn lemma_paint_order_wf(a: CubeGrid, b: CubeGrid)
    requires
        a.wf(),
        paint_order_of(a.cubes@, b.cubes@),
        b.links == a.links,
        b.grid == a.grid,
        b.next_id == a.next_id,
        b.mouse_state.cursor_style == a.mouse_state.cursor_style,
        b.mouse_state.is_dragging_cube ==> a.mouse_state.is_dragging_cube,
    ensures
        b.wf(),
        a.hovering_block() == b.hovering_block(),
        a.hovering_hotspot() == b.hovering_hotspot(),
        a.hovering_nothing() == b.hovering_nothing(),
{
    let (perm, inv) = choose|perm: Seq<int>, inv: Seq<int>| #[trigger]
        in_paint_order(a.cubes@, b.cubes@, perm, inv);
    let n = a.cubes@.len() as int;
    assert forall|i: int| 0 <= i < n implies (#[trigger] b.cubes@[i]).wf() && 1 <= b.cubes@[i].id
        < b.next_id by {
        assert(b.cubes@[i] == a.cubes@[perm[i]]);
        assert(a.cubes@[perm[i]].wf());
    }
    assert forall|i: int, j: int| 0 <= i < j < n implies (#[trigger] b.cubes@[i]).id != (
    #[trigger] b.cubes@[j]).id by {
        assert(inv[perm[i]] == i && inv[perm[j]] == j);
        assert(b.cubes@[i] == a.cubes@[perm[i]] && b.cubes@[j] == a.cubes@[perm[j]]);
        if perm[i] < perm[j] {
            assert(a.cubes@[perm[i]].id != a.cubes@[perm[j]].id);
        } else {
            assert(a.cubes@[perm[j]].id != a.cubes@[perm[i]].id);
        }
    }
    assert(active_only(a.cubes@, -1) == active_only(b.cubes@, -1)) by {
        if active_only(a.cubes@, -1) {
            assert forall|i: int| 0 <= i < n implies !(#[trigger] b.cubes@[i]).is_active by {
                assert(b.cubes@[i] == a.cubes@[perm[i]]);
            }
        }
        if active_only(b.cubes@, -1) {
            assert forall|i: int| 0 <= i < n implies !(#[trigger] a.cubes@[i]).is_active by {
                assert(b.cubes@[inv[i]] == a.cubes@[perm[inv[i]]]);
            }
        }
    }
    assert(one_active(a.cubes@) == one_active(b.cubes@)) by {
        if one_active(a.cubes@) {
            let i = choose|i: int| 0 <= i < n && #[trigger] active_only(a.cubes@, i);
            assert forall|k: int| 0 <= k < n implies ((#[trigger] b.cubes@[k]).is_active <==> k
                == inv[i]) by {
                assert(b.cubes@[k] == a.cubes@[perm[k]]);
                assert(inv[perm[k]] == k);
            }
            assert(active_only(b.cubes@, inv[i]));
        }
        if one_active(b.cubes@) {
            let i = choose|i: int| 0 <= i < n && #[trigger] active_only(b.cubes@, i);
            assert forall|k: int| 0 <= k < n implies ((#[trigger] a.cubes@[k]).is_active <==> k
                == perm[i]) by {
                assert(b.cubes@[inv[k]] == a.cubes@[perm[inv[k]]]);
                assert(inv[perm[i]] == i);
            }
            assert(active_only(a.cubes@, perm[i]));
        }
    }
    lemma_hover_same(a, b);
}

/// Blocks that are added with the next identifiers leave the identifiers in
/// order, and leave the scene in order where they come well formed and
/// inactive.
pub proof fn lemma_inserted(a: CubeGrid, b: CubeGrid, added: Seq<Cube>)
    requires
        b.next_id == a.next_id + added.len(),
        b.cubes@.len() == a.cubes@.len() + added.len(),
        forall|i: int| 0 <= i < a.cubes@.len() ==> (#[trigger] b.cubes@[i]) == a.cubes@[i],
        forall|k: int|
            0 <= k < added.len() ==> (#[trigger] b.cubes@[a.cubes@.len() + k]) == (Cube {
                id: (a.next_id + k) as usize,
                ..added[k]
            }),
        b.grid == a.grid,
        b.links == a.links,
        b.mouse_state == a.mouse_state,
    ensures
        a.ids_wf() ==> b.ids_wf(),
        a.wf() && (forall|k: int|
            0 <= k < added.len() ==> (#[trigger] added[k]).wf() && !added[k].is_active) ==> b.wf(),
{
    let m = a.cubes@.len() as int;
    let n = b.cubes@.len() as int;
    if a.ids_wf() {
        assert forall|i: int| 0 <= i < n implies 1 <= (#[trigger] b.cubes@[i]).id < b.next_id by {
            if i < m {
                assert(b.cubes@[i] == a.cubes@[i]);
            } else {
                assert(b.cubes@[m + (i - m)].id == a.next_id + (i - m));
            }
        }
        assert forall|i: int, j: int| 0 <= i < j < n implies (#[trigger] b.cubes@[i]).id != (
        #[trigger] b.cubes@[j]).id by {
            if i < m {
                assert(b.cubes@[i] == a.cubes@[i]);
                assert(a.cubes@[i].id < a.next_id);
            } else {
                assert(b.cubes@[m + (i - m)].id == a.next_id + (i - m));
            }
            if j < m {
                assert(b.cubes@[j] == a.cubes@[j]);
            } else {
                assert(b.cubes@[m + (j - m)].id == a.next_id + (j - m));
            }
        }
    }
    if a.wf() && (forall|k: int|
        0 <= k < added.len() ==> (#[trigger] added[k]).wf() && !added[k].is_active) {
        assert forall|i: int| 0 <= i < n implies (#[trigger] b.cubes@[i]).wf() && (i >= m
            ==> !b.cubes@[i].is_active) by {
            if i < m {
                assert(b.cubes@[i] == a.cubes@[i]);
            } else {
                assert(added[i - m].wf() && !added[i - m].is_active);
                assert(b.cubes@[m + (i - m)] == (Cube {
                    id: (a.next_id + (i - m)) as usize,
                    ..added[i - m]
                }));
            }
        }
        assert forall|k: int| k < m implies active_only(a.cubes@, k) == active_only(b.cubes@, k) by {
            if active_only(a.cubes@, k) {
                assert forall|i: int| 0 <= i < n implies ((#[trigger] b.cubes@[i]).is_active <==> i
                    == k) by {
                    if i < m {
                        assert(a.cubes@[i].is_active <==> i == k);
                    }
                }
            }
            if active_only(b.cubes@, k) {
                assert forall|i: int| 0 <= i < m implies ((#[trigger] a.cubes@[i]).is_active <==> i
                    == k) by {
                    assert(b.cubes@[i].is_active <==> i == k);
                }
            }
        }
        assert(one_active(a.cubes@) == one_active(b.cubes@)) by {
            if one_active(a.cubes@) {
                let i = choose|i: int| 0 <= i < m && #[trigger] active_only(a.cubes@, i);
                assert(active_only(b.cubes@, i));
            }
            if one_active(b.cubes@) {
                let i = choose|i: int| 0 <= i < n && #[trigger] active_only(b.cubes@, i);
                assert(b.cubes@[i].is_active);
                assert(active_only(a.cubes@, i));
            }
        }
        lemma_hover_same(a, b);
    }
}

/// The pointer hovers over exactly one of three things: a block, a label, or
/// nothing.
pub proof fn lemma_hover_exclusive(scene: CubeGrid)
    requires
        scene.wf(),
    ensures
        scene.hovering_block() || scene.hovering_hotspot() || scene.hovering_nothing(),
        !(scene.hovering_block() && scene.hovering_hotspot()),
        !(scene.hovering_block() && scene.hovering_nothing()),
        !(scene.hovering_hotspot() && scene.hovering_nothing()),
{
}

/// One thing to draw, by its index in the scene.
#[derive(Clone, Copy, Debug, PartialEq, Eq, Structural)]
pub enum Drawable {
    /// The shadow of the block at this index.
    Shadow(usize),
    /// The label at this index.
    Label(usize),
    /// The block at this index.
    Block(usize),
}

/// What is drawn for a scene of `blocks` blocks in paint order and `labels`
/// labels, the first to be drawn first: the shadows and, over the labels,
/// the blocks, each from the farthest to the nearest.
pub open spec fn paint_list_spec(blocks: nat, labels: nat) -> Seq<Drawable> {
    Seq::new(blocks, |k: int| Drawable::Shadow((blocks - 1 - k) as usize)) + Seq::new(
        labels,
        |j: int| Drawable::Label(j as usize),
    ) + Seq::new(blocks, |k: int| Drawable::Block((blocks - 1 - k) as usize))
}

/// What the pointer is doing in the scene.
#[derive(Clone, Copy, Debug, PartialEq, Eq, Structural)]
pub enum Interaction {
    /// Over nothing.
    Idle,
    /// Over the block of this identifier.
    HoveringBlock(usize),
    /// Over a label.
    HoveringHotspot,
    /// Holding the block of this identifier.
    Dragging(usize),
}

/// The index of an active block.
pub open spec fn active_index(cubes: Seq<Cube>) -> int {
    choose|i: int| 0 <= i < cubes.len() && (#[trigger] cubes[i]).is_active
}

/// The four states of the interaction are told apart by what the pointer
/// hovers over and by whether a block is held.
pub proof fn lemma_interaction_states(scene: CubeGrid)
    requires
        scene.wf(),
    ensures
        scene.interaction_spec() is Idle <==> scene.hovering_nothing(),
        scene.interaction_spec() is HoveringHotspot <==> scene.hovering_hotspot(),
        scene.interaction_spec() is HoveringBlock <==> scene.hovering_block()
            && !scene.mouse_state.is_dragging_cube,
        scene.interaction_spec() is Dragging <==> scene.mouse_state.is_dragging_cube,
        scene.hovering_block() ==> {
            let i = active_index(scene.cubes@);
            &&& 0 <= i < scene.cubes@.len()
            &&& active_only(scene.cubes@, i)
            &&& scene.interaction_spec() == if scene.mouse_state.is_dragging_cube {
                Interaction::Dragging(scene.cubes@[i].id)
            } else {
                Interaction::HoveringBlock(scene.cubes@[i].id)
            }
        },
{
    if scene.hovering_block() {
        let k = choose|k: int| 0 <= k < scene.cubes@.len() && #[trigger] active_only(scene.cubes@, k);
        assert(scene.cubes@[k].is_active);
        let i = active_index(scene.cubes@);
        assert(scene.cubes@[i].is_active <==> i == k);
    }
}

/// In a frame of a drag, the held block follows the pointer by exactly the
/// pointer's logical displacement, whatever it pushes, or else no block
/// moves at all.
pub proof fn lemma_held_block_follows(scene: CubeGrid, after: CubeGrid)
    requires
        scene.wf(),
        scene.mouse_state.is_dragging_cube,
        scene.dragged_to(after),
    ensures
        ({
            let a = active_index(scene.cubes@);
            let d = scene.drag_delta_spec();
            &&& 0 <= a < scene.cubes@.len()
            &&& active_only(scene.cubes@, a)
            &&& after.cubes@ == scene.cubes@ || after.cubes@[a] == scene.cubes@[a].translated_spec(
                d.0,
                d.1,
            )
        }),
{
    lemma_interaction_states(scene);
    let a = active_index(scene.cubes@);
    let d = scene.drag_delta_spec();
    if !(d.0 == 0 && d.1 == 0) {
        let settled = choose|settled: bool| #[trigger]
            drag_outcome(scene.cubes@, d.0, d.1, after.cubes@, settled);
        if settled {
            assert forall|i: int| 0 <= i < scene.cubes@.len() && i != a implies (
            #[trigger] scene.cubes@[i]).id != scene.cubes@[a].id by {
                if i < a {
                    assert(scene.cubes@[i].id != scene.cubes@[a].id);
                } else {
                    assert(scene.cubes@[a].id != scene.cubes@[i].id);
                }
            }
            lemma_drag_moves_dragged_block(scene.cubes@, d.0, d.1, after.cubes@, a);
        }
    }
}

/// What one frame asks of the embedder.
#[derive(Clone, Copy, Debug)]
pub struct Frame {
    /// Whether the scene is to be drawn again.
    pub redraw: bool,
    /// The index of the label whose target is to be opened.
    pub open: Option<usize>,
}

impl CubeGrid {
    /// The identifiers are at least 1, below `next_id`, and all different.
    pub open spec fn ids_wf(self) -> bool {
        &&& self.next_id >= 1
        &&& forall|i: int| 0 <= i < self.cubes@.len() ==> 1 <= (#[trigger] self.cubes@[i]).id < self.next_id
        &&& forall|i: int, j: int|
            0 <= i < j < self.cubes@.len() ==> (#[trigger] self.cubes@[i]).id != (
            #[trigger] self.cubes@[j]).id
    }

    /// The pointer hovers over a block: one block is active, and no label.
    pub open spec fn hovering_block(self) -> bool {
        &&& self.mouse_state.cursor_style == Cursor::Grab
        &&& one_active(self.cubes@)
        &&& links_idle_but(self.links@, -1)
    }

    /// The pointer hovers over a label: no block is active, and no label
    /// but, at most, one.
    pub open spec fn hovering_hotspot(self) -> bool {
        &&& self.mouse_state.cursor_style == Cursor::Link
        &&& active_only(self.cubes@, -1)
        &&& one_label_at_most(self.links@)
    }

    /// The pointer hovers over nothing: nothing is active.
    pub open spec fn hovering_nothing(self) -> bool {
        &&& self.mouse_state.cursor_style == Cursor::Default
        &&& active_only(self.cubes@, -1)
        &&& links_idle_but(self.links@, -1)
    }

    /// The pointer hovers over a block, over a label, or over nothing.
    pub open spec fn hover_wf(self) -> bool {
        self.hovering_block() || self.hovering_hotspot() || self.hovering_nothing()
    }

    /// The scene is in order.
    pub open spec fn wf(self) -> bool {
        &&& self.grid.wf()
        &&& forall|i: int| 0 <= i < self.cubes@.len() ==> (#[trigger] self.cubes@[i]).wf()
        &&& self.ids_wf()
        &&& self.hover_wf()
        &&& self.mouse_state.is_dragging_cube ==> self.hovering_block()
    }

    /// An empty scene.
    pub fn new() -> (scene: CubeGrid)
        ensures
            scene.wf(),
            scene.hovering_nothing(),
            scene.cubes@.len() == 0,
            scene.links@.len() == 0,
            scene.next_id == 1,
            scene.mouse_events@.len() == 0,
            scene.touch_events@.len() == 0,
            scene.grid.width == 0 && scene.grid.height == 0 && scene.grid.device_pixel_ratio == 0,
            scene.grid.light_source.x == -1201,
            scene.grid.light_source.y == 1201,
            scene.grid.light_source.z == 2400,
            scene.window_dimensions == (WindowDimensions {
                width: 0,
                height: 0,
                device_pixel_ratio: 0,
            }),
            scene.mouse_state.last_position == (Coord { x: 0, y: 0 }),
            scene.mouse_state.last_down_position == (Coord { x: 0, y: 0 }),
            scene.mouse_state.current_position == (Coord { x: 0, y: 0 }),
            !scene.mouse_state.is_pressed,
            !scene.mouse_state.is_dragging_cube,
            !scene.mouse_state.just_released,
            scene.mouse_state.current_touch is None,
            scene.mouse_state.cursor_style == Cursor::Default,
    {
        CubeGrid {
            next_id: 1,
            grid: Grid::default(),
            cubes: Vec::new(),
            links: Vec::new(),
            mouse_events: Vec::new(),
            touch_events: Vec::new(),
            window_dimensions: WindowDimensions { width: 0, height: 0, device_pixel_ratio: 0 },
            mouse_state: MouseState::new(),
        }
    }

    /// Adds blocks to the scene. Each gets the next identifier and is stored
    /// as it comes otherwise. The scene stays in order where the blocks that
    /// come are well formed and inactive.
    pub fn insert_cubes(&mut self, cubes: Vec<Cube>)
        requires
            old(self).next_id + cubes@.len() <= usize::MAX,
        ensures
            final(self).next_id == old(self).next_id + cubes@.len(),
            final(self).cubes@.len() == old(self).cubes@.len() + cubes@.len(),
            forall|i: int|
                0 <= i < old(self).cubes@.len() ==> (#[trigger] final(self).cubes@[i])
                    == old(self).cubes@[i],
            forall|k: int|
                0 <= k < cubes@.len() ==> (#[trigger] final(self).cubes@[old(self).cubes@.len() + k])
                    == (Cube { id: (old(self).next_id + k) as usize, ..cubes@[k] }),
            final(self).grid == old(self).grid,
            final(self).links == old(self).links,
            final(self).mouse_state == old(self).mouse_state,
            final(self).window_dimensions == old(self).window_dimensions,
            final(self).mouse_events == old(self).mouse_events,
            final(self).touch_events == old(self).touch_events,
            old(self).ids_wf() ==> final(self).ids_wf(),
            old(self).wf() && (forall|k: int|
                0 <= k < cubes@.len() ==> (#[trigger] cubes@[k]).wf() && !cubes@[k].is_active)
                ==> final(self).wf(),
    {
        let ghost before = old(self).cubes@;
        let mut k: usize = 0;
        while k < cubes.len()
            invariant
                0 <= k <= cubes@.len(),
                old(self).next_id + cubes@.len() <= usize::MAX,
                before == old(self).cubes@,
                self.next_id == old(self).next_id + k,
                self.cubes@.len() == before.len() + k,
                forall|i: int| 0 <= i < before.len() ==> (#[trigger] self.cubes@[i]) == before[i],
                forall|j: int|
                    0 <= j < k ==> (#[trigger] self.cubes@[before.len() + j]) == (Cube {
                        id: (old(self).next_id + j) as usize,
                        ..cubes@[j]
                    }),
                self.grid == old(self).grid,
                self.links == old(self).links,
                self.mouse_state == old(self).mouse_state,
                self.window_dimensions == old(self).window_dimensions,
                self.mouse_events == old(self).mouse_events,
                self.touch_events == old(self).touch_events,
            decreases cubes@.len() - k,
        {
            let mut cube = cubes[k];
            cube.id = self.next_id;
            self.next_id += 1;
            self.cubes.push(cube);
            k += 1;
        }
        proof {
            lemma_inserted(*old(self), *self, cubes@);
        }
    }

    /// Adds a label whose text is `width` pixels wide when drawn.
    pub fn insert_link(&mut self, x: i32, y: i32, label: &'static str, url: &'static str, width: u32)
        requires
            old(self).wf(),
        ensures
            final(self).wf(),
            final(self).links@ == old(self).links@.push(
                Link { coord: Coord { x, y }, text: label, url, width, is_active: false },
            ),
            final(self).cubes == old(self).cubes,
            final(self).grid == old(self).grid,
            final(self).next_id == old(self).next_id,
            final(self).mouse_state == old(self).mouse_state,
            final(self).window_dimensions == old(self).window_dimensions,
            final(self).mouse_events == old(self).mouse_events,
            final(self).touch_events == old(self).touch_events,
    {
        let ghost prior = *self;
        self.links.push(Link::new(x, y, label, url, width));
        proof {
            let n = prior.links@.len() as int;
            assert(forall|j: int| 0 <= j < n ==> self.links@[j] == prior.links@[j]);
            assert(!self.links@[n].is_active);
            assert(self.cubes@ == prior.cubes@);
            if prior.hovering_block() {
                assert(links_idle_but(self.links@, -1));
                assert(self.hovering_block());
            } else if prior.hovering_hotspot() {
                let j = choose|j: int|
                    0 <= j < prior.links@.len() && #[trigger] links_idle_but(prior.links@, j);
                assert(links_idle_but(self.links@, j));
                assert(self.hovering_hotspot());
            } else {
                assert(links_idle_but(self.links@, -1));
                assert(self.hovering_nothing());
            }
        }
    }

    /// Whether `other` has the same blocks, labels, next identifier and
    /// cursor.
    pub open spec fn same_objects(self, other: CubeGrid) -> bool {
        &&& self.cubes == other.cubes
        &&& self.links == other.links
        &&& self.next_id == other.next_id
        &&& self.mouse_state.cursor_style == other.mouse_state.cursor_style
    }

    /// Whether `other` differs from this scene in nothing but the queues,
    /// the reported window, and the pointer state apart from the cursor.
    pub open spec fn same_scene(self, other: CubeGrid) -> bool {
        self.same_objects(other) && self.grid == other.grid
    }

    /// Queues a pointer sample for the next frame.
    pub fn queue_mouse_event(&mut self, event: MouseEvent)
        ensures
            final(self).mouse_events@ == old(self).mouse_events@.push(event),
            final(self).touch_events == old(self).touch_events,
            final(self).window_dimensions == old(self).window_dimensions,
            final(self).mouse_state == old(self).mouse_state,
            final(self).same_scene(*old(self)),
            old(self).wf() ==> final(self).wf(),
    {
        self.mouse_events.push(event);
        proof {
            if old(self).wf() {
                lemma_same_scene_wf(*old(self), *self);
            }
        }
    }

    /// Queues a touch sample for the next frame.
    pub fn queue_touch_event(&mut self, event: TouchEvent)
        ensures
            final(self).touch_events@ == old(self).touch_events@.push(event),
            final(self).mouse_events == old(self).mouse_events,
            final(self).window_dimensions == old(self).window_dimensions,
            final(self).mouse_state == old(self).mouse_state,
            final(self).same_scene(*old(self)),
            old(self).wf() ==> final(self).wf(),
    {
        self.touch_events.push(event);
        proof {
            if old(self).wf() {
                lemma_same_scene_wf(*old(self), *self);
            }
        }
    }

    /// Notes the window's extent and pixel ratio for the next frame.
    pub fn set_window_dimensions(&mut self, width: u32, height: u32, device_pixel_ratio: u8)
        ensures
            final(self).window_dimensions == (WindowDimensions { width, height, device_pixel_ratio }),
            final(self).mouse_events == old(self).mouse_events,
            final(self).touch_events == old(self).touch_events,
            final(self).mouse_state == old(self).mouse_state,
            final(self).same_scene(*old(self)),
            old(self).wf() ==> final(self).wf(),
    {
        self.window_dimensions = WindowDimensions { width, height, device_pixel_ratio };
        proof {
            if old(self).wf() {
                lemma_same_scene_wf(*old(self), *self);
            }
        }
    }

    /// Takes the window as last reported for the viewport, and says whether
    /// the viewport's extent in device pixels has changed.
    pub fn update_dimens(&mut self) -> (changed: bool)
        ensures
            final(self).grid.wf(),
            final(self).grid.width == old(self).window_dimensions.width
                * old(self).window_dimensions.device_pixel_ratio,
            final(self).grid.height == old(self).window_dimensions.height
                * old(self).window_dimensions.device_pixel_ratio,
            final(self).grid.device_pixel_ratio == old(self).window_dimensions.device_pixel_ratio,
            final(self).grid.light_source == old(self).grid.light_source,
            changed <==> final(self).grid.width != old(self).grid.width || final(self).grid.height
                != old(self).grid.height,
            final(self).cubes == old(self).cubes,
            final(self).links == old(self).links,
            final(self).next_id == old(self).next_id,
            final(self).mouse_state == old(self).mouse_state,
            final(self).window_dimensions == old(self).window_dimensions,
            final(self).mouse_events == old(self).mouse_events,
            final(self).touch_events == old(self).touch_events,
            old(self).wf() ==> final(self).wf(),
    {
        let dimens = self.window_dimensions;
        let changed = self.grid.update_dimensions(
            dimens.width,
            dimens.height,
            dimens.device_pixel_ratio,
        );
        proof {
            if old(self).wf() {
                lemma_same_scene_wf(*old(self), *self);
            }
        }
        changed
    }

    /// Folds the queued samples into the pointer state and empties the queue
    /// that was read, and says whether there was any sample. Pointer samples
    /// go first: touch samples wait while there is a pointer sample.
    pub fn handle_input_events(&mut self) -> (any: bool)
        ensures
            final(self).mouse_state == old(self).mouse_state.after_frame(
                old(self).mouse_events@,
                old(self).touch_events@,
            ),
            any == (old(self).mouse_events@.len() > 0 || old(self).touch_events@.len() > 0),
            final(self).mouse_events@.len() == 0,
            final(self).touch_events@ == if old(self).mouse_events@.len() > 0 {
                old(self).touch_events@
            } else {
                Seq::<TouchEvent>::empty()
            },
            final(self).window_dimensions == old(self).window_dimensions,
            final(self).same_scene(*old(self)),
            old(self).wf() ==> final(self).wf(),
    {
        proof {
            lemma_frame_keeps_cursor(self.mouse_state, self.mouse_events@, self.touch_events@);
        }
        let any = self.mouse_state.take_frame(&self.mouse_events, &self.touch_events);
        if self.mouse_events.len() > 0 {
            self.mouse_events = Vec::new();
        } else if self.touch_events.len() > 0 {
            self.touch_events = Vec::new();
        }
        proof {
            if old(self).wf() {
                lemma_same_scene_wf(*old(self), *self);
            }
        }
        any
    }

    /// The logical displacement of the pointer since the frame before:
    /// the ground position under where it is, less the one under where it
    /// was.
    pub open spec fn drag_delta_spec(self) -> (int, int) {
        let now = self.grid.cartesian_to_iso_spec(
            self.mouse_state.current_position.x as int,
            self.mouse_state.current_position.y as int,
        );
        let then = self.grid.cartesian_to_iso_spec(
            self.mouse_state.last_position.x as int,
            self.mouse_state.last_position.y as int,
        );
        (now.0 - then.0, now.1 - then.1)
    }

    /// Whether `after` is this scene after a frame in which a block is being
    /// dragged: the active blocks have moved with the pointer and pushed the
    /// others, or nothing has moved where that would take a block out of the
    /// coordinate range or where the pointer has not moved.
    pub open spec fn dragged_to(self, after: CubeGrid) -> bool {
        let d = self.drag_delta_spec();
        &&& after.mouse_state == self.mouse_state
        &&& after.links == self.links
        &&& blocks_kept(self.cubes@, after.cubes@)
        &&& activity_kept(self.cubes@, after.cubes@)
        &&& if d.0 == 0 && d.1 == 0 {
            after.cubes@ == self.cubes@
        } else {
            exists|settled: bool| #[trigger] drag_outcome(self.cubes@, d.0, d.1, after.cubes@, settled)
        }
    }

    /// Whether `after` is this scene after the frame in which a drag ends:
    /// nothing changes but that the drag is over, where a block is active.
    pub open spec fn released_to(self, after: CubeGrid) -> bool {
        &&& after.cubes == self.cubes
        &&& after.links == self.links
        &&& after.mouse_state == (MouseState {
            is_dragging_cube: !any_active(self.cubes@),
            ..self.mouse_state
        })
    }

    /// Whether `after` is this scene after a frame in which the pointer
    /// moves freely, and `opened` the label to open.
    ///
    /// The first block under the pointer becomes the only active object, and
    /// is dragged from now on if the pointer is pressed. Where there is no
    /// such block, the first label under the pointer is the target: it is
    /// active unless the pointer is pressed, and opened if the pointer has
    /// just been released and had gone down over the same label. Where there
    /// is neither, nothing is active.
    pub open spec fn hovered_to(self, after: CubeGrid, opened: Option<usize>) -> bool {
        let at = self.mouse_state.current_position;
        let c = first_cube_hit(self.cubes@, at, self.grid, 0);
        let l = first_link_hit(self.links@, at, self.grid, 0);
        let on_cube = c < self.cubes@.len();
        let on_link = !on_cube && l < self.links@.len();
        &&& cubes_retargeted(self.cubes@, after.cubes@, c)
        &&& links_retargeted(
            self.links@,
            after.links@,
            if on_link {
                l
            } else {
                self.links@.len() as int
            },
            !self.mouse_state.is_pressed,
        )
        &&& after.mouse_state == (MouseState {
            is_dragging_cube: on_cube && self.mouse_state.is_pressed,
            cursor_style: if on_cube {
                Cursor::Grab
            } else if on_link {
                Cursor::Link
            } else {
                Cursor::Default
            },
            ..self.mouse_state
        })
        &&& opened == if on_link && self.mouse_state.just_released && link_hit(
            self.links@,
            l,
            self.mouse_state.last_down_position,
            self.grid,
        ) {
            Some(l as usize)
        } else {
            None
        }
    }

    /// Whether `after` is this scene once the pointer state has been acted
    /// on, and `opened` the label to open: a drag goes on while the pointer
    /// is pressed and ends when it is not; at any other time the object
    /// under the pointer is looked for.
    pub open spec fn responded_to(self, after: CubeGrid, opened: Option<usize>) -> bool {
        if self.mouse_state.is_dragging_cube {
            &&& opened is None
            &&& if self.mouse_state.is_pressed {
                self.dragged_to(after)
            } else {
                self.released_to(after)
            }
        } else {
            self.hovered_to(after, opened)
        }
    }

    /// Whether `after` is this scene once the queued samples are folded in
    /// and the window as last reported is taken for the viewport.
    pub open spec fn primed_to(self, after: CubeGrid) -> bool {
        let w = self.window_dimensions;
        &&& after.cubes == self.cubes
        &&& after.links == self.links
        &&& after.next_id == self.next_id
        &&& after.mouse_state == self.mouse_state.after_frame(self.mouse_events@, self.touch_events@)
        &&& after.grid == (Grid {
            width: (w.width * w.device_pixel_ratio) as i64,
            height: (w.height * w.device_pixel_ratio) as i64,
            device_pixel_ratio: w.device_pixel_ratio,
            light_source: self.grid.light_source,
        })
    }

    /// Whether `after` is this scene after one frame that found something
    /// to do, and `opened` the label to open: the samples are folded in, the
    /// viewport is renewed, the pointer state is acted on, and the blocks
    /// are put in paint order.
    pub open spec fn framed_to(self, after: CubeGrid, opened: Option<usize>) -> bool {
        exists|primed: CubeGrid, responded: CubeGrid|
            {
                &&& #[trigger] self.primed_to(primed)
                &&& #[trigger] primed.responded_to(responded, opened)
                &&& paint_order_of(responded.cubes@, after.cubes@)
                &&& after.links == responded.links
                &&& after.mouse_state == responded.mouse_state
                &&& after.grid == primed.grid
            }
    }

    /// Makes of the pointer state what the frame calls for, and gives the
    /// index of the label to open, if any.
    ///
    /// While a block is dragged with the pointer pressed, the active blocks
    /// follow the pointer. Once the pointer is released, the drag ends. At
    /// any other time the object under the pointer is looked for.
    pub fn handle_mouse_state(&mut self) -> (opened: Option<usize>)
        requires
            old(self).wf(),
        ensures
            final(self).wf(),
            final(self).grid == old(self).grid,
            final(self).next_id == old(self).next_id,
            final(self).window_dimensions == old(self).window_dimensions,
            final(self).mouse_events == old(self).mouse_events,
            final(self).touch_events == old(self).touch_events,
            old(self).responded_to(*final(self), opened),
            blocks_kept(old(self).cubes@, final(self).cubes@),
    {
        if self.mouse_state.is_pressed && self.mouse_state.is_dragging_cube {
            let now = self.grid.cartesian_to_iso(
                self.mouse_state.current_position.x,
                self.mouse_state.current_position.y,
            );
            let then = self.grid.cartesian_to_iso(
                self.mouse_state.last_position.x,
                self.mouse_state.last_position.y,
            );
            let dx: i64 = now.0 - then.0;
            let dy: i64 = now.1 - then.1;
            if dx == 0 && dy == 0 {
                assert(old(self).dragged_to(*self));
                return None;
            }
            let settled = drag(&mut self.cubes, dx, dy);
            proof {
                lemma_flags_kept(*old(self), *self);
                let d = old(self).drag_delta_spec();
                assert(d.0 == dx && d.1 == dy);
                assert(drag_outcome(old(self).cubes@, d.0, d.1, self.cubes@, settled));
                assert(old(self).dragged_to(*self));
            }
            None
        } else if !self.mouse_state.is_pressed && self.mouse_state.is_dragging_cube {
            if has_active(&self.cubes) {
                self.mouse_state.is_dragging_cube = false;
            }
            proof {
                lemma_same_scene_wf(*old(self), *self);
                assert(old(self).released_to(*self));
            }
            None
        } else {
            let at = self.mouse_state.current_position;
            let pressed = self.mouse_state.is_pressed;
            self.mouse_state.is_dragging_cube = false;
            let c = retarget_cubes(&mut self.cubes, &at, &self.grid);
            let on_cube = c < self.cubes.len();
            if on_cube {
                self.mouse_state.cursor_style = Cursor::Grab;
                if pressed {
                    self.mouse_state.is_dragging_cube = true;
                }
            }
            let l = retarget_links(&mut self.links, &at, &self.grid, !on_cube, !pressed);
            let on_link = l < self.links.len();
            let mut opened: Option<usize> = None;
            if on_link {
                self.mouse_state.cursor_style = Cursor::Link;
                let down = self.mouse_state.last_down_position;
                if self.mouse_state.just_released && self.links[l].hit_test(&down, &self.grid) {
                    opened = Some(l);
                }
                assert(self.links@[l as int].outline_spec(self.grid) == old(self).links@[l as int].outline_spec(
                    self.grid,
                ));
            }
            if !on_cube && !on_link {
                self.mouse_state.cursor_style = Cursor::Default;
            }
            proof {
                assert(active_only(self.cubes@, if on_cube { c as int } else { -1 }));
                assert(links_idle_but(self.links@, if on_link { l as int } else { -1 }));
                if on_cube {
                    assert(self.hovering_block());
                } else if on_link {
                    assert(self.hovering_hotspot());
                } else {
                    assert(self.hovering_nothing());
                }
                assert(old(self).hovered_to(*self, opened));
            }
            opened
        }
    }

    /// Whether a sample waits in a queue.
    pub open spec fn has_input(self) -> bool {
        self.mouse_events@.len() > 0 || self.touch_events@.len() > 0
    }

    /// Whether the window as last reported differs in its extent in device
    /// pixels from the viewport.
    pub open spec fn viewport_stale(self) -> bool {
        let w = self.window_dimensions;
        self.grid.width != w.width * w.device_pixel_ratio || self.grid.height != w.height
            * w.device_pixel_ratio
    }

    /// Puts the blocks in paint order: the nearest first, and blocks that
    /// are equally near in the order in which they stood.
    pub fn sort_cubes(&mut self)
        ensures
            paint_order_of(old(self).cubes@, final(self).cubes@),
            final(self).links == old(self).links,
            final(self).grid == old(self).grid,
            final(self).next_id == old(self).next_id,
            final(self).mouse_state == old(self).mouse_state,
            final(self).window_dimensions == old(self).window_dimensions,
            final(self).mouse_events == old(self).mouse_events,
            final(self).touch_events == old(self).touch_events,
            old(self).wf() ==> final(self).wf(),
    {
        sort_by_depth(&mut self.cubes);
        proof {
            if old(self).wf() {
                lemma_paint_order_wf(*old(self), *self);
            }
        }
    }

    /// The work of one frame: folds the queued samples into the pointer
    /// state and takes the window as last reported; then, only where there
    /// was a sample or the viewport has changed, makes of the pointer state
    /// what it calls for, puts the blocks in paint order, and asks for the
    /// scene to be drawn again.
    pub fn frame(&mut self) -> (frame: Frame)
        requires
            old(self).wf(),
        ensures
            final(self).wf(),
            frame.redraw <==> old(self).has_input() || old(self).viewport_stale(),
            frame.redraw ==> old(self).framed_to(*final(self), frame.open),
            blocks_carried(old(self).cubes@, final(self).cubes@),
            final(self).touch_events@ == if old(self).mouse_events@.len() > 0 {
                old(self).touch_events@
            } else {
                Seq::<TouchEvent>::empty()
            },
            !frame.redraw ==> frame.open is None,
            !frame.redraw ==> final(self).cubes == old(self).cubes,
            !frame.redraw ==> final(self).links == old(self).links,
            !frame.redraw ==> final(self).mouse_state == old(self).mouse_state,
            final(self).mouse_events@.len() == 0,
            final(self).window_dimensions == old(self).window_dimensions,
            final(self).next_id == old(self).next_id,
            final(self).grid.width == old(self).window_dimensions.width
                * old(self).window_dimensions.device_pixel_ratio,
            final(self).grid.height == old(self).window_dimensions.height
                * old(self).window_dimensions.device_pixel_ratio,
    {
        let events_changed = self.handle_input_events();
        let dimens_changed = self.update_dimens();
        if dimens_changed || events_changed {
            let ghost primed = *self;
            let open = self.handle_mouse_state();
            let ghost responded = *self;
            self.sort_cubes();
            proof {
                assert(old(self).primed_to(primed));
                assert(primed.responded_to(responded, open));
                lemma_carried(old(self).cubes@, responded.cubes@, self.cubes@);
            }
            Frame { redraw: true, open }
        } else {
            proof {
                assert forall|i: int| 0 <= i < self.cubes@.len() implies holds_block(
                    old(self).cubes@,
                    #[trigger] self.cubes@[i],
                ) && holds_block(self.cubes@, #[trigger] old(self).cubes@[i]) by {
                    assert(same_identity(self.cubes@[i], old(self).cubes@[i]));
                }
            }
            Frame { redraw: false, open: None }
        }
    }

    /// The CSS name of the cursor to show.
    pub fn cursor_string(&self) -> (name: &'static str)
        ensures
            name@ == self.mouse_state.cursor_style.css_spec(self.mouse_state.is_pressed),
    {
        self.mouse_state.cursor_string()
    }

    /// Whether the identifiers are at least 1, below `next_id`, and all
    /// different.
    pub fn ids_are_wf(&self) -> (ok: bool)
        ensures
            ok == self.ids_wf(),
    {
        if self.next_id < 1 {
            return false;
        }
        let n = self.cubes.len();
        let mut j: usize = 0;
        while j < n
            invariant
                0 <= j <= n == self.cubes@.len(),
                self.next_id >= 1,
                forall|i: int| 0 <= i < j ==> 1 <= (#[trigger] self.cubes@[i]).id < self.next_id,
                forall|a: int, b: int|
                    0 <= a < b < j ==> (#[trigger] self.cubes@[a]).id != (#[trigger] self.cubes@[b]).id,
            decreases n - j,
        {
            let id = self.cubes[j].id;
            if id < 1 || id >= self.next_id {
                return false;
            }
            let mut i: usize = 0;
            while i < j
                invariant
                    0 <= i <= j < n == self.cubes@.len(),
                    id == self.cubes@[j as int].id,
                    forall|a: int| 0 <= a < i ==> (#[trigger] self.cubes@[a]).id != id,
                decreases j - i,
            {
                if self.cubes[i].id == id {
                    return false;
                }
                i += 1;
            }
            j += 1;
        }
        true
    }

    /// Whether the scene is in order.
    pub fn is_wf(&self) -> (ok: bool)
        ensures
            ok == self.wf(),
    {
        if !self.grid.is_wf() || !self.ids_are_wf() {
            return false;
        }
        let mut i: usize = 0;
        while i < self.cubes.len()
            invariant
                0 <= i <= self.cubes@.len(),
                forall|k: int| 0 <= k < i ==> (#[trigger] self.cubes@[k]).wf(),
            decreases self.cubes@.len() - i,
        {
            if !self.cubes[i].is_wf() {
                return false;
            }
            i += 1;
        }
        let block = only_active(&self.cubes);
        let label = only_active_link(&self.links);
        let blocks = self.cubes.len();
        let labels = self.links.len();
        match (block, label) {
            (Some(b), Some(l)) => {
                proof {
                    if l < labels {
                        assert(!links_idle_but(self.links@, -1));
                    }
                    if b < blocks {
                        assert(self.cubes@[b as int].is_active);
                        assert(!active_only(self.cubes@, -1));
                    } else {
                        assert forall|k: int| 0 <= k < blocks implies !#[trigger] active_only(
                            self.cubes@,
                            k,
                        ) by {
                            assert(!self.cubes@[k].is_active);
                        }
                    }
                }
                if self.mouse_state.is_dragging_cube && self.mouse_state.cursor_style
                    != Cursor::Grab {
                    return false;
                }
                match self.mouse_state.cursor_style {
                    Cursor::Grab => b < blocks && l == labels,
                    Cursor::Link => {
                        proof {
                            if l == labels && labels > 0 {
                                assert(links_idle_but(self.links@, 0));
                            }
                        }
                        b == blocks && labels > 0
                    },
                    Cursor::Default => b == blocks && l == labels,
                }
            },
            _ => false,
        }
    }

    /// What the pointer is doing: it holds a block or hovers over one, it
    /// hovers over a label, or it is over nothing.
    pub open spec fn interaction_spec(self) -> Interaction {
        if self.hovering_block() {
            let id = self.cubes@[active_index(self.cubes@)].id;
            if self.mouse_state.is_dragging_cube {
                Interaction::Dragging(id)
            } else {
                Interaction::HoveringBlock(id)
            }
        } else if self.hovering_hotspot() {
            Interaction::HoveringHotspot
        } else {
            Interaction::Idle
        }
    }

    /// What the pointer is doing.
    #[verifier::loop_isolation(false)]
    pub fn interaction(&self) -> (state: Interaction)
        requires
            self.wf(),
        ensures
            state == self.interaction_spec(),
    {
        proof {
            lemma_interaction_states(*self);
        }
        match self.mouse_state.cursor_style {
            Cursor::Grab => {
                let ghost held = active_index(self.cubes@);
                let mut i: usize = 0;
                while i < self.cubes.len()
                    invariant
                        0 <= i <= held < self.cubes@.len(),
                        active_only(self.cubes@, held),
                    decreases self.cubes@.len() - i,
                {
                    if self.cubes[i].is_active {
                        let id = self.cubes[i].id;
                        assert(i == held);
                        return if self.mouse_state.is_dragging_cube {
                            Interaction::Dragging(id)
                        } else {
                            Interaction::HoveringBlock(id)
                        };
                    }
                    assert(self.cubes@[i as int].is_active <==> i == held);
                    i += 1;
                }
                assert(false);
                Interaction::Idle
            },
            Cursor::Link => Interaction::HoveringHotspot,
            Cursor::Default => Interaction::Idle,
        }
    }

    /// What is to be drawn, the first to be drawn first.
    pub fn paint_list(&self) -> (list: Vec<Drawable>)
        ensures
            list@ == paint_list_spec(self.cubes@.len(), self.links@.len()),
    {
        let blocks = self.cubes.len();
        let labels = self.links.len();
        let ghost shadows = Seq::new(
            blocks as nat,
            |k: int| Drawable::Shadow((blocks - 1 - k) as usize),
        );
        let ghost names = Seq::new(labels as nat, |j: int| Drawable::Label(j as usize));
        let ghost bodies = Seq::new(
            blocks as nat,
            |k: int| Drawable::Block((blocks - 1 - k) as usize),
        );
        let mut list: Vec<Drawable> = Vec::new();
        let mut k: usize = 0;
        while k < blocks
            invariant
                0 <= k <= blocks,
                list@ == shadows.take(k as int),
                shadows == Seq::new(
                    blocks as nat,
                    |k: int| Drawable::Shadow((blocks - 1 - k) as usize),
                ),
            decreases blocks - k,
        {
            list.push(Drawable::Shadow(blocks - 1 - k));
            assert(list@ =~= shadows.take(k + 1));
            k += 1;
        }
        assert(shadows.take(blocks as int) =~= shadows);
        let mut j: usize = 0;
        while j < labels
            invariant
                0 <= j <= labels,
                list@ == shadows + names.take(j as int),
                names == Seq::new(labels as nat, |j: int| Drawable::Label(j as usize)),
            decreases labels - j,
        {
            list.push(Drawable::Label(j));
            assert(list@ =~= shadows + names.take(j + 1));
            j += 1;
        }
        assert(names.take(labels as int) =~= names);
        let mut k: usize = 0;
        while k < blocks
            invariant
                0 <= k <= blocks,
                list@ == shadows + names + bodies.take(k as int),
                bodies == Seq::new(
                    blocks as nat,
                    |k: int| Drawable::Block((blocks - 1 - k) as usize),
                ),
            decreases blocks - k,
        {
            list.push(Drawable::Block(blocks - 1 - k));
            assert(list@ =~= shadows + names + bodies.take(k + 1));
            k += 1;
        }
        assert(bodies.take(blocks as int) =~= bodies);
        list
    }
}

} // verus!
