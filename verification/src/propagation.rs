//! The pass that carries one displacement through the scene: every block
//! that a moving block ends on is pushed in turn.
//!
//! The pass keeps a stack of pending movements and the set of the blocks
//! that have moved. It pops a movement, applies it to the block of that
//! identifier, marks the block as moved, and stacks the pushes that the
//! movement gives to the blocks not yet marked.

use std::collections::HashSet;
use vstd::prelude::*;
use crate::cube::{shift_fits, Cube};
use crate::movement::Movement;

verus! {

broadcast use vstd::std_specs::hash::group_hash_axioms;

/// The state of a pass between two steps.
pub struct PassState {
    /// The blocks, in scene order.
    pub cubes: Seq<Cube>,
    /// The pending movements; the last one is next.
    pub work: Seq<Movement>,
    /// The identifiers of the blocks that a movement was applied to.
    pub moved: Set<usize>,
    /// A movement would have taken a block out of the coordinate range.
    pub halted: bool,
}

/// The index of the first block at or after `from` with identifier `id`, or
/// the number of blocks if there is none.
pub open spec fn locate_from(cubes: Seq<Cube>, id: usize, from: int) -> int
    decreases cubes.len() - from,
{
    if from < 0 || from >= cubes.len() {
        cubes.len() as int
    } else if cubes[from].id == id {
        from
    } else {
        locate_from(cubes, id, from + 1)
    }
}

/// The index of the first block with identifier `id`, or the number of
/// blocks if there is none.
pub open spec fn locate(cubes: Seq<Cube>, id: usize) -> int {
    locate_from(cubes, id, 0)
}

/// The movements that `m` causes in the first `n` blocks, leaving out the
/// blocks that have moved, in scene order.
pub open spec fn impacts_upto(m: Movement, cubes: Seq<Cube>, moved: Set<usize>, n: int) -> Seq<
    Movement,
>
    decreases n,
{
    if n <= 0 {
        Seq::empty()
    } else {
        let before = impacts_upto(m, cubes, moved, n - 1);
        match m.impact_spec(cubes[n - 1]) {
            Some(caused) if !moved.contains(cubes[n - 1].id) => before.push(caused),
            _ => before,
        }
    }
}

/// Whether every push that `m` gives to one of the first `n` blocks, leaving
/// out the blocks that have moved, keeps that block within the coordinate
/// range.
pub open spec fn impacts_fit_upto(m: Movement, cubes: Seq<Cube>, moved: Set<usize>, n: int) -> bool {
    forall|j: int|
        0 <= j < n && j < cubes.len() && !moved.contains((#[trigger] cubes[j]).id) ==> match m.push_spec(
            cubes[j],
        ) {
            Some(p) => shift_fits(cubes[j].coord, p.0, p.1),
            None => true,
        }
}

impl PassState {
    /// The state before the first step of a pass from `seeds`.
    pub open spec fn start(cubes: Seq<Cube>, seeds: Seq<Movement>) -> PassState {
        PassState { cubes, work: seeds, moved: Set::empty(), halted: false }
    }

    /// Nothing is left to do: the stack is empty, or the pass has halted.
    pub open spec fn is_final(self) -> bool {
        self.halted || self.work.len() == 0
    }

    /// Every block and every pending movement is well formed.
    pub open spec fn wf(self) -> bool {
        &&& forall|i: int| 0 <= i < self.cubes.len() ==> (#[trigger] self.cubes[i]).wf()
        &&& forall|k: int| 0 <= k < self.work.len() ==> (#[trigger] self.work[k]).wf()
    }

    /// The state after one step.
    pub open spec fn step(self) -> PassState {
        if self.is_final() {
            self
        } else {
            let m = self.work.last();
            let rest = self.work.drop_last();
            let i = locate(self.cubes, m.end.id);
            if i >= self.cubes.len() {
                PassState { work: rest, ..self }
            } else if !shift_fits(self.cubes[i].coord, m.dx as int, m.dy as int) {
                PassState { halted: true, ..self }
            } else {
                let cubes = self.cubes.update(
                    i,
                    self.cubes[i].translated_spec(m.dx as int, m.dy as int),
                );
                let moved = self.moved.insert(m.end.id);
                if !impacts_fit_upto(m, cubes, moved, cubes.len() as int) {
                    PassState { halted: true, ..self }
                } else {
                    PassState {
                        cubes,
                        work: rest + impacts_upto(m, cubes, moved, cubes.len() as int),
                        moved,
                        halted: false,
                    }
                }
            }
        }
    }

    /// The blocks after the next pending movement has been applied to the
    /// block of its identifier, where there is one.
    pub open spec fn step_cubes(self) -> Seq<Cube> {
        let m = self.work.last();
        let i = locate(self.cubes, m.end.id);
        if i >= self.cubes.len() {
            self.cubes
        } else {
            self.cubes.update(i, self.cubes[i].translated_spec(m.dx as int, m.dy as int))
        }
    }

    /// The state after `n` steps.
    pub open spec fn run(self, n: nat) -> PassState
        decreases n,
    {
        if n == 0 {
            self
        } else {
            self.run((n - 1) as nat).step()
        }
    }

    /// The number of blocks among the first `n` that have not moved.
    pub open spec fn unmoved_upto(self, n: int) -> nat
        decreases n,
    {
        if n <= 0 {
            0
        } else {
            self.unmoved_upto(n - 1) + if self.moved.contains(self.cubes[n - 1].id) {
                0nat
            } else {
                1nat
            }
        }
    }

    /// A pending movement is spent where its block has moved already, or is
    /// not in the scene.
    pub open spec fn spent(self, m: Movement) -> bool {
        self.moved.contains(m.end.id) || locate(self.cubes, m.end.id) >= self.cubes.len()
    }

    /// The number of spent movements among the first `n` pending ones.
    pub open spec fn spent_upto(self, n: int) -> nat
        decreases n,
    {
        if n <= 0 {
            0
        } else {
            self.spent_upto(n - 1) + if self.spent(self.work[n - 1]) {
                1nat
            } else {
                0nat
            }
        }
    }

    /// The number of blocks that have not moved.
    pub open spec fn unmoved(self) -> nat {
        self.unmoved_upto(self.cubes.len() as int)
    }

    /// The number of spent pending movements.
    pub open spec fn spent_count(self) -> nat {
        self.spent_upto(self.work.len() as int)
    }

    /// `self` comes before `other` in the order that every step descends:
    /// fewer unmoved blocks, or as many and fewer spent movements.
    pub open spec fn below(self, other: PassState) -> bool {
        self.unmoved() < other.unmoved() || (self.unmoved() == other.unmoved()
            && self.spent_count() < other.spent_count())
    }
}

/// What `locate_from` finds: the first index at or after `from` whose block
/// has the identifier, if there is one.
pub proof fn lemma_locate_from(cubes: Seq<Cube>, id: usize, from: int)
    requires
        0 <= from <= cubes.len(),
    ensures
        from <= locate_from(cubes, id, from) <= cubes.len(),
        locate_from(cubes, id, from) < cubes.len() ==> cubes[locate_from(cubes, id, from)].id == id,
        forall|j: int| from <= j < locate_from(cubes, id, from) ==> (#[trigger] cubes[j]).id != id,
    decreases cubes.len() - from,
{
    if from < cubes.len() && cubes[from].id != id {
        lemma_locate_from(cubes, id, from + 1);
    }
}

/// `locate_from` reads the identifiers only.
pub proof fn lemma_locate_same_ids(a: Seq<Cube>, b: Seq<Cube>, id: usize, from: int)
    requires
        a.len() == b.len(),
        forall|j: int| 0 <= j < a.len() ==> (#[trigger] a[j]).id == b[j].id,
    ensures
        locate_from(a, id, from) == locate_from(b, id, from),
    decreases a.len() - from,
{
    if 0 <= from < a.len() && a[from].id != id {
        lemma_locate_same_ids(a, b, id, from + 1);
    }
}

/// Marking one more block as moved never raises the number of unmoved
/// blocks, and lowers it where a block of that identifier had not moved.
proof fn lemma_unmoved_after_mark(a: PassState, b: PassState, t: usize, n: int)
    requires
        a.cubes.len() == b.cubes.len(),
        forall|j: int| 0 <= j < a.cubes.len() ==> (#[trigger] a.cubes[j]).id == b.cubes[j].id,
        b.moved == a.moved.insert(t),
        0 <= n <= a.cubes.len(),
    ensures
        b.unmoved_upto(n) <= a.unmoved_upto(n),
        a.moved.contains(t) ==> b.unmoved_upto(n) == a.unmoved_upto(n),
        !a.moved.contains(t) && (exists|i: int| 0 <= i < n && (#[trigger] a.cubes[i]).id == t)
            ==> b.unmoved_upto(n) < a.unmoved_upto(n),
    decreases n,
{
    if n > 0 {
        lemma_unmoved_after_mark(a, b, t, n - 1);
        assert(a.cubes[n - 1].id == b.cubes[n - 1].id);
        if !a.moved.contains(t) && (exists|i: int| 0 <= i < n && (#[trigger] a.cubes[i]).id == t) {
            let i = choose|i: int| 0 <= i < n && (#[trigger] a.cubes[i]).id == t;
            if i < n - 1 {
                assert(0 <= i < n - 1 && a.cubes[i].id == t);
            }
        }
    }
}

/// The count of spent movements reads, of each pending movement, only
/// whether it is spent.
proof fn lemma_spent_same(a: PassState, b: PassState, n: int)
    requires
        0 <= n <= a.work.len(),
        n <= b.work.len(),
        forall|k: int| 0 <= k < n ==> a.spent(#[trigger] a.work[k]) == b.spent(b.work[k]),
    ensures
        a.spent_upto(n) == b.spent_upto(n),
    decreases n,
{
    if n > 0 {
        lemma_spent_same(a, b, n - 1);
        assert(a.spent(a.work[n - 1]) == b.spent(b.work[n - 1]));
    }
}

/// Pending movements that are not spent do not count.
proof fn lemma_spent_skips(a: PassState, lo: int, n: int)
    requires
        0 <= lo <= n <= a.work.len(),
        forall|k: int| lo <= k < n ==> !a.spent(#[trigger] a.work[k]),
    ensures
        a.spent_upto(n) == a.spent_upto(lo),
    decreases n - lo,
{
    if n > lo {
        lemma_spent_skips(a, lo, n - 1);
        assert(!a.spent(a.work[n - 1]));
    }
}

/// Whether `caused` is the movement that `m` causes in block `j`, which has
/// not moved.
pub open spec fn caused_in(
    m: Movement,
    cubes: Seq<Cube>,
    moved: Set<usize>,
    j: int,
    caused: Movement,
) -> bool {
    &&& 0 <= j < cubes.len()
    &&& !moved.contains(cubes[j].id)
    &&& m.impact_spec(cubes[j]) == Some(caused)
}

/// Whether `caused` is the movement that `m` causes in some block that has
/// not moved.
pub open spec fn caused_by(m: Movement, cubes: Seq<Cube>, moved: Set<usize>, caused: Movement) -> bool {
    exists|j: int| #[trigger] caused_in(m, cubes, moved, j, caused)
}

/// Every movement that `m` causes is the movement of a block that has not
/// moved.
pub proof fn lemma_impacts(m: Movement, cubes: Seq<Cube>, moved: Set<usize>, n: int)
    requires
        0 <= n <= cubes.len(),
    ensures
        impacts_upto(m, cubes, moved, n).len() <= n,
        forall|k: int|
            0 <= k < impacts_upto(m, cubes, moved, n).len() ==> caused_by(
                m,
                cubes,
                moved,
                #[trigger] impacts_upto(m, cubes, moved, n)[k],
            ),
    decreases n,
{
    if n > 0 {
        lemma_impacts(m, cubes, moved, n - 1);
        let before = impacts_upto(m, cubes, moved, n - 1);
        let all = impacts_upto(m, cubes, moved, n);
        assert forall|k: int| 0 <= k < all.len() implies caused_by(
            m,
            cubes,
            moved,
            #[trigger] all[k],
        ) by {
            if k < before.len() {
                assert(caused_by(m, cubes, moved, before[k]));
                let j = choose|j: int| #[trigger] caused_in(m, cubes, moved, j, before[k]);
                assert(all[k] == before[k]);
                assert(caused_in(m, cubes, moved, j, all[k]));
            } else {
                assert(caused_in(m, cubes, moved, n - 1, all[k]));
            }
        }
    }
}

/// A movement that has just been caused is not spent: its block is in the
/// scene and has not moved.
proof fn lemma_caused_not_spent(s: PassState, m: Movement, caused: Movement)
    requires
        caused_by(m, s.cubes, s.moved, caused),
    ensures
        !s.spent(caused),
{
    let j = choose|j: int| #[trigger] caused_in(m, s.cubes, s.moved, j, caused);
    lemma_locate_from(s.cubes, caused.end.id, 0);
    if locate(s.cubes, caused.end.id) >= s.cubes.len() {
        assert(s.cubes[j].id != caused.end.id);
    }
}

/// Every step that neither ends nor halts the pass takes the state down in
/// the order `below`: it marks a block that had not moved, or else it takes
/// a spent movement off the stack and adds none.
pub proof fn lemma_step_descends(s: PassState)
    requires
        !s.is_final(),
        !s.step().halted,
    ensures
        s.step().below(s),
{
    let next = s.step();
    let m = s.work.last();
    let rest = s.work.drop_last();
    let n = s.cubes.len() as int;
    let i = locate(s.cubes, m.end.id);
    lemma_locate_from(s.cubes, m.end.id, 0);
    if i >= n {
        assert(next.unmoved() == s.unmoved()) by {
            lemma_unmoved_same(s, next, n);
        }
        assert(next.spent_upto(rest.len() as int) == s.spent_upto(rest.len() as int)) by {
            assert forall|k: int| 0 <= k < rest.len() implies next.spent(#[trigger] next.work[k])
                == s.spent(s.work[k]) by {}
            lemma_spent_same(next, s, rest.len() as int);
        }
        assert(s.spent(s.work[s.work.len() - 1]));
    } else {
        let t = m.end.id;
        assert(forall|j: int| 0 <= j < n ==> (#[trigger] s.cubes[j]).id == next.cubes[j].id);
        assert(next.moved == s.moved.insert(t));
        lemma_unmoved_after_mark(s, next, t, n);
        if s.moved.contains(t) {
            let added = impacts_upto(m, next.cubes, next.moved, n);
            lemma_impacts(m, next.cubes, next.moved, n);
            assert(next.moved =~= s.moved);
            assert forall|x: Movement| next.spent(x) == s.spent(x) by {
                lemma_locate_same_ids(s.cubes, next.cubes, x.end.id, 0);
            }
            assert forall|k: int| 0 <= k < rest.len() implies next.spent(#[trigger] next.work[k])
                == s.spent(s.work[k]) by {
                assert(next.work[k] == s.work[k]);
            }
            lemma_spent_same(next, s, rest.len() as int);
            assert forall|k: int| rest.len() <= k < next.work.len() implies !next.spent(
                #[trigger] next.work[k],
            ) by {
                assert(next.work[k] == added[k - rest.len()]);
                lemma_caused_not_spent(next, m, added[k - rest.len()]);
            }
            lemma_spent_skips(next, rest.len() as int, next.work.len() as int);
            assert(s.spent(s.work[s.work.len() - 1]));
        } else {
            assert(0 <= i < n && s.cubes[i].id == t);
        }
    }
}

/// States with the same blocks and moved set count the same unmoved blocks.
proof fn lemma_unmoved_same(a: PassState, b: PassState, n: int)
    requires
        a.cubes == b.cubes,
        a.moved == b.moved,
    ensures
        a.unmoved_upto(n) == b.unmoved_upto(n),
    decreases n,
{
    if n > 0 {
        lemma_unmoved_same(a, b, n - 1);
    }
}

/// One more step at the end is one more step at the start.
pub proof fn lemma_run_shift(s: PassState, n: nat)
    ensures
        s.run(n + 1) == s.step().run(n),
    decreases n,
{
    assert(s.run(n + 1) == s.run(n).step());
    if n > 0 {
        lemma_run_shift(s, (n - 1) as nat);
        assert(s.step().run(n) == s.step().run((n - 1) as nat).step());
    } else {
        assert(s.run(0) == s);
        assert(s.step().run(0) == s.step());
    }
}

/// A state with nothing left to do stays as it is.
pub proof fn lemma_final_stays(s: PassState, n: nat)
    requires
        s.is_final(),
    ensures
        s.run(n) == s,
    decreases n,
{
    if n > 0 {
        lemma_final_stays(s, (n - 1) as nat);
    }
}

/// Steps add up.
pub proof fn lemma_run_add(s: PassState, a: nat, b: nat)
    ensures
        s.run(a + b) == s.run(a).run(b),
    decreases b,
{
    if b > 0 {
        lemma_run_add(s, a, (b - 1) as nat);
    }
}

/// Every pass ends: from any state, over any finite scene, some number of
/// steps leaves nothing to do.
pub proof fn lemma_pass_terminates(s: PassState) -> (n: nat)
    ensures
        s.run(n).is_final(),
    decreases s.unmoved(), s.spent_count(),
{
    if s.is_final() {
        0
    } else if s.step().halted {
        assert(s.run(1) == s.run(0).step());
        1
    } else {
        lemma_step_descends(s);
        let rest = lemma_pass_terminates(s.step());
        lemma_run_shift(s, rest);
        rest + 1
    }
}

/// The end of a pass does not depend on how many steps were counted: any two
/// runs that leave nothing to do end in the same state.
pub proof fn lemma_outcome_unique(s: PassState, a: nat, b: nat)
    requires
        s.run(a).is_final(),
        s.run(b).is_final(),
    ensures
        s.run(a) == s.run(b),
{
    if a <= b {
        lemma_run_add(s, a, (b - a) as nat);
        lemma_final_stays(s.run(a), (b - a) as nat);
    } else {
        lemma_run_add(s, b, (a - b) as nat);
        lemma_final_stays(s.run(b), (a - b) as nat);
    }
}

/// A block that has moved is never pushed again: every movement that a step
/// adds to the stack is the movement of a block that had not moved when the
/// step ended, and no step takes a block out of the moved set.
pub proof fn lemma_pushes_spare_moved(s: PassState)
    requires
        !s.is_final(),
        !s.step().halted,
    ensures
        s.moved.subset_of(s.step().moved),
        s.work.len() - 1 <= s.step().work.len(),
        forall|k: int|
            s.work.len() - 1 <= k < s.step().work.len() ==> !s.step().moved.contains(
                (#[trigger] s.step().work[k]).end.id,
            ) && locate(s.step().cubes, s.step().work[k].end.id) < s.step().cubes.len(),
{
    let next = s.step();
    let m = s.work.last();
    let rest = s.work.drop_last();
    let n = s.cubes.len() as int;
    lemma_locate_from(s.cubes, m.end.id, 0);
    if locate(s.cubes, m.end.id) < n {
        let added = impacts_upto(m, next.cubes, next.moved, n);
        lemma_impacts(m, next.cubes, next.moved, n);
        assert forall|k: int| s.work.len() - 1 <= k < next.work.len() implies !next.moved.contains(
            (#[trigger] next.work[k]).end.id,
        ) && locate(next.cubes, next.work[k].end.id) < next.cubes.len() by {
            assert(next.work[k] == added[k - rest.len()]);
            lemma_caused_not_spent(next, m, added[k - rest.len()]);
        }
    }
}

impl PassState {
    /// Whether the next step applies a movement to the block of identifier
    /// `id`: the pass goes on, the next pending movement is of that block,
    /// the block is in the scene, and the step does not halt the pass.
    pub open spec fn applies_to(self, id: usize) -> bool {
        &&& !self.is_final()
        &&& self.work.last().end.id == id
        &&& locate(self.cubes, id) < self.cubes.len()
        &&& !self.step().halted
    }

    /// Whether the next step applies a movement to a block that has moved
    /// already.
    pub open spec fn reapplies(self) -> bool {
        !self.is_final() && self.applies_to(self.work.last().end.id) && self.moved.contains(
            self.work.last().end.id,
        )
    }

    /// How many of the first `n` steps apply a movement to the block of
    /// identifier `id`.
    pub open spec fn applied(self, n: nat, id: usize) -> nat
        decreases n,
    {
        if n == 0 {
            0
        } else {
            self.applied((n - 1) as nat, id) + if self.run((n - 1) as nat).applies_to(id) {
                1nat
            } else {
                0nat
            }
        }
    }
}

/// From a start with no block marked, the blocks marked as moved after `n`
/// steps are those that a movement was applied to, and a block is the
/// target of more than one movement exactly where a movement is applied to a
/// block that has moved already. So each block is the target of at most one
/// movement in every pass but those in which a block is pushed by two
/// blocks, or dragged and pushed, before it has moved.
pub proof fn lemma_each_block_once(s: PassState, n: nat)
    requires
        s.moved == Set::<usize>::empty(),
    ensures
        forall|id: usize| s.run(n).moved.contains(id) <==> #[trigger] s.applied(n, id) >= 1,
        (forall|id: usize| #[trigger] s.applied(n, id) <= 1) <==> (forall|k: nat|
            k < n ==> !(#[trigger] s.run(k)).reapplies()),
    decreases n,
{
    if n > 0 {
        let m = (n - 1) as nat;
        lemma_each_block_once(s, m);
        let cur = s.run(m);
        assert(s.run(n) == cur.step());
        assert forall|id: usize| s.run(n).moved.contains(id) <==> #[trigger] s.applied(n, id)
            >= 1 by {
            assert(cur.moved.contains(id) <==> s.applied(m, id) >= 1);
            if !cur.is_final() {
                lemma_locate_from(cur.cubes, cur.work.last().end.id, 0);
            }
        }
        if forall|id: usize| #[trigger] s.applied(n, id) <= 1 {
            assert forall|id: usize| #[trigger] s.applied(m, id) <= 1 by {
                assert(s.applied(n, id) <= 1);
            }
            assert forall|k: nat| k < n implies !(#[trigger] s.run(k)).reapplies() by {
                if k == m && cur.reapplies() {
                    let t = cur.work.last().end.id;
                    assert(s.applied(m, t) >= 1);
                    assert(s.applied(n, t) >= 2);
                }
            }
        }
        if forall|k: nat| k < n ==> !(#[trigger] s.run(k)).reapplies() {
            assert forall|k: nat| k < m implies !(#[trigger] s.run(k)).reapplies() by {}
            assert forall|id: usize| #[trigger] s.applied(n, id) <= 1 by {
                assert(s.applied(m, id) <= 1);
                if cur.applies_to(id) {
                    assert(!cur.reapplies());
                    assert(!cur.moved.contains(id));
                    assert(s.applied(m, id) == 0);
                }
            }
        }
    }
}

/// One step changes no block but the one that the next movement is applied
/// to, which it marks as moved; it adds no block, takes none away, and leaves
/// every block its identifier, character, size and activity.
pub proof fn lemma_step_keeps(s: PassState)
    ensures
        s.step().cubes.len() == s.cubes.len(),
        s.moved.subset_of(s.step().moved),
        forall|i: int|
            0 <= i < s.cubes.len() ==> {
                &&& (#[trigger] s.step().cubes[i]).id == s.cubes[i].id
                &&& s.step().cubes[i].character == s.cubes[i].character
                &&& s.step().cubes[i].size == s.cubes[i].size
                &&& s.step().cubes[i].is_active == s.cubes[i].is_active
                &&& !s.step().moved.contains(s.cubes[i].id) ==> s.step().cubes[i] == s.cubes[i]
            },
{
    if !s.is_final() {
        lemma_locate_from(s.cubes, s.work.last().end.id, 0);
    }
}

/// Only blocks that are marked as moved have moved: after any number of
/// steps, a block whose identifier is not marked is as it was, and every
/// block has its identifier, character, size and activity.
pub proof fn lemma_unmarked_blocks_stay(s: PassState, n: nat)
    ensures
        s.run(n).cubes.len() == s.cubes.len(),
        s.moved.subset_of(s.run(n).moved),
        forall|i: int|
            0 <= i < s.cubes.len() ==> {
                &&& (#[trigger] s.run(n).cubes[i]).id == s.cubes[i].id
                &&& s.run(n).cubes[i].character == s.cubes[i].character
                &&& s.run(n).cubes[i].size == s.cubes[i].size
                &&& s.run(n).cubes[i].is_active == s.cubes[i].is_active
                &&& !s.run(n).moved.contains(s.cubes[i].id) ==> s.run(n).cubes[i] == s.cubes[i]
            },
    decreases n,
{
    if n > 0 {
        let before = s.run((n - 1) as nat);
        lemma_unmarked_blocks_stay(s, (n - 1) as nat);
        lemma_step_keeps(before);
        assert(s.run(n) == before.step());
        assert forall|i: int| 0 <= i < s.cubes.len() implies {
            &&& (#[trigger] s.run(n).cubes[i]).id == s.cubes[i].id
            &&& s.run(n).cubes[i].character == s.cubes[i].character
            &&& s.run(n).cubes[i].size == s.cubes[i].size
            &&& s.run(n).cubes[i].is_active == s.cubes[i].is_active
            &&& !s.run(n).moved.contains(s.cubes[i].id) ==> s.run(n).cubes[i] == s.cubes[i]
        } by {
            assert(before.cubes[i].id == s.cubes[i].id);
            assert(before.step().cubes[i].id == before.cubes[i].id);
        }
    }
}

/// The state of a pass that has not halted.
pub open spec fn running(cubes: Seq<Cube>, work: Seq<Movement>, moved: Set<usize>) -> PassState {
    PassState { cubes, work, moved, halted: false }
}

/// The index of the first block with identifier `id`, or the number of
/// blocks if there is none.
pub fn find(cubes: &Vec<Cube>, id: usize) -> (i: usize)
    ensures
        i == locate(cubes@, id),
{
    let mut i: usize = 0;
    while i < cubes.len()
        invariant
            0 <= i <= cubes.len(),
            locate(cubes@, id) == locate_from(cubes@, id, i as int),
        decreases cubes.len() - i,
    {
        if cubes[i].id == id {
            return i;
        }
        i += 1;
    }
    i
}

/// A copy of the blocks.
fn snapshot(cubes: &Vec<Cube>) -> (copy: Vec<Cube>)
    ensures
        copy@ == cubes@,
{
    let mut copy: Vec<Cube> = Vec::new();
    let mut i: usize = 0;
    while i < cubes.len()
        invariant
            0 <= i <= cubes.len(),
            copy@ == cubes@.take(i as int),
        decreases cubes.len() - i,
    {
        copy.push(cubes[i]);
        assert(copy@ =~= cubes@.take(i + 1));
        i += 1;
    }
    assert(cubes@.take(cubes.len() as int) =~= cubes@);
    copy
}

/// Stacks the movements that `m` causes in the blocks that have not moved,
/// in scene order, and says whether every pushed block stays within the
/// coordinate range. Where one does not, the stack is left half filled.
fn push_impacts(m: &Movement, cubes: &Vec<Cube>, moved: &HashSet<usize>, work: &mut Vec<Movement>) -> (fit:
    bool)
    requires
        m.wf(),
        forall|i: int| 0 <= i < cubes@.len() ==> (#[trigger] cubes@[i]).wf(),
        forall|k: int| 0 <= k < old(work)@.len() ==> (#[trigger] old(work)@[k]).wf(),
    ensures
        fit == impacts_fit_upto(*m, cubes@, moved@, cubes@.len() as int),
        fit ==> final(work)@ == old(work)@ + impacts_upto(*m, cubes@, moved@, cubes@.len() as int),
        fit ==> forall|k: int| 0 <= k < final(work)@.len() ==> (#[trigger] final(work)@[k]).wf(),
{
    let n = cubes.len();
    let mut j: usize = 0;
    while j < n
        invariant
            0 <= j <= n == cubes@.len(),
            m.wf(),
            forall|i: int| 0 <= i < cubes@.len() ==> (#[trigger] cubes@[i]).wf(),
            work@ == old(work)@ + impacts_upto(*m, cubes@, moved@, j as int),
            forall|k: int| 0 <= k < work@.len() ==> (#[trigger] work@[k]).wf(),
            impacts_fit_upto(*m, cubes@, moved@, j as int),
        decreases n - j,
    {
        let other = cubes[j];
        let ghost before = impacts_upto(*m, cubes@, moved@, j as int);
        if !moved.contains(&other.id) {
            match m.push(&other) {
                Some(d) => {
                    if !other.can_translate(d.0, d.1) {
                        assert(!impacts_fit_upto(*m, cubes@, moved@, n as int));
                        return false;
                    }
                    let caused = m.impact(other).unwrap();
                    work.push(caused);
                    assert(work@ =~= old(work)@ + before.push(caused));
                },
                None => {},
            }
        }
        j += 1;
    }
    true
}

/// Takes one step of the pass: pops the next movement, applies it to its
/// block, marks the block, and stacks the movements that it causes. The
/// result is `false` where the step halts the pass; the state is then partly
/// changed.
fn advance(cubes: &mut Vec<Cube>, work: &mut Vec<Movement>, moved: &mut HashSet<usize>) -> (went: bool)
    requires
        running(old(cubes)@, old(work)@, old(moved)@).wf(),
        old(work)@.len() > 0,
    ensures
        went == !running(old(cubes)@, old(work)@, old(moved)@).step().halted,
        went ==> running(final(cubes)@, final(work)@, final(moved)@) == running(
            old(cubes)@,
            old(work)@,
            old(moved)@,
        ).step(),
        went ==> running(final(cubes)@, final(work)@, final(moved)@).wf(),
        final(cubes)@.len() == old(cubes)@.len(),
        forall|i: int|
            0 <= i < final(cubes)@.len() ==> {
                &&& (#[trigger] final(cubes)@[i]).id == old(cubes)@[i].id
                &&& final(cubes)@[i].character == old(cubes)@[i].character
                &&& final(cubes)@[i].size == old(cubes)@[i].size
                &&& final(cubes)@[i].is_active == old(cubes)@[i].is_active
            },
{
    let ghost cur = running(cubes@, work@, moved@);
    let m = work.pop().unwrap();
    assert(m == cur.work.last() && work@ == cur.work.drop_last());
    assert(m.wf());
    let i = find(cubes, m.end.id);
    proof {
        lemma_locate_from(cubes@, m.end.id, 0);
    }
    if i < cubes.len() {
        let mut target = cubes[i];
        if !target.can_translate(m.dx, m.dy) {
            return false;
        }
        target.translate(m.dx, m.dy);
        cubes.set(i, target);
        moved.insert(m.end.id);
        assert(cubes@ == cur.step_cubes());
        push_impacts(&m, cubes, moved, work)
    } else {
        true
    }
}

/// Carries the movements `seeds` through the scene, the last one first.
///
/// The pass runs until no movement is pending. Where a movement would take a
/// block out of the coordinate range, the pass is abandoned: the blocks are
/// as they were, and the result is `false`.
pub fn propagate(cubes: &mut Vec<Cube>, seeds: Vec<Movement>) -> (settled: bool)
    requires
        PassState::start(old(cubes)@, seeds@).wf(),
    ensures
        exists|n: nat|
            {
                let end = #[trigger] PassState::start(old(cubes)@, seeds@).run(n);
                &&& end.is_final()
                &&& settled == !end.halted
                &&& final(cubes)@ == if settled {
                    end.cubes
                } else {
                    old(cubes)@
                }
            },
        forall|i: int| 0 <= i < final(cubes)@.len() ==> (#[trigger] final(cubes)@[i]).wf(),
        final(cubes)@.len() == old(cubes)@.len(),
        forall|i: int|
            0 <= i < final(cubes)@.len() ==> {
                &&& (#[trigger] final(cubes)@[i]).id == old(cubes)@[i].id
                &&& final(cubes)@[i].character == old(cubes)@[i].character
                &&& final(cubes)@[i].size == old(cubes)@[i].size
                &&& final(cubes)@[i].is_active == old(cubes)@[i].is_active
            },
{
    let ghost start = PassState::start(cubes@, seeds@);
    let ghost mut steps: nat = 0;
    let backup = snapshot(cubes);
    let mut work = seeds;
    let mut moved: HashSet<usize> = HashSet::new();
    assert(running(cubes@, work@, moved@) == start.run(0));
    assert forall|i: int| 0 <= i < backup@.len() implies (#[trigger] backup@[i]).wf() by {
        assert(start.cubes[i].wf());
    }
    while work.len() > 0
        invariant
            start == PassState::start(old(cubes)@, seeds@),
            running(cubes@, work@, moved@) == start.run(steps),
            running(cubes@, work@, moved@).wf(),
            backup@ == old(cubes)@,
            forall|i: int| 0 <= i < backup@.len() ==> (#[trigger] backup@[i]).wf(),
            cubes@.len() == old(cubes)@.len(),
            forall|i: int|
                0 <= i < cubes@.len() ==> {
                    &&& (#[trigger] cubes@[i]).id == old(cubes)@[i].id
                    &&& cubes@[i].character == old(cubes)@[i].character
                    &&& cubes@[i].size == old(cubes)@[i].size
                    &&& cubes@[i].is_active == old(cubes)@[i].is_active
                },
        decreases running(cubes@, work@, moved@).unmoved(), running(cubes@, work@, moved@).spent_count(),
    {
        let ghost cur = running(cubes@, work@, moved@);
        assert(start.run(steps + 1) == cur.step());
        if !advance(cubes, &mut work, &mut moved) {
            *cubes = backup;
            assert(start.run(steps + 1).is_final());
            return false;
        }
        proof {
            lemma_step_descends(cur);
            steps = steps + 1;
        }
    }
    assert(start.run(steps).is_final());
    assert forall|i: int| 0 <= i < cubes@.len() implies (#[trigger] cubes@[i]).wf() by {
        assert(running(cubes@, work@, moved@).cubes[i].wf());
    }
    true
}

/// The movements by `(dx, dy)` of the active blocks among the first `n`, in
/// scene order.
pub open spec fn seeds_upto(cubes: Seq<Cube>, dx: int, dy: int, n: int) -> Seq<Movement>
    decreases n,
{
    if n <= 0 {
        Seq::empty()
    } else if cubes[n - 1].is_active {
        seeds_upto(cubes, dx, dy, n - 1).push(
            Movement::new_spec(cubes[n - 1], cubes[n - 1].translated_spec(dx, dy)),
        )
    } else {
        seeds_upto(cubes, dx, dy, n - 1)
    }
}

/// Whether every active block among the first `n` can be moved by
/// `(dx, dy)`.
pub open spec fn seeds_fit_upto(cubes: Seq<Cube>, dx: int, dy: int, n: int) -> bool {
    forall|i: int|
        0 <= i < n && i < cubes.len() && (#[trigger] cubes[i]).is_active ==> shift_fits(
            cubes[i].coord,
            dx,
            dy,
        )
}

/// Whether `after` is what a drag of the active blocks of `before` by
/// `(dx, dy)` leaves, and `settled` says whether it went through.
///
/// The drag goes through where the active blocks can be moved by `(dx, dy)`
/// and the pass from their movements ends without halting; the blocks are
/// then those at the end of the pass. Otherwise nothing has moved.
pub open spec fn drag_outcome(
    before: Seq<Cube>,
    dx: int,
    dy: int,
    after: Seq<Cube>,
    settled: bool,
) -> bool {
    if !seeds_fit_upto(before, dx, dy, before.len() as int) {
        !settled && after == before
    } else {
        exists|n: nat|
            {
                let end = #[trigger] PassState::start(
                    before,
                    seeds_upto(before, dx, dy, before.len() as int),
                ).run(n);
                &&& end.is_final()
                &&& settled == !end.halted
                &&& after == if settled {
                    end.cubes
                } else {
                    before
                }
            }
    }
}

/// Moves the active blocks by `(dx, dy)` and carries the movement through
/// the scene. Where a block would leave the coordinate range, nothing moves
/// and the result is `false`.
#[verifier::loop_isolation(false)]
pub fn drag(cubes: &mut Vec<Cube>, dx: i64, dy: i64) -> (settled: bool)
    requires
        forall|i: int| 0 <= i < old(cubes)@.len() ==> (#[trigger] old(cubes)@[i]).wf(),
    ensures
        drag_outcome(old(cubes)@, dx as int, dy as int, final(cubes)@, settled),
        forall|i: int| 0 <= i < final(cubes)@.len() ==> (#[trigger] final(cubes)@[i]).wf(),
        final(cubes)@.len() == old(cubes)@.len(),
        forall|i: int|
            0 <= i < final(cubes)@.len() ==> {
                &&& (#[trigger] final(cubes)@[i]).id == old(cubes)@[i].id
                &&& final(cubes)@[i].character == old(cubes)@[i].character
                &&& final(cubes)@[i].size == old(cubes)@[i].size
                &&& final(cubes)@[i].is_active == old(cubes)@[i].is_active
            },
{
    let mut seeds: Vec<Movement> = Vec::new();
    let n = cubes.len();
    let mut i: usize = 0;
    while i < n
        invariant
            0 <= i <= n == cubes@.len(),
            cubes@ == old(cubes)@,
            seeds@ == seeds_upto(cubes@, dx as int, dy as int, i as int),
            seeds_fit_upto(cubes@, dx as int, dy as int, i as int),
            forall|k: int| 0 <= k < seeds@.len() ==> (#[trigger] seeds@[k]).wf(),
        decreases n - i,
    {
        let cube = cubes[i];
        if cube.is_active {
            if !cube.can_translate(dx, dy) {
                assert(!seeds_fit_upto(cubes@, dx as int, dy as int, n as int));
                return false;
            }
            seeds.push(Movement::new_from_delta(cube, dx, dy));
        }
        i += 1;
    }
    propagate(cubes, seeds)
}

/// Whether the pass has brought the block at index `a` to `target`, has
/// marked it as moved, and holds no pending movement of it, and no other
/// block has its identifier.
pub open spec fn settled_at(t: PassState, a: int, target: Cube) -> bool {
    &&& 0 <= a < t.cubes.len()
    &&& t.cubes[a] == target
    &&& t.moved.contains(target.id)
    &&& forall|w: int| 0 <= w < t.work.len() ==> (#[trigger] t.work[w]).end.id != target.id
    &&& forall|i: int| 0 <= i < t.cubes.len() && i != a ==> (#[trigger] t.cubes[i]).id != target.id
}

/// A block that has been brought to its place and has no pending movement
/// stays there through every step: no later movement is of it, since only
/// blocks that have not moved are pushed.
pub proof fn lemma_settled_step(t: PassState, a: int, target: Cube)
    requires
        settled_at(t, a, target),
        !t.step().halted,
    ensures
        settled_at(t.step(), a, target),
{
    if !t.is_final() {
        let next = t.step();
        let m = t.work.last();
        let rest = t.work.drop_last();
        let n = t.cubes.len() as int;
        assert(m == t.work[t.work.len() - 1]);
        lemma_locate_from(t.cubes, m.end.id, 0);
        let at = locate(t.cubes, m.end.id);
        if at < n {
            assert(t.cubes[at].id != target.id);
            let added = impacts_upto(m, next.cubes, next.moved, n);
            lemma_impacts(m, next.cubes, next.moved, n);
            assert forall|w: int| 0 <= w < next.work.len() implies (#[trigger] next.work[w]).end.id
                != target.id by {
                if w < rest.len() {
                    assert(next.work[w] == t.work[w]);
                } else {
                    let x = added[w - rest.len()];
                    assert(next.work[w] == x);
                    assert(caused_by(m, next.cubes, next.moved, x));
                    let j = choose|j: int| #[trigger] caused_in(m, next.cubes, next.moved, j, x);
                    assert(x.end.id == next.cubes[j].id);
                }
            }
            assert forall|i: int| 0 <= i < n && i != a implies (#[trigger] next.cubes[i]).id
                != target.id by {
                assert(t.cubes[i].id != target.id);
            }
        } else {
            assert forall|w: int| 0 <= w < next.work.len() implies (#[trigger] next.work[w]).end.id
                != target.id by {
                assert(next.work[w] == t.work[w]);
            }
        }
    }
}

/// A pass does not leave the halted state.
pub proof fn lemma_halted_stays(t: PassState, n: nat)
    requires
        t.halted,
    ensures
        t.run(n).halted,
{
    lemma_final_stays(t, n);
}

/// A block that has been brought to its place and has no pending movement
/// is there after any number of steps that do not halt the pass.
pub proof fn lemma_settled_run(t: PassState, a: int, target: Cube, n: nat)
    requires
        settled_at(t, a, target),
        !t.run(n).halted,
    ensures
        settled_at(t.run(n), a, target),
    decreases n,
{
    if n > 0 {
        let before = t.run((n - 1) as nat);
        assert(t.run(n) == before.step());
        lemma_settled_run(t, a, target, (n - 1) as nat);
        lemma_settled_step(before, a, target);
    }
}

/// In a pass from the one movement `m` of the block at index `a`, whose
/// identifier no other block has, that block moves once: where the pass
/// ends without halting, the block stands one `(m.dx, m.dy)` on from where
/// it stood, whatever it has pushed.
pub proof fn lemma_seed_moves_once(cubes: Seq<Cube>, m: Movement, a: int, n: nat)
    requires
        0 <= a < cubes.len(),
        m.end.id == cubes[a].id,
        forall|i: int| 0 <= i < cubes.len() && i != a ==> (#[trigger] cubes[i]).id != cubes[a].id,
        PassState::start(cubes, seq![m]).run(n).is_final(),
        !PassState::start(cubes, seq![m]).run(n).halted,
    ensures
        PassState::start(cubes, seq![m]).run(n).cubes[a] == cubes[a].translated_spec(
            m.dx as int,
            m.dy as int,
        ),
{
    let s = PassState::start(cubes, seq![m]);
    let target = cubes[a].translated_spec(m.dx as int, m.dy as int);
    assert(s.work.last() == m);
    assert(!s.is_final());
    assert(n > 0);
    let first = s.step();
    lemma_run_shift(s, (n - 1) as nat);
    if first.halted {
        lemma_halted_stays(first, (n - 1) as nat);
    }
    lemma_locate_from(cubes, m.end.id, 0);
    let at = locate(cubes, m.end.id);
    if at != a {
        assert(cubes[at].id != cubes[a].id);
    }
    let len = cubes.len() as int;
    lemma_impacts(m, first.cubes, first.moved, len);
    let added = impacts_upto(m, first.cubes, first.moved, len);
    assert(s.work.drop_last() =~= Seq::<Movement>::empty());
    assert forall|w: int| 0 <= w < first.work.len() implies (#[trigger] first.work[w]).end.id
        != target.id by {
        let x = added[w];
        assert(first.work[w] == x);
        assert(caused_by(m, first.cubes, first.moved, x));
        let j = choose|j: int| #[trigger] caused_in(m, first.cubes, first.moved, j, x);
        assert(x.end.id == first.cubes[j].id);
    }
    assert forall|i: int| 0 <= i < len && i != a implies (#[trigger] first.cubes[i]).id
        != target.id by {
        assert(cubes[i].id != cubes[a].id);
    }
    assert(settled_at(first, a, target));
    lemma_settled_run(first, a, target, (n - 1) as nat);
}

/// Where only the block at index `a` is active, a drag starts from its one
/// movement.
pub proof fn lemma_one_seed(cubes: Seq<Cube>, dx: int, dy: int, a: int, n: int)
    requires
        0 <= a < cubes.len(),
        forall|i: int| 0 <= i < cubes.len() ==> ((#[trigger] cubes[i]).is_active <==> i == a),
        0 <= n <= cubes.len(),
    ensures
        seeds_upto(cubes, dx, dy, n) == if a < n {
            seq![Movement::new_spec(cubes[a], cubes[a].translated_spec(dx, dy))]
        } else {
            Seq::<Movement>::empty()
        },
    decreases n,
{
    if n > 0 {
        lemma_one_seed(cubes, dx, dy, a, n - 1);
        assert(cubes[n - 1].is_active <==> n - 1 == a);
        assert(seeds_upto(cubes, dx, dy, n) =~= if a < n {
            seq![Movement::new_spec(cubes[a], cubes[a].translated_spec(dx, dy))]
        } else {
            Seq::<Movement>::empty()
        });
    }
}

/// A drag that goes through leaves the one dragged block exactly one
/// `(dx, dy)` on from where it stood: it is moved once and never pushed.
pub proof fn lemma_drag_moves_dragged_block(
    before: Seq<Cube>,
    dx: int,
    dy: int,
    after: Seq<Cube>,
    a: int,
)
    requires
        drag_outcome(before, dx, dy, after, true),
        0 <= a < before.len(),
        forall|i: int| 0 <= i < before.len() ==> ((#[trigger] before[i]).is_active <==> i == a),
        forall|i: int| 0 <= i < before.len() && i != a ==> (#[trigger] before[i]).id != before[a].id,
    ensures
        after[a] == before[a].translated_spec(dx, dy),
        after[a].coord.x == before[a].coord.x + dx,
        after[a].coord.y == before[a].coord.y + dy,
{
    let len = before.len() as int;
    lemma_one_seed(before, dx, dy, a, len);
    let m = Movement::new_spec(before[a], before[a].translated_spec(dx, dy));
    assert(before[a].is_active);
    assert(shift_fits(before[a].coord, dx, dy));
    assert(m.dx == dx && m.dy == dy);
    let start = PassState::start(before, seeds_upto(before, dx, dy, len));
    assert(start == PassState::start(before, seq![m]));
    let n = choose|n: nat|
        {
            let end = #[trigger] start.run(n);
            &&& end.is_final()
            &&& true == !end.halted
            &&& after == if true {
                end.cubes
            } else {
                before
            }
        };
    lemma_seed_moves_once(before, m, a, n);
}

} // verus!
