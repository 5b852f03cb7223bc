//! Resolving an activated coordinate into a move, and applying the move:
//! the run-slide rule of the puzzle.

use vstd::prelude::*;

use crate::cell::Direction;
use crate::cell::GridError;
use crate::cell::MoveOutcome;
use crate::cell::TaquinCoord;
use crate::grid::Grid;
use crate::grid::lemma_grid_index;
use crate::grid::lemma_grid_index_injective;

verus! {

/// Column of the position `k` single steps from `c` in direction `dir`.
pub open spec fn moved_col(c: TaquinCoord, dir: Direction, k: int) -> int {
    match dir {
        Direction::Left => c.col as int - k,
        Direction::Right => c.col as int + k,
        Direction::Up => c.col as int,
        Direction::Down => c.col as int,
    }
}

/// Line of the position `k` single steps from `c` in direction `dir`.
pub open spec fn moved_line(c: TaquinCoord, dir: Direction, k: int) -> int {
    match dir {
        Direction::Left => c.line as int,
        Direction::Right => c.line as int,
        Direction::Up => c.line as int - k,
        Direction::Down => c.line as int + k,
    }
}

/// What activating `activated` means when the void sits at `void`: no
/// move when the two coincide or share neither column nor line; otherwise
/// a shift of the void toward `activated`, by their distance along the
/// shared axis.
pub open spec fn resolve_spec(activated: TaquinCoord, void: TaquinCoord) -> MoveOutcome {
    if activated.col == void.col && activated.line == void.line {
        MoveOutcome::NoOp
    } else if activated.col == void.col {
        if activated.line < void.line {
            MoveOutcome::Shift(Direction::Up, (void.line - activated.line) as usize)
        } else {
            MoveOutcome::Shift(Direction::Down, (activated.line - void.line) as usize)
        }
    } else if activated.line == void.line {
        if activated.col < void.col {
            MoveOutcome::Shift(Direction::Left, (void.col - activated.col) as usize)
        } else {
            MoveOutcome::Shift(Direction::Right, (activated.col - void.col) as usize)
        }
    } else {
        MoveOutcome::NoOp
    }
}

/// Decides whether activating a coordinate is legal and, if so, in which
/// direction and by how many single steps the void travels. Pure: reads
/// no grid state beyond the two coordinates.
pub fn resolve(activated: TaquinCoord, void: TaquinCoord) -> (r: MoveOutcome)
    ensures
        r == resolve_spec(activated, void),
{
    if activated.col == void.col && activated.line == void.line {
        MoveOutcome::NoOp
    } else if activated.col == void.col {
        if activated.line < void.line {
            MoveOutcome::Shift(Direction::Up, void.line - activated.line)
        } else {
            MoveOutcome::Shift(Direction::Down, activated.line - void.line)
        }
    } else if activated.line == void.line {
        if activated.col < void.col {
            MoveOutcome::Shift(Direction::Left, void.col - activated.col)
        } else {
            MoveOutcome::Shift(Direction::Right, activated.col - void.col)
        }
    } else {
        MoveOutcome::NoOp
    }
}

impl Grid {
    /// Row-major index of the position `k` steps from `v` in `dir`.
    pub open spec fn path_idx(self, v: TaquinCoord, dir: Direction, k: int) -> int {
        self.sidx(moved_col(v, dir, k), moved_line(v, dir, k))
    }

    /// Whether index `i` lies on the path of a shift of `d` steps from
    /// `v` in `dir` (endpoints included).
    pub open spec fn on_shift_path(self, v: TaquinCoord, dir: Direction, d: int, i: int) -> bool {
        exists|k: int| 0 <= k <= d && i == #[trigger] self.path_idx(v, dir, k)
    }

    /// The position `d` steps from `v` in `dir` lies on the board.
    pub open spec fn shift_in_bounds(self, v: TaquinCoord, dir: Direction, d: int) -> bool {
        self.cin_bounds(moved_col(v, dir, d), moved_line(v, dir, d))
    }
}

/// How applying a move relates the grid after (`post`) to the grid before
/// (`pre`): a no-move leaves every tile and the void untouched; a shift
/// of `d` steps moves the void tile `d` positions in `dir`, each tile on
/// the path one position the opposite way, and nothing else.
pub open spec fn apply_rel(pre: Grid, post: Grid, outcome: MoveOutcome) -> bool {
    &&& post.sides == pre.sides
    &&& post.scrambled == pre.scrambled
    &&& post.cells@.len() == pre.cells@.len()
    &&& match outcome {
        MoveOutcome::NoOp => post.cells@ == pre.cells@ && post.void_cell == pre.void_cell,
        MoveOutcome::Shift(dir, d) => {
            let v0 = pre.void_cell;
            &&& post.void_cell.col as int == moved_col(v0, dir, d as int)
            &&& post.void_cell.line as int == moved_line(v0, dir, d as int)
            &&& post.cells@[pre.path_idx(v0, dir, d as int)] == pre.cells@[pre.idx_of(v0)]
            &&& forall|k: int|
                0 <= k < d as int ==> post.cells@[#[trigger] pre.path_idx(v0, dir, k)]
                    == pre.cells@[pre.path_idx(v0, dir, k + 1)]
            &&& forall|i: int|
                #![trigger post.cells@[i]]
                #![trigger pre.cells@[i]]
                0 <= i < pre.cells@.len() && !pre.on_shift_path(v0, dir, d as int, i)
                    ==> post.cells@[i] == pre.cells@[i]
        },
    }
}

/// Every step of an in-bounds shift path lies on the board.
pub proof fn lemma_path_in_bounds(g: Grid, v: TaquinCoord, dir: Direction, d: int, k: int)
    requires
        g.wf_dims(),
        g.in_bounds(v),
        g.shift_in_bounds(v, dir, d),
        0 <= k <= d,
    ensures
        g.cin_bounds(moved_col(v, dir, k), moved_line(v, dir, k)),
        0 <= g.path_idx(v, dir, k) < g.cells@.len(),
{
    lemma_grid_index(g.num_col(), g.num_line(), moved_col(v, dir, k), moved_line(v, dir, k));
}

/// Distinct steps of an in-bounds shift path land on distinct indices.
pub proof fn lemma_path_distinct(g: Grid, v: TaquinCoord, dir: Direction, d: int, k1: int, k2: int)
    requires
        g.wf_dims(),
        g.in_bounds(v),
        g.shift_in_bounds(v, dir, d),
        0 <= k1 <= d,
        0 <= k2 <= d,
        k1 != k2,
    ensures
        g.path_idx(v, dir, k1) != g.path_idx(v, dir, k2),
{
    lemma_path_in_bounds(g, v, dir, d, k1);
    lemma_path_in_bounds(g, v, dir, d, k2);
    lemma_grid_index_injective(
        g.num_col(),
        g.num_line(),
        moved_col(v, dir, k1),
        moved_line(v, dir, k1),
        moved_col(v, dir, k2),
        moved_line(v, dir, k2),
    );
}

/// A move resolved from an in-bounds activation can always be applied:
/// the shift it asks for stays on the board.
pub proof fn lemma_resolve_in_bounds(g: Grid, activated: TaquinCoord)
    requires
        g.wf(),
        g.in_bounds(activated),
    ensures
        match resolve_spec(activated, g.void_cell) {
            MoveOutcome::NoOp => true,
            MoveOutcome::Shift(dir, dist) => g.shift_in_bounds(g.void_cell, dir, dist as int),
        },
{
}

/// One step from `v` in `dir`, as a coordinate.
fn step_coord(v: TaquinCoord, dir: Direction) -> (c: TaquinCoord)
    requires
        1 <= moved_col(v, dir, 1),
        1 <= moved_line(v, dir, 1),
        moved_col(v, dir, 1) <= usize::MAX as int,
        moved_line(v, dir, 1) <= usize::MAX as int,
    ensures
        c.col as int == moved_col(v, dir, 1),
        c.line as int == moved_line(v, dir, 1),
{
    match dir {
        Direction::Up => TaquinCoord { line: v.line - 1, col: v.col },
        Direction::Down => TaquinCoord { line: v.line + 1, col: v.col },
        Direction::Left => TaquinCoord { line: v.line, col: v.col - 1 },
        Direction::Right => TaquinCoord { line: v.line, col: v.col + 1 },
    }
}

impl Grid {
    /// Applies a resolved move: a no-move changes nothing; a shift
    /// performs `distance` adjacent swaps, walking the void one step at a
    /// time toward the activated tile. Preserves the grid invariant and
    /// the multiset of tiles and of ranks.
    #[verifier::loop_isolation(false)]
    pub fn apply(&mut self, outcome: MoveOutcome)
        requires
            old(self).wf(),
            match outcome {
                MoveOutcome::NoOp => true,
                MoveOutcome::Shift(dir, d) => old(self).shift_in_bounds(
                    old(self).void_cell,
                    dir,
                    d as int,
                ),
            },
        ensures
            final(self).wf(),
            apply_rel(*old(self), *final(self), outcome),
            final(self).cells@.to_multiset() == old(self).cells@.to_multiset(),
            final(self).rank_seq().to_multiset() == old(self).rank_seq().to_multiset(),
    {
        match outcome {
            MoveOutcome::NoOp => {},
            MoveOutcome::Shift(dir, d) => {
                let ghost g0 = *old(self);
                let ghost v0 = old(self).void_cell;
                let mut k: usize = 0;
                while k < d
                    invariant
                        k <= d,
                        self.wf(),
                        self.sides == g0.sides,
                        self.scrambled == g0.scrambled,
                        self.cells@.len() == g0.cells@.len(),
                        self.void_cell.col as int == moved_col(v0, dir, k as int),
                        self.void_cell.line as int == moved_line(v0, dir, k as int),
                        self.cells@[g0.path_idx(v0, dir, k as int)] == g0.cells@[g0.idx_of(v0)],
                        forall|m: int|
                            0 <= m < k as int ==> self.cells@[#[trigger] g0.path_idx(v0, dir, m)]
                                == g0.cells@[g0.path_idx(v0, dir, m + 1)],
                        forall|i: int|
                            #![trigger self.cells@[i]]
                            0 <= i < g0.cells@.len() && !g0.on_shift_path(v0, dir, k as int, i)
                                ==> self.cells@[i] == g0.cells@[i],
                        self.cells@.to_multiset() == g0.cells@.to_multiset(),
                        self.rank_seq().to_multiset() == g0.rank_seq().to_multiset(),
                    decreases d - k,
                {
                    proof {
                        lemma_path_in_bounds(g0, v0, dir, d as int, k as int);
                        lemma_path_in_bounds(g0, v0, dir, d as int, k as int + 1);
                    }
                    let v = self.void_cell;
                    let nb = step_coord(v, dir);
                    let ghost ck = self.cells@;
                    self.swap(v, nb);
                    proof {
                        let ki = k as int;
                        let pa = g0.path_idx(v0, dir, ki);
                        let pb = g0.path_idx(v0, dir, ki + 1);
                        lemma_path_distinct(g0, v0, dir, d as int, ki, ki + 1);
                        assert(self.cells@ == ck.update(pa, ck[pb]).update(pb, ck[pa]));
                        assert forall|m: int| 0 <= m <= ki implies #[trigger] g0.path_idx(
                            v0,
                            dir,
                            m,
                        ) != pb by {
                            lemma_path_distinct(g0, v0, dir, d as int, m, ki + 1);
                        }
                        assert(!g0.on_shift_path(v0, dir, ki, pb));
                        assert(ck[pb] == g0.cells@[pb]);
                        assert forall|m: int| 0 <= m < ki + 1 implies self.cells@[#[trigger] g0.path_idx(
                            v0,
                            dir,
                            m,
                        )] == g0.cells@[g0.path_idx(v0, dir, m + 1)] by {
                            if m < ki {
                                lemma_path_distinct(g0, v0, dir, d as int, m, ki);
                                lemma_path_in_bounds(g0, v0, dir, d as int, m);
                            } else {
                                assert(self.cells@[pa] == ck[pb]);
                            }
                        }
                        assert(self.cells@[pb] == ck[pa]);
                        assert forall|i: int|
                            0 <= i < g0.cells@.len() && !g0.on_shift_path(v0, dir, ki + 1, i)
                            implies #[trigger] self.cells@[i] == g0.cells@[i] by {
                            assert(g0.on_shift_path(v0, dir, ki + 1, pa)) by {
                                assert(0 <= ki <= ki + 1 && pa == g0.path_idx(v0, dir, ki));
                            }
                            assert(g0.on_shift_path(v0, dir, ki + 1, pb)) by {
                                assert(0 <= ki + 1 <= ki + 1 && pb == g0.path_idx(
                                    v0,
                                    dir,
                                    ki + 1,
                                ));
                            }
                            assert(i != pa && i != pb);
                            if g0.on_shift_path(v0, dir, ki, i) {
                                let m = choose|m: int|
                                    0 <= m <= ki && i == #[trigger] g0.path_idx(v0, dir, m);
                                assert(0 <= m <= ki + 1 && i == g0.path_idx(v0, dir, m));
                                assert(false);
                            }
                            assert(self.cells@[i] == ck[i]);
                        }
                    }
                    k = k + 1;
                }
            },
        }
    }

    /// Handles an activation end to end: validates the coordinate,
    /// resolves it against the current void position, and applies the
    /// resulting move. Refuses a coordinate off the board and then leaves
    /// the grid untouched.
    pub fn activate(&mut self, activated: TaquinCoord) -> (r: Result<MoveOutcome, GridError>)
        requires
            old(self).wf(),
        ensures
            final(self).wf(),
            match r {
                Ok(outcome) => {
                    &&& old(self).in_bounds(activated)
                    &&& outcome == resolve_spec(activated, old(self).void_cell)
                    &&& apply_rel(*old(self), *final(self), outcome)
                    &&& final(self).cells@.to_multiset() == old(self).cells@.to_multiset()
                    &&& final(self).rank_seq().to_multiset() == old(self).rank_seq().to_multiset()
                },
                Err(e) => {
                    &&& e == GridError::OutOfBounds
                    &&& !old(self).in_bounds(activated)
                    &&& *final(self) == *old(self)
                },
            },
    {
        if !(1 <= activated.col && activated.col <= self.sides.num_col && 1 <= activated.line
            && activated.line <= self.sides.num_line) {
            return Err(GridError::OutOfBounds);
        }
        let outcome = resolve(activated, self.void_cell);
        proof {
            lemma_resolve_in_bounds(*self, activated);
        }
        self.apply(outcome);
        Ok(outcome)
    }
}

} // verus!
