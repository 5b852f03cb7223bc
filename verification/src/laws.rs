//! Board-level laws: facts that hold across the engine's operations.

use vstd::prelude::*;

use crate::cell::MoveOutcome;
use crate::cell::TaquinCoord;
use crate::grid::Grid;
use crate::moves::apply_rel;
use crate::moves::resolve_spec;

verus! {

/// A refused activation is a true no-op: whenever resolving a coordinate
/// against the void yields no move, applying that outcome leaves every
/// tile's rank, content and void flag, and the void coordinate, exactly
/// as they were.
pub proof fn lemma_noop_is_identity(pre: Grid, post: Grid, activated: TaquinCoord)
    requires
        resolve_spec(activated, pre.void_cell) == MoveOutcome::NoOp,
        apply_rel(pre, post, resolve_spec(activated, pre.void_cell)),
    ensures
        post.cells@ == pre.cells@,
        post.void_cell == pre.void_cell,
        post.sides == pre.sides,
        post.scrambled == pre.scrambled,
{
}

/// Win detection is gated on scrambling: a board that has never been
/// scrambled is not won, even while its ranks are already in solved
/// order.
pub proof fn lemma_win_gated(g: Grid)
    requires
        !g.scrambled,
    ensures
        !g.has_won_spec(),
{
}

/// Exchanging the tiles of two distinct positions of a solved board
/// always breaks the solved order: the solved arrangement is the only
/// winning one, and it has no nontrivial transposition.
pub proof fn lemma_transposition_breaks_win(g1: Grid, g2: Grid, i: int, j: int)
    requires
        g1.ranks_sorted(),
        0 <= i < g1.cells@.len(),
        0 <= j < g1.cells@.len(),
        i != j,
        g2.cells@ == g1.cells@.update(i, g1.cells@[j]).update(j, g1.cells@[i]),
    ensures
        !g2.ranks_sorted(),
        !g2.has_won_spec(),
{
    assert(g2.cells@[i].rank == j + 1);
    assert(g2.cells@[i].rank != i + 1);
}

} // verus!
