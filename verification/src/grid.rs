//! The grid: the matrix of tiles, the cached void coordinate, the swap
//! primitive that every mutation is built on, and the win predicate.

use vstd::prelude::*;

use crate::cell::Cell;
use crate::cell::GridError;
use crate::cell::TaquinCoord;
use crate::cell::TaquinSide;

verus! {

/// The puzzle board: a dense row-major vector of tiles, the fixed
/// dimensions, the cached coordinate of the single void tile, and whether
/// the board has been scrambled at least once (win detection is gated on
/// it).
#[derive(Debug)]
pub struct Grid {
    pub cells: Vec<Cell>,
    pub sides: TaquinSide,
    pub void_cell: TaquinCoord,
    pub scrambled: bool,
}

impl Grid {
    pub open spec fn num_col(self) -> int {
        self.sides.num_col as int
    }

    pub open spec fn num_line(self) -> int {
        self.sides.num_line as int
    }

    /// Number of cells of the board.
    pub open spec fn size(self) -> int {
        self.num_col() * self.num_line()
    }

    /// Row-major index of the 1-indexed position (col, line).
    pub open spec fn sidx(self, col: int, line: int) -> int {
        (line - 1) * self.num_col() + (col - 1)
    }

    /// Row-major index of a coordinate.
    pub open spec fn idx_of(self, c: TaquinCoord) -> int {
        self.sidx(c.col as int, c.line as int)
    }

    /// Whether the 1-indexed position (col, line) lies on the board.
    pub open spec fn cin_bounds(self, col: int, line: int) -> bool {
        1 <= col <= self.num_col() && 1 <= line <= self.num_line()
    }

    /// Whether a coordinate lies on the board.
    pub open spec fn in_bounds(self, c: TaquinCoord) -> bool {
        self.cin_bounds(c.col as int, c.line as int)
    }

    /// The dimensions are positive and the backing vector holds exactly
    /// one tile per position.
    pub open spec fn wf_dims(self) -> bool {
        &&& self.num_col() >= 1
        &&& self.num_line() >= 1
        &&& self.cells@.len() == self.size()
    }

    /// Exactly one tile is void, and it sits at the cached coordinate.
    pub open spec fn wf_void(self) -> bool {
        &&& self.in_bounds(self.void_cell)
        &&& self.cells@[self.idx_of(self.void_cell)].is_void
        &&& forall|i: int|
            0 <= i < self.cells@.len() && i != self.idx_of(self.void_cell)
                ==> !(#[trigger] self.cells@[i]).is_void
    }

    /// The ranks are exactly the integers 1..=size, each held by one tile.
    pub open spec fn wf_ranks(self) -> bool {
        &&& forall|i: int|
            0 <= i < self.cells@.len() ==> 1 <= (#[trigger] self.cells@[i]).rank <= self.size()
        &&& forall|i: int, j: int|
            0 <= i < self.cells@.len() && 0 <= j < self.cells@.len() && i != j
                ==> (#[trigger] self.cells@[i]).rank != (#[trigger] self.cells@[j]).rank
    }

    /// The grid invariant, held at every observable point.
    pub open spec fn wf(self) -> bool {
        &&& self.wf_dims()
        &&& self.wf_void()
        &&& self.wf_ranks()
    }

    /// The ranks of the tiles, in row-major order.
    pub open spec fn rank_seq(self) -> Seq<int> {
        self.cells@.map_values(|c: Cell| c.rank as int)
    }

    /// Every tile sits at its home position: reading the board in
    /// row-major order yields the ranks 1, 2, ..., size.
    pub open spec fn ranks_sorted(self) -> bool {
        forall|i: int|
            0 <= i < self.cells@.len() ==> (#[trigger] self.cells@[i]).rank == i + 1
    }

    /// The board counts as won: it has been scrambled at least once and
    /// is back in solved order.
    pub open spec fn has_won_spec(self) -> bool {
        self.scrambled && self.ranks_sorted()
    }
}

/// A position on the board has a row-major index inside the backing
/// vector.
pub proof fn lemma_grid_index(ncol: int, nline: int, col: int, line: int)
    by (nonlinear_arith)
    requires
        ncol >= 1,
        nline >= 1,
        1 <= col <= ncol,
        1 <= line <= nline,
    ensures
        0 <= (line - 1) * ncol + (col - 1) < ncol * nline,
        (line - 1) * ncol + (col - 1) <= ncol * nline - 1,
{
}

/// Distinct positions on the board have distinct row-major indices.
pub proof fn lemma_grid_index_injective(ncol: int, nline: int, c1: int, l1: int, c2: int, l2: int)
    by (nonlinear_arith)
    requires
        ncol >= 1,
        nline >= 1,
        1 <= c1 <= ncol,
        1 <= l1 <= nline,
        1 <= c2 <= ncol,
        1 <= l2 <= nline,
    ensures
        ((l1 - 1) * ncol + (c1 - 1) == (l2 - 1) * ncol + (c2 - 1)) <==> (c1 == c2 && l1 == l2),
{
}

/// Splitting a row-major index by division and remainder gives the
/// position it stands for.
pub proof fn lemma_index_to_coord(ncol: int, nline: int, i: int)
    requires
        ncol >= 1,
        nline >= 1,
        0 <= i < ncol * nline,
    ensures
        0 <= i % ncol < ncol,
        0 <= i / ncol < nline,
        (i / ncol) * ncol + (i % ncol) == i,
{
    vstd::arithmetic::div_mod::lemma_fundamental_div_mod(i, ncol);
    vstd::arithmetic::div_mod::lemma_mod_bound(i, ncol);
    assert(i / ncol < nline) by (nonlinear_arith)
        requires
            ncol >= 1,
            0 <= i < ncol * nline,
            i == ncol * (i / ncol) + i % ncol,
            0 <= i % ncol < ncol,
    {
    }
    assert((i / ncol) * ncol + (i % ncol) == i) by (nonlinear_arith)
        requires
            i == ncol * (i / ncol) + i % ncol,
    {
    }
    assert(i / ncol >= 0) by (nonlinear_arith)
        requires
            ncol >= 1,
            0 <= i,
            i == ncol * (i / ncol) + i % ncol,
            0 <= i % ncol < ncol,
    {
    }
}

/// Exchanging the tiles at two positions of a sequence does not change
/// the multiset of its items.
pub proof fn lemma_swap_preserves_multiset<A>(s: Seq<A>, i: int, j: int)
    requires
        0 <= i < s.len(),
        0 <= j < s.len(),
    ensures
        s.update(i, s[j]).update(j, s[i]).to_multiset() == s.to_multiset(),
{
    broadcast use vstd::seq_lib::group_to_multiset_ensures;
    broadcast use vstd::multiset::group_multiset_axioms;

    let t = s.update(i, s[j]);
    let u = t.update(j, s[i]);
    assert(t[j] == s[j]);
    assert(s.contains(s[i]));
    assert(s.contains(s[j]));
    assert(t.contains(t[j]));
    assert(t.to_multiset() == s.to_multiset().insert(s[j]).remove(s[i]));
    assert(u.to_multiset() == t.to_multiset().insert(s[i]).remove(s[j]));
    assert(u.to_multiset() =~= s.to_multiset());
}

impl Grid {
    /// Builds a fresh board: ranks assigned 1..=size in row-major order,
    /// the content handles laid out 1:1 in the same order, and the
    /// row-major-last position void. Refuses a board of zero cells and a
    /// content sequence of the wrong length.
    pub fn new(num_col: usize, num_line: usize, contents: Vec<usize>) -> (r: Result<Grid, GridError>)
        ensures
            match r {
                Ok(g) => {
                    &&& num_col * num_line > 0
                    &&& contents@.len() == num_col * num_line
                    &&& g.wf()
                    &&& g.sides.num_col == num_col
                    &&& g.sides.num_line == num_line
                    &&& !g.scrambled
                    &&& g.void_cell.col == num_col
                    &&& g.void_cell.line == num_line
                    &&& g.cells@.len() == contents@.len()
                    &&& forall|i: int|
                        0 <= i < g.cells@.len() ==> {
                            &&& (#[trigger] g.cells@[i]).rank == i + 1
                            &&& g.cells@[i].content == contents@[i]
                            &&& (g.cells@[i].is_void <==> i == g.cells@.len() - 1)
                        }
                },
                Err(e) => {
                    &&& e == GridError::InvalidDimensions
                    &&& (num_col * num_line == 0 || contents@.len() != num_col * num_line)
                },
            },
    {
        if num_col == 0 || num_line == 0 {
            proof {
                assert(num_col * num_line == 0) by (nonlinear_arith)
                    requires
                        num_col == 0 || num_line == 0,
                {
                }
            }
            return Err(GridError::InvalidDimensions);
        }
        let size = contents.len();
        if size / num_col != num_line || size % num_col != 0 {
            proof {
                if size == num_col * num_line {
                    vstd::arithmetic::div_mod::lemma_fundamental_div_mod_converse(
                        size as int,
                        num_col as int,
                        num_line as int,
                        0,
                    );
                }
            }
            return Err(GridError::InvalidDimensions);
        }
        proof {
            vstd::arithmetic::div_mod::lemma_fundamental_div_mod(size as int, num_col as int);
            assert(size == num_col * num_line);
            assert(num_col * num_line >= 1) by (nonlinear_arith)
                requires
                    num_col >= 1,
                    num_line >= 1,
            {
            }
        }
        let mut cells: Vec<Cell> = Vec::new();
        let mut i: usize = 0;
        while i < size
            invariant
                i <= size,
                1 <= size,
                size == contents@.len(),
                cells@.len() == i,
                forall|k: int|
                    0 <= k < i as int ==> {
                        &&& (#[trigger] cells@[k]).rank == k + 1
                        &&& cells@[k].content == contents@[k]
                        &&& (cells@[k].is_void <==> k == size - 1)
                    },
            decreases size - i,
        {
            let is_void = i == size - 1;
            cells.push(Cell { content: contents[i], is_void, rank: i + 1 });
            i = i + 1;
        }
        let g = Grid {
            cells,
            sides: TaquinSide { num_line, num_col },
            void_cell: TaquinCoord { line: num_line, col: num_col },
            scrambled: false,
        };
        proof {
            lemma_grid_index(num_col as int, num_line as int, num_col as int, num_line as int);
            assert((num_line - 1) * num_col + (num_col - 1) == num_col * num_line - 1)
                by (nonlinear_arith)
                requires
                    num_col >= 1,
                    num_line >= 1,
            {
            }
            assert(g.idx_of(g.void_cell) == g.cells@.len() - 1);
        }
        Ok(g)
    }

    /// Row-major index of an in-bounds coordinate, as the backing vector
    /// uses it.
    pub(crate) fn index_of(&self, c: TaquinCoord) -> (i: usize)
        requires
            self.wf_dims(),
            self.in_bounds(c),
        ensures
            i as int == self.idx_of(c),
            (i as int) < self.cells@.len(),
    {
        proof {
            lemma_grid_index(self.num_col(), self.num_line(), c.col as int, c.line as int);
        }
        // the vector's length bounds the index, so the arithmetic fits in usize
        let _n = self.cells.len();
        (c.line - 1) * self.sides.num_col + (c.col - 1)
    }

    /// Coordinate of a row-major index of the backing vector.
    pub(crate) fn coord_at(&self, i: usize) -> (c: TaquinCoord)
        requires
            self.wf_dims(),
            (i as int) < self.cells@.len(),
        ensures
            self.in_bounds(c),
            self.idx_of(c) == i as int,
    {
        proof {
            lemma_index_to_coord(self.num_col(), self.num_line(), i as int);
        }
        let col = i % self.sides.num_col + 1;
        let line = i / self.sides.num_col + 1;
        TaquinCoord { line, col }
    }

    /// The tile at a coordinate; refuses a coordinate off the board.
    /// Coordinates produced internally are always in bounds; callers must
    /// validate externally supplied ones.
    pub fn tile_at(&self, coord: TaquinCoord) -> (r: Result<&Cell, GridError>)
        requires
            self.wf_dims(),
        ensures
            match r {
                Ok(c) => self.in_bounds(coord) && *c == self.cells@[self.idx_of(coord)],
                Err(e) => e == GridError::OutOfBounds && !self.in_bounds(coord),
            },
    {
        if 1 <= coord.col && coord.col <= self.sides.num_col && 1 <= coord.line && coord.line
            <= self.sides.num_line {
            let i = self.index_of(coord);
            Ok(&self.cells[i])
        } else {
            Err(GridError::OutOfBounds)
        }
    }

    /// The cached coordinate of the void tile.
    pub fn void_coordinate(&self) -> (c: TaquinCoord)
        ensures
            c == self.void_cell,
    {
        self.void_cell
    }

    /// Exchanges the two tiles (content, rank and void flag together) and
    /// keeps the cached void coordinate pointing at the void tile. The
    /// one primitive mutation; it preserves the grid invariant and the
    /// multiset of tiles.
    pub fn swap(&mut self, a: TaquinCoord, b: TaquinCoord)
        requires
            old(self).wf(),
            old(self).in_bounds(a),
            old(self).in_bounds(b),
        ensures
            final(self).wf(),
            final(self).sides == old(self).sides,
            final(self).scrambled == old(self).scrambled,
            final(self).cells@ == old(self).cells@.update(
                old(self).idx_of(a),
                old(self).cells@[old(self).idx_of(b)],
            ).update(old(self).idx_of(b), old(self).cells@[old(self).idx_of(a)]),
            final(self).void_cell == (if old(self).void_cell == a {
                b
            } else if old(self).void_cell == b {
                a
            } else {
                old(self).void_cell
            }),
            final(self).cells@.to_multiset() == old(self).cells@.to_multiset(),
            final(self).rank_seq().to_multiset() == old(self).rank_seq().to_multiset(),
    {
        let ia = self.index_of(a);
        let ib = self.index_of(b);
        let ca = self.cells[ia];
        let cb = self.cells[ib];
        self.cells[ia] = cb;
        self.cells[ib] = ca;
        if self.void_cell == a {
            self.void_cell = b;
        } else if self.void_cell == b {
            self.void_cell = a;
        }
        proof {
            let g0 = *old(self);
            let s = g0.cells@;
            let iai = ia as int;
            let ibi = ib as int;
            lemma_swap_preserves_multiset(s, iai, ibi);
            assert(self.rank_seq() =~= g0.rank_seq().update(iai, g0.rank_seq()[ibi]).update(
                ibi,
                g0.rank_seq()[iai],
            ));
            lemma_swap_preserves_multiset(g0.rank_seq(), iai, ibi);
            // coordinates are distinct exactly when their indices are
            lemma_grid_index_injective(
                g0.num_col(),
                g0.num_line(),
                a.col as int,
                a.line as int,
                b.col as int,
                b.line as int,
            );
            lemma_grid_index_injective(
                g0.num_col(),
                g0.num_line(),
                a.col as int,
                a.line as int,
                g0.void_cell.col as int,
                g0.void_cell.line as int,
            );
            lemma_grid_index_injective(
                g0.num_col(),
                g0.num_line(),
                b.col as int,
                b.line as int,
                g0.void_cell.col as int,
                g0.void_cell.line as int,
            );
            assert forall|i: int| 0 <= i < self.cells@.len() implies #[trigger] self.cells@[i]
                == s[if i == ibi {
                iai
            } else if i == iai {
                ibi
            } else {
                i
            }] by {}
            assert(self.wf_ranks());
            let vold = g0.void_cell;
            let vi = g0.idx_of(vold);
            lemma_grid_index(g0.num_col(), g0.num_line(), vold.col as int, vold.line as int);
            assert(0 <= vi < self.cells@.len());
            let vnew = self.void_cell;
            if vold == a {
                assert(vnew == b);
                assert(self.idx_of(vnew) == ibi);
                assert(self.cells@[ibi] == s[iai]);
                assert(s[iai].is_void);
                assert forall|i: int|
                    0 <= i < self.cells@.len() && i != ibi implies !(#[trigger] self.cells@[i]).is_void by {
                    if i == iai {
                        assert(self.cells@[i] == s[ibi]);
                        assert(ibi != vi);
                    } else {
                        assert(self.cells@[i] == s[i]);
                        assert(i != vi);
                    }
                }
            } else if vold == b {
                assert(vnew == a);
                assert(self.idx_of(vnew) == iai);
                assert(iai != ibi);
                assert(self.cells@[iai] == s[ibi]);
                assert(s[ibi].is_void);
                assert forall|i: int|
                    0 <= i < self.cells@.len() && i != iai implies !(#[trigger] self.cells@[i]).is_void by {
                    if i == ibi {
                        assert(self.cells@[i] == s[iai]);
                        assert(iai != vi);
                    } else {
                        assert(self.cells@[i] == s[i]);
                        assert(i != vi);
                    }
                }
            } else {
                assert(vnew == vold);
                assert(vi != iai && vi != ibi);
                assert(self.cells@[vi] == s[vi]);
                assert forall|i: int|
                    0 <= i < self.cells@.len() && i != vi implies !(#[trigger] self.cells@[i]).is_void by {
                    if i == iai {
                        assert(self.cells@[i] == s[ibi]);
                    } else if i == ibi {
                        assert(self.cells@[i] == s[iai]);
                    } else {
                        assert(self.cells@[i] == s[i]);
                    }
                }
            }
            assert(self.wf_void());
        }
    }

    /// Whether the board is won: it has been scrambled at least once and,
    /// reading the tiles in row-major order, every rank equals its
    /// sequential position.
    pub fn has_won(&self) -> (r: bool)
        ensures
            r == self.has_won_spec(),
    {
        if !self.scrambled {
            return false;
        }
        let n = self.cells.len();
        let mut i: usize = 0;
        while i < n
            invariant
                i <= n,
                n == self.cells@.len(),
                forall|k: int| 0 <= k < i as int ==> (#[trigger] self.cells@[k]).rank == k + 1,
            decreases n - i,
        {
            if self.cells[i].rank != i + 1 {
                return false;
            }
            i = i + 1;
        }
        true
    }
}

} // verus!
