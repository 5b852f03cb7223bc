//! Scrambling: a random rearrangement of the tiles that keeps every tile
//! and leaves the void coordinate cached correctly.

use vstd::prelude::*;

use rand::Rng;

use crate::grid::Grid;

verus! {

/// Relies on rand::Rng::gen_range, called on rand::thread_rng(): a
/// uniformly random integer drawn from the given nonempty range. Nothing
/// is assumed of the draw beyond its bound.
#[verifier::external_body]
fn rand_below(n: usize) -> (r: usize)
    requires
        n >= 1,
    ensures
        r < n,
{
    rand::thread_rng().gen_range(0..n)
}

impl Grid {
    /// Rearranges the tiles by a random permutation (a shuffle of the
    /// backing vector, one random swap per position), keeps the cached
    /// void coordinate on the void tile, and records that the board has
    /// been scrambled. No tile is created, duplicated or lost: the
    /// multiset of tiles, and with it the multiset of ranks, is exactly
    /// what it was.
    #[verifier::loop_isolation(false)]
    pub fn scramble(&mut self)
        requires
            old(self).wf(),
        ensures
            final(self).wf(),
            final(self).sides == old(self).sides,
            final(self).scrambled,
            final(self).cells@.to_multiset() == old(self).cells@.to_multiset(),
            final(self).rank_seq().to_multiset() == old(self).rank_seq().to_multiset(),
    {
        let ghost g0 = *old(self);
        let n = self.cells.len();
        let mut i: usize = n;
        while i > 1
            invariant
                i <= n,
                self.wf(),
                self.sides == g0.sides,
                self.scrambled == g0.scrambled,
                self.cells@.len() == n,
                self.cells@.to_multiset() == g0.cells@.to_multiset(),
                self.rank_seq().to_multiset() == g0.rank_seq().to_multiset(),
            decreases i,
        {
            let j = rand_below(i);
            let a = self.coord_at(i - 1);
            let b = self.coord_at(j);
            self.swap(a, b);
            i = i - 1;
        }
        self.scrambled = true;
    }
}

} // verus!
