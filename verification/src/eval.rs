//! The static evaluation heuristic: a tiger-maximizing score of a
//! position, pinned to an exact spec-level formula.

use vstd::prelude::*;

use crate::board::Board;
use crate::game::{
    tiger_can_jump, tiger_dest_ok, wf_counts, winner_of, GameState, Piece, Position, Winner,
};
use crate::movegen::lemma_tiger_dests_membership;

verus! {

/// A tiger at `f` with no legal destination at all.
pub open spec fn trapped_at(c: Seq<Piece>, f: int) -> bool {
    c[f] == Piece::Tiger
    && forall|t: int| 0 <= t < 25 ==> !#[trigger] tiger_dest_ok(c, f, t)
}

/// How many tigers among cells `0 .. n` are immobilized.
pub open spec fn count_trapped(c: Seq<Piece>, n: int) -> nat
    decreases n,
{
    if n <= 0 {
        0
    } else {
        count_trapped(c, n - 1) + if trapped_at(c, n - 1) { 1nat } else { 0nat }
    }
}

/// The fixed strategic cells: the center, its diagonal second ring and
/// its orthogonal neighbors.
pub open spec fn is_strategic(p: int) -> bool {
    p == 12 || p == 6 || p == 8 || p == 16 || p == 18 || p == 7 || p == 11 || p == 13 || p == 17
}

/// How many goats among cells `0 .. n` occupy strategic cells.
pub open spec fn count_strategic_goats(c: Seq<Piece>, n: int) -> nat
    decreases n,
{
    if n <= 0 {
        0
    } else {
        count_strategic_goats(c, n - 1)
            + if is_strategic(n - 1) && c[n - 1] == Piece::Goat { 1nat } else { 0nat }
    }
}

/// How many capturing jumps a tiger at `f` has among destinations `0 .. n`.
pub open spec fn count_jumps_from(c: Seq<Piece>, f: int, n: int) -> nat
    decreases n,
{
    if n <= 0 {
        0
    } else {
        count_jumps_from(c, f, n - 1) + if tiger_can_jump(c, f, n - 1) { 1nat } else { 0nat }
    }
}

/// How many capturing jumps are available to tigers among cells `0 .. n`.
pub open spec fn count_jumps(c: Seq<Piece>, n: int) -> nat
    decreases n,
{
    if n <= 0 {
        0
    } else {
        count_jumps(c, n - 1)
            + if c[n - 1] == Piece::Tiger { count_jumps_from(c, n - 1, 25) } else { 0nat }
    }
}

/// The heuristic: terminal positions short-circuit to plus or minus
/// 10000; otherwise 100 per captured goat, minus 50 per immobilized
/// tiger, minus 10 per goat on a strategic cell, plus 20 per available
/// jump capture.
pub open spec fn eval_spec(s: GameState) -> int {
    if winner_of(s) == Winner::Tigers {
        10000
    } else if winner_of(s) == Winner::Goats {
        -10000
    } else {
        100 * s.captured - 50 * count_trapped(s.cells, 25)
            - 10 * count_strategic_goats(s.cells, 25) + 20 * count_jumps(s.cells, 25)
    }
}

proof fn lemma_count_jumps_from_bound(c: Seq<Piece>, f: int, n: int)
    requires
        0 <= n,
    ensures
        count_jumps_from(c, f, n) <= n,
    decreases n,
{
    if n > 0 {
        lemma_count_jumps_from_bound(c, f, n - 1);
    }
}

proof fn lemma_count_jumps_bound(c: Seq<Piece>, n: int)
    requires
        0 <= n,
    ensures
        count_jumps(c, n) <= 25 * n,
    decreases n,
{
    if n > 0 {
        lemma_count_jumps_bound(c, n - 1);
        lemma_count_jumps_from_bound(c, n - 1, 25);
    }
}

impl Board {
    /// The heuristic score of the current position.
    pub(crate) fn evaluate_position(&self) -> (score: i32)
        requires
            wf_counts(self@),
        ensures
            score == eval_spec(self@),
    {
        let w = self.get_winner();
        if w == Winner::Tigers {
            return 10000;
        }
        if w == Winner::Goats {
            return -10000;
        }

        let ghost c = self@.cells;
        let mut score: i32 = (self.captured_goats as i32) * 100;

        // Immobilized tigers.
        let mut trapped: u32 = 0;
        let mut f: usize = 0;
        while f < 25
            invariant
                f <= 25,
                self@.cells.len() == 25,
                c == self@.cells,
                trapped == count_trapped(c, f as int),
                trapped <= f,
            decreases 25 - f,
        {
            if self.cells[f] == Piece::Tiger {
                let dests = self.get_valid_tiger_moves(f);
                proof {
                    lemma_tiger_dests_membership(c, f as int);
                }
                if dests.len() == 0 {
                    proof {
                        assert forall|t: int| 0 <= t < 25
                            implies !#[trigger] tiger_dest_ok(c, f as int, t) by {
                            if tiger_dest_ok(c, f as int, t) {
                                assert(dests@.contains(Position(t as usize)));
                            }
                        }
                        assert(trapped_at(c, f as int));
                    }
                    trapped += 1;
                } else {
                    proof {
                        assert(dests@.contains(dests@[0]));
                        assert(!trapped_at(c, f as int));
                    }
                }
            } else {
                proof {
                    assert(!trapped_at(c, f as int));
                }
            }
            f += 1;
        }
        score -= (trapped as i32) * 50;

        // Goats on strategic cells.
        let mut strat: u32 = 0;
        let mut p: usize = 0;
        while p < 25
            invariant
                p <= 25,
                self@.cells.len() == 25,
                c == self@.cells,
                strat == count_strategic_goats(c, p as int),
                strat <= p,
            decreases 25 - p,
        {
            let strategic = p == 12 || p == 6 || p == 8 || p == 16 || p == 18 || p == 7
                || p == 11 || p == 13 || p == 17;
            if strategic && self.cells[p] == Piece::Goat {
                strat += 1;
            }
            p += 1;
        }
        score -= (strat as i32) * 10;

        // Available jump captures.
        let mut jumps: u32 = 0;
        let mut jf: usize = 0;
        while jf < 25
            invariant
                jf <= 25,
                self@.cells.len() == 25,
                c == self@.cells,
                jumps == count_jumps(c, jf as int),
                jumps <= 25 * jf,
            decreases 25 - jf,
        {
            if self.cells[jf] == Piece::Tiger {
                let mut t: usize = 0;
                while t < 25
                    invariant
                        t <= 25,
                        jf < 25,
                        self@.cells.len() == 25,
                        c == self@.cells,
                        self@.cells[jf as int] == Piece::Tiger,
                        jumps == count_jumps(c, jf as int) + count_jumps_from(c, jf as int, t as int),
                        jumps <= 25 * jf + t,
                    decreases 25 - t,
                {
                    if self.is_jump_dest(jf, t) {
                        jumps += 1;
                    }
                    t += 1;
                }
            } else {
                proof {
                    assert(count_jumps(c, jf as int + 1) == count_jumps(c, jf as int));
                }
            }
            jf += 1;
        }
        score += (jumps as i32) * 20;

        proof {
            lemma_count_jumps_bound(c, 25);
        }
        score
    }
}

} // verus!
