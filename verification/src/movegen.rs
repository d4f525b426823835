//! Move generation: the canonical per-destination legality tests, the
//! per-piece destination lists and the aggregate move sets, each pinned to
//! a spec-level sequence, with membership characterizations.

use vstd::prelude::*;

use crate::board::Board;
use crate::game::{
    diag_ok, step_dest_ok, tiger_can_jump, tiger_dest_ok, GameState, Piece, Position,
};

verus! {

// ---------------------------------------------------------------------------
// Spec-level move lists
// ---------------------------------------------------------------------------

/// Tiger destinations among `0 .. n`, in ascending order.
pub open spec fn tiger_dests_upto(c: Seq<Piece>, from: int, n: int) -> Seq<Position>
    decreases n,
{
    if n <= 0 {
        Seq::empty()
    } else {
        let rest = tiger_dests_upto(c, from, n - 1);
        if tiger_dest_ok(c, from, n - 1) {
            rest.push(Position((n - 1) as usize))
        } else {
            rest
        }
    }
}

/// All tiger destinations from `from`, in ascending order.
pub open spec fn tiger_dests(c: Seq<Piece>, from: int) -> Seq<Position> {
    tiger_dests_upto(c, from, 25)
}

/// Goat destinations among `0 .. n`, in ascending order.
pub open spec fn goat_dests_upto(c: Seq<Piece>, from: int, n: int) -> Seq<Position>
    decreases n,
{
    if n <= 0 {
        Seq::empty()
    } else {
        let rest = goat_dests_upto(c, from, n - 1);
        if step_dest_ok(c, from, n - 1) {
            rest.push(Position((n - 1) as usize))
        } else {
            rest
        }
    }
}

/// All goat destinations from `from`, in ascending order.
pub open spec fn goat_dests(c: Seq<Piece>, from: int) -> Seq<Position> {
    goat_dests_upto(c, from, 25)
}

/// A destination list turned into (from, to) pairs.
pub open spec fn pair_up(from: usize, dests: Seq<Position>) -> Seq<(usize, usize)> {
    dests.map_values(|p: Position| (from, p.0))
}

/// The tiger move pairs whose source lies in `0 .. n`.
pub open spec fn all_tiger_pairs_upto(c: Seq<Piece>, n: int) -> Seq<(usize, usize)>
    decreases n,
{
    if n <= 0 {
        Seq::empty()
    } else {
        all_tiger_pairs_upto(c, n - 1)
            + if c[n - 1] == Piece::Tiger {
                pair_up((n - 1) as usize, tiger_dests(c, n - 1))
            } else {
                Seq::empty()
            }
    }
}

/// Every legal tiger move pair on the board.
pub open spec fn all_tiger_pairs(c: Seq<Piece>) -> Seq<(usize, usize)> {
    all_tiger_pairs_upto(c, 25)
}

/// The goat movement pairs whose source lies in `0 .. n`.
pub open spec fn all_goat_move_pairs_upto(c: Seq<Piece>, n: int) -> Seq<(usize, usize)>
    decreases n,
{
    if n <= 0 {
        Seq::empty()
    } else {
        all_goat_move_pairs_upto(c, n - 1)
            + if c[n - 1] == Piece::Goat {
                pair_up((n - 1) as usize, goat_dests(c, n - 1))
            } else {
                Seq::empty()
            }
    }
}

/// Every legal goat movement pair on the board.
pub open spec fn all_goat_move_pairs(c: Seq<Piece>) -> Seq<(usize, usize)> {
    all_goat_move_pairs_upto(c, 25)
}

/// The placement pairs (cell, cell) over the empty cells in `0 .. n`.
pub open spec fn placements_upto(c: Seq<Piece>, n: int) -> Seq<(usize, usize)>
    decreases n,
{
    if n <= 0 {
        Seq::empty()
    } else {
        let rest = placements_upto(c, n - 1);
        if c[n - 1] == Piece::Empty {
            rest.push(((n - 1) as usize, (n - 1) as usize))
        } else {
            rest
        }
    }
}

/// Every legal goat placement, as (cell, cell) pairs.
pub open spec fn placements(c: Seq<Piece>) -> Seq<(usize, usize)> {
    placements_upto(c, 25)
}

/// The goat side's legal choices: placements only while goats remain in
/// hand, movement pairs afterwards.
pub open spec fn goat_choices(s: GameState) -> Seq<(usize, usize)> {
    if s.hand > 0 {
        placements(s.cells)
    } else {
        all_goat_move_pairs(s.cells)
    }
}

/// What the display hint accepts as a destination for the currently
/// selected piece.
pub open spec fn hint_move_ok(s: GameState, sel: Option<usize>, to: int) -> bool {
    match sel {
        Option::Some(f) => match s.cells[f as int] {
            Piece::Tiger => tiger_dest_ok(s.cells, f as int, to),
            Piece::Goat => if s.hand > 0 {
                s.cells[to] == Piece::Empty
            } else {
                step_dest_ok(s.cells, f as int, to)
            },
            Piece::Empty => false,
        },
        Option::None => false,
    }
}

// ---------------------------------------------------------------------------
// Membership characterizations
// ---------------------------------------------------------------------------

/// What the tiger destination list holds: exactly the legal destinations.
pub proof fn lemma_tiger_dests_membership(c: Seq<Piece>, from: int)
    ensures
        forall|p: Position| #[trigger] tiger_dests(c, from).contains(p)
            <==> ((p.0 as int) < 25 && tiger_dest_ok(c, from, p.0 as int)),
{
    lemma_tiger_dests_upto_membership(c, from, 25);
}

proof fn lemma_tiger_dests_upto_membership(c: Seq<Piece>, from: int, n: int)
    requires
        0 <= n <= 25,
    ensures
        forall|p: Position| #[trigger] tiger_dests_upto(c, from, n).contains(p)
            <==> ((p.0 as int) < n && tiger_dest_ok(c, from, p.0 as int)),
    decreases n,
{
    broadcast use vstd::seq_lib::group_seq_properties;

    if n > 0 {
        lemma_tiger_dests_upto_membership(c, from, n - 1);
        let prev = tiger_dests_upto(c, from, n - 1);
        let cur = tiger_dests_upto(c, from, n);
        if tiger_dest_ok(c, from, n - 1) {
            let v = Position((n - 1) as usize);
            assert forall|p: Position| cur.contains(p)
                <==> ((p.0 as int) < n && tiger_dest_ok(c, from, p.0 as int)) by {
                assert(prev.push(v).contains(p) <==> v == p || prev.contains(p));
            }
        } else {
            assert forall|p: Position| cur.contains(p)
                <==> ((p.0 as int) < n && tiger_dest_ok(c, from, p.0 as int)) by {
                assert(cur.contains(p) == prev.contains(p));
            }
        }
    }
}

/// What the goat destination list holds: exactly the legal destinations.
pub proof fn lemma_goat_dests_membership(c: Seq<Piece>, from: int)
    ensures
        forall|p: Position| #[trigger] goat_dests(c, from).contains(p)
            <==> ((p.0 as int) < 25 && step_dest_ok(c, from, p.0 as int)),
{
    lemma_goat_dests_upto_membership(c, from, 25);
}

proof fn lemma_goat_dests_upto_membership(c: Seq<Piece>, from: int, n: int)
    requires
        0 <= n <= 25,
    ensures
        forall|p: Position| #[trigger] goat_dests_upto(c, from, n).contains(p)
            <==> ((p.0 as int) < n && step_dest_ok(c, from, p.0 as int)),
    decreases n,
{
    broadcast use vstd::seq_lib::group_seq_properties;

    if n > 0 {
        lemma_goat_dests_upto_membership(c, from, n - 1);
        let prev = goat_dests_upto(c, from, n - 1);
        let cur = goat_dests_upto(c, from, n);
        if step_dest_ok(c, from, n - 1) {
            let v = Position((n - 1) as usize);
            assert forall|p: Position| cur.contains(p)
                <==> ((p.0 as int) < n && step_dest_ok(c, from, p.0 as int)) by {
                assert(prev.push(v).contains(p) <==> v == p || prev.contains(p));
            }
        } else {
            assert forall|p: Position| cur.contains(p)
                <==> ((p.0 as int) < n && step_dest_ok(c, from, p.0 as int)) by {
                assert(cur.contains(p) == prev.contains(p));
            }
        }
    }
}

/// What `pair_up` holds: the same destinations, paired with the source.
pub proof fn lemma_pair_up_membership(from: usize, dests: Seq<Position>)
    ensures
        forall|pr: (usize, usize)| #[trigger] pair_up(from, dests).contains(pr)
            <==> (pr.0 == from && dests.contains(Position(pr.1))),
{
    let m = pair_up(from, dests);
    assert forall|pr: (usize, usize)| m.contains(pr)
        implies (pr.0 == from && dests.contains(Position(pr.1))) by {
        let i = choose|i: int| 0 <= i < m.len() && m[i] == pr;
        assert(dests[i].0 == pr.1);
        assert(dests[i] == Position(pr.1));
        assert(dests.contains(dests[i]));
    }
    assert forall|pr: (usize, usize)| (pr.0 == from && dests.contains(Position(pr.1)))
        implies m.contains(pr) by {
        let i = choose|i: int| 0 <= i < dests.len() && dests[i] == Position(pr.1);
        assert(m[i] == pr);
        assert(m.contains(m[i]));
    }
}

/// What the aggregate tiger move set holds: exactly the pairs where a
/// tiger stands at the source and the destination is legal for it.
pub proof fn lemma_all_tiger_pairs_membership(c: Seq<Piece>)
    ensures
        forall|pr: (usize, usize)| #[trigger] all_tiger_pairs(c).contains(pr)
            <==> ((pr.0 as int) < 25 && c[pr.0 as int] == Piece::Tiger
                && tiger_dest_ok(c, pr.0 as int, pr.1 as int)),
{
    lemma_all_tiger_pairs_upto_membership(c, 25);
}

proof fn lemma_all_tiger_pairs_upto_membership(c: Seq<Piece>, n: int)
    requires
        0 <= n <= 25,
    ensures
        forall|pr: (usize, usize)| #[trigger] all_tiger_pairs_upto(c, n).contains(pr)
            <==> ((pr.0 as int) < n && c[pr.0 as int] == Piece::Tiger
                && tiger_dest_ok(c, pr.0 as int, pr.1 as int)),
    decreases n,
{
    broadcast use vstd::seq_lib::group_seq_properties;

    if n > 0 {
        lemma_all_tiger_pairs_upto_membership(c, n - 1);
        lemma_tiger_dests_membership(c, n - 1);
        lemma_pair_up_membership((n - 1) as usize, tiger_dests(c, n - 1));
        let prev = all_tiger_pairs_upto(c, n - 1);
        let cur = all_tiger_pairs_upto(c, n);
        let block = if c[n - 1] == Piece::Tiger {
            pair_up((n - 1) as usize, tiger_dests(c, n - 1))
        } else {
            Seq::<(usize, usize)>::empty()
        };
        assert forall|pr: (usize, usize)| cur.contains(pr)
            <==> ((pr.0 as int) < n && c[pr.0 as int] == Piece::Tiger
                && tiger_dest_ok(c, pr.0 as int, pr.1 as int)) by {
            assert((prev + block).contains(pr) <==> prev.contains(pr) || block.contains(pr));
            assert(!Seq::<(usize, usize)>::empty().contains(pr));
        }
    }
}

/// What the aggregate goat movement set holds.
pub proof fn lemma_all_goat_move_pairs_membership(c: Seq<Piece>)
    ensures
        forall|pr: (usize, usize)| #[trigger] all_goat_move_pairs(c).contains(pr)
            <==> ((pr.0 as int) < 25 && c[pr.0 as int] == Piece::Goat
                && step_dest_ok(c, pr.0 as int, pr.1 as int)),
{
    lemma_all_goat_move_pairs_upto_membership(c, 25);
}

proof fn lemma_all_goat_move_pairs_upto_membership(c: Seq<Piece>, n: int)
    requires
        0 <= n <= 25,
    ensures
        forall|pr: (usize, usize)| #[trigger] all_goat_move_pairs_upto(c, n).contains(pr)
            <==> ((pr.0 as int) < n && c[pr.0 as int] == Piece::Goat
                && step_dest_ok(c, pr.0 as int, pr.1 as int)),
    decreases n,
{
    broadcast use vstd::seq_lib::group_seq_properties;

    if n > 0 {
        lemma_all_goat_move_pairs_upto_membership(c, n - 1);
        lemma_goat_dests_membership(c, n - 1);
        lemma_pair_up_membership((n - 1) as usize, goat_dests(c, n - 1));
        let prev = all_goat_move_pairs_upto(c, n - 1);
        let cur = all_goat_move_pairs_upto(c, n);
        let block = if c[n - 1] == Piece::Goat {
            pair_up((n - 1) as usize, goat_dests(c, n - 1))
        } else {
            Seq::<(usize, usize)>::empty()
        };
        assert forall|pr: (usize, usize)| cur.contains(pr)
            <==> ((pr.0 as int) < n && c[pr.0 as int] == Piece::Goat
                && step_dest_ok(c, pr.0 as int, pr.1 as int)) by {
            assert((prev + block).contains(pr) <==> prev.contains(pr) || block.contains(pr));
            assert(!Seq::<(usize, usize)>::empty().contains(pr));
        }
    }
}

/// What the placement set holds: one (cell, cell) pair per empty cell.
pub proof fn lemma_placements_membership(c: Seq<Piece>)
    ensures
        forall|pr: (usize, usize)| #[trigger] placements(c).contains(pr)
            <==> ((pr.0 as int) < 25 && pr.1 == pr.0 && c[pr.0 as int] == Piece::Empty),
{
    lemma_placements_upto_membership(c, 25);
}

proof fn lemma_placements_upto_membership(c: Seq<Piece>, n: int)
    requires
        0 <= n <= 25,
    ensures
        forall|pr: (usize, usize)| #[trigger] placements_upto(c, n).contains(pr)
            <==> ((pr.0 as int) < n && pr.1 == pr.0 && c[pr.0 as int] == Piece::Empty),
    decreases n,
{
    broadcast use vstd::seq_lib::group_seq_properties;

    if n > 0 {
        lemma_placements_upto_membership(c, n - 1);
        let prev = placements_upto(c, n - 1);
        let cur = placements_upto(c, n);
        if c[n - 1] == Piece::Empty {
            let v = ((n - 1) as usize, (n - 1) as usize);
            assert forall|pr: (usize, usize)| cur.contains(pr)
                <==> ((pr.0 as int) < n && pr.1 == pr.0 && c[pr.0 as int] == Piece::Empty) by {
                assert(prev.push(v).contains(pr) <==> v == pr || prev.contains(pr));
            }
        } else {
            assert forall|pr: (usize, usize)| cur.contains(pr)
                <==> ((pr.0 as int) < n && pr.1 == pr.0 && c[pr.0 as int] == Piece::Empty) by {
                assert(cur.contains(pr) == prev.contains(pr));
            }
        }
    }
}

// ---------------------------------------------------------------------------
// Executable generation
// ---------------------------------------------------------------------------

impl Board {
    /// Whether diagonal edges exist at `pos`: the fixed eligible set.
    pub fn is_diagonal_allowed(&self, pos: usize) -> (r: bool)
        ensures
            r == diag_ok(pos as int),
    {
        pos < 25 && pos % 2 == 0
    }

    /// The canonical single-step legality test: `to` is adjacent to `from`
    /// (diagonally only where permitted) and empty.
    pub(crate) fn is_step_dest(&self, from: usize, to: usize) -> (r: bool)
        requires
            from < 25,
            to < 25,
            self@.cells.len() == 25,
        ensures
            r == step_dest_ok(self@.cells, from as int, to as int),
    {
        let rf = from / 5;
        let cf = from % 5;
        let rt = to / 5;
        let ct = to % 5;
        let dr = if rt >= rf { rt - rf } else { rf - rt };
        let dc = if ct >= cf { ct - cf } else { cf - ct };
        let shape = (rf == rt && dc == 1) || (cf == ct && dr == 1)
            || (dr == 1 && dc == 1 && from % 2 == 0 && to % 2 == 0);
        shape && self.cells[to] == Piece::Empty
    }

    /// The canonical jump legality test: a two-cell line or eligible
    /// diagonal whose midpoint holds a goat, ending on an empty cell.
    pub(crate) fn is_jump_dest(&self, from: usize, to: usize) -> (r: bool)
        requires
            from < 25,
            to < 25,
            self@.cells.len() == 25,
        ensures
            r == tiger_can_jump(self@.cells, from as int, to as int),
    {
        let rf = from / 5;
        let cf = from % 5;
        let rt = to / 5;
        let ct = to % 5;
        let dr = if rt >= rf { rt - rf } else { rf - rt };
        let dc = if ct >= cf { ct - cf } else { cf - ct };
        let mid = ((rf + rt) / 2) * 5 + (cf + ct) / 2;
        let shape = (rf == rt && dc == 2) || (cf == ct && dr == 2)
            || (dr == 2 && dc == 2 && from % 2 == 0 && to % 2 == 0 && mid % 2 == 0);
        shape && self.cells[mid] == Piece::Goat && self.cells[to] == Piece::Empty
    }

    /// Whether a tiger standing at `from` may move to `to`.
    pub(crate) fn is_tiger_dest(&self, from: usize, to: usize) -> (r: bool)
        requires
            from < 25,
            to < 25,
            self@.cells.len() == 25,
        ensures
            r == tiger_dest_ok(self@.cells, from as int, to as int),
    {
        self.is_step_dest(from, to) || self.is_jump_dest(from, to)
    }

    /// All destinations a tiger at `pos` could move to, ascending.
    pub fn get_valid_tiger_moves(&self, pos: usize) -> (moves: Vec<Position>)
        requires
            pos < 25,
            self@.cells.len() == 25,
        ensures
            moves@ == tiger_dests(self@.cells, pos as int),
    {
        let mut moves: Vec<Position> = Vec::new();
        let mut t: usize = 0;
        while t < 25
            invariant
                t <= 25,
                pos < 25,
                self@.cells.len() == 25,
                moves@ == tiger_dests_upto(self@.cells, pos as int, t as int),
            decreases 25 - t,
        {
            if self.is_tiger_dest(pos, t) {
                moves.push(Position(t));
            }
            t += 1;
        }
        moves
    }

    /// All destinations a goat at `pos` could step to, ascending.
    pub fn get_valid_goat_moves(&self, pos: usize) -> (moves: Vec<Position>)
        requires
            pos < 25,
            self@.cells.len() == 25,
        ensures
            moves@ == goat_dests(self@.cells, pos as int),
    {
        let mut moves: Vec<Position> = Vec::new();
        let mut t: usize = 0;
        while t < 25
            invariant
                t <= 25,
                pos < 25,
                self@.cells.len() == 25,
                moves@ == goat_dests_upto(self@.cells, pos as int, t as int),
            decreases 25 - t,
        {
            if self.is_step_dest(pos, t) {
                moves.push(Position(t));
            }
            t += 1;
        }
        moves
    }

    /// Every legal tiger move, as (from, to) pairs over all four tigers.
    pub fn get_all_valid_tiger_moves(&self) -> (moves: Vec<(usize, usize)>)
        requires
            self@.cells.len() == 25,
        ensures
            moves@ == all_tiger_pairs(self@.cells),
    {
        let mut all: Vec<(usize, usize)> = Vec::new();
        let mut f: usize = 0;
        while f < 25
            invariant
                f <= 25,
                self@.cells.len() == 25,
                all@ == all_tiger_pairs_upto(self@.cells, f as int),
            decreases 25 - f,
        {
            let ghost prev = all@;
            if self.cells[f] == Piece::Tiger {
                let dests = self.get_valid_tiger_moves(f);
                let ghost gdests = dests@;
                let mut j: usize = 0;
                while j < dests.len()
                    invariant
                        j <= dests.len(),
                        f < 25,
                        self@.cells.len() == 25,
                        dests@ == gdests,
                        gdests == tiger_dests(self@.cells, f as int),
                        all@ == prev + pair_up(f, gdests.take(j as int)),
                    decreases dests.len() - j,
                {
                    let to = dests[j].0;
                    all.push((f, to));
                    proof {
                        assert(gdests.take((j + 1) as int)
                            =~= gdests.take(j as int).push(gdests[j as int]));
                        assert(pair_up(f, gdests.take((j + 1) as int))
                            =~= pair_up(f, gdests.take(j as int)).push((f, gdests[j as int].0)));
                        assert(all@ =~= prev + pair_up(f, gdests.take((j + 1) as int)));
                    }
                    j += 1;
                }
                proof {
                    assert(gdests.take(gdests.len() as int) =~= gdests);
                    assert(all@ =~= all_tiger_pairs_upto(self@.cells, f as int + 1));
                }
            } else {
                proof {
                    assert(all@ =~= all_tiger_pairs_upto(self@.cells, f as int + 1));
                }
            }
            f += 1;
        }
        all
    }

    /// Every legal goat choice: placements on all empty cells while goats
    /// remain in hand, movement pairs of the on-board goats afterwards.
    pub fn get_all_valid_goat_moves(&self) -> (moves: Vec<(usize, usize)>)
        requires
            self@.cells.len() == 25,
        ensures
            moves@ == goat_choices(self@),
    {
        let mut all: Vec<(usize, usize)> = Vec::new();

        if self.goats_in_hand > 0 {
            let mut p: usize = 0;
            while p < 25
                invariant
                    p <= 25,
                    self@.cells.len() == 25,
                    all@ == placements_upto(self@.cells, p as int),
                decreases 25 - p,
            {
                if self.cells[p] == Piece::Empty {
                    all.push((p, p));
                }
                p += 1;
            }
            return all;
        }

        let mut f: usize = 0;
        while f < 25
            invariant
                f <= 25,
                self@.cells.len() == 25,
                all@ == all_goat_move_pairs_upto(self@.cells, f as int),
            decreases 25 - f,
        {
            let ghost prev = all@;
            if self.cells[f] == Piece::Goat {
                let dests = self.get_valid_goat_moves(f);
                let ghost gdests = dests@;
                let mut j: usize = 0;
                while j < dests.len()
                    invariant
                        j <= dests.len(),
                        f < 25,
                        self@.cells.len() == 25,
                        dests@ == gdests,
                        gdests == goat_dests(self@.cells, f as int),
                        all@ == prev + pair_up(f, gdests.take(j as int)),
                    decreases dests.len() - j,
                {
                    let to = dests[j].0;
                    all.push((f, to));
                    proof {
                        assert(gdests.take((j + 1) as int)
                            =~= gdests.take(j as int).push(gdests[j as int]));
                        assert(pair_up(f, gdests.take((j + 1) as int))
                            =~= pair_up(f, gdests.take(j as int)).push((f, gdests[j as int].0)));
                        assert(all@ =~= prev + pair_up(f, gdests.take((j + 1) as int)));
                    }
                    j += 1;
                }
                proof {
                    assert(gdests.take(gdests.len() as int) =~= gdests);
                    assert(all@ =~= all_goat_move_pairs_upto(self@.cells, f as int + 1));
                }
            } else {
                proof {
                    assert(all@ =~= all_goat_move_pairs_upto(self@.cells, f as int + 1));
                }
            }
            f += 1;
        }
        all
    }

    /// Whether `to` is a legal destination for the selected piece; the
    /// display uses this to mark candidate cells.
    pub(crate) fn is_valid_move(&self, _from: usize, to: usize) -> (r: bool)
        requires
            to < 25,
            self@.cells.len() == 25,
            match self.selected_position {
                Some(p) => p < 25,
                None => true,
            },
        ensures
            r == hint_move_ok(self@, self.selected_position, to as int),
    {
        if let Some(selected) = self.selected_position {
            match self.cells[selected] {
                Piece::Tiger => self.is_tiger_dest(selected, to),
                Piece::Goat => {
                    if self.goats_in_hand > 0 {
                        self.cells[to] == Piece::Empty
                    } else {
                        self.is_step_dest(selected, to)
                    }
                },
                Piece::Empty => false,
            }
        } else {
            false
        }
    }
}

} // verus!
