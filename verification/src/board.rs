//! The board state and the history-tracked rule operations on it.

use vstd::prelude::*;

use crate::game::{
    captured_spec, count_piece, goat_move_enabled, goat_tr, lemma_count_push, lemma_count_pos,
    lemma_count_update, lemma_goat_tr_wf, lemma_place_undo, lemma_tiger_tr_wf, lemma_undo_wf,
    mid_pos, place_enabled, place_tr, tiger_dest_ok, tiger_move_enabled, tiger_tr,
    tigers_trapped, undo_tr, wf, winner_of, GameState, Move, Piece, Position, Winner,
};
use crate::movegen::lemma_tiger_dests_membership;

verus! {

/// The full game state: piece occupancy, goats still in hand, captured
/// goats, a UI selection hint, the reversible move history, and the time
/// budget of the computer player.
#[derive(Debug, Clone)]
pub struct Board {
    pub cells: Vec<Piece>,
    pub goats_in_hand: u32,
    pub captured_goats: u32,
    pub selected_position: Option<usize>,
    pub move_history: Vec<Move>,
    pub ai_time_limit_ms: u64,
}

impl View for Board {
    type V = GameState;

    open spec fn view(&self) -> GameState {
        GameState {
            cells: self.cells@,
            hand: self.goats_in_hand as nat,
            captured: self.captured_goats as nat,
            hist: self.move_history@,
        }
    }
}

impl Board {
    /// A fresh game: tigers at the four corners, twenty goats in hand,
    /// nothing captured, empty history, a two-second search budget.
    pub fn new() -> (b: Board)
        ensures
            wf(b@),
            b@.cells.len() == 25,
            b@.cells[0] == Piece::Tiger,
            b@.cells[4] == Piece::Tiger,
            b@.cells[20] == Piece::Tiger,
            b@.cells[24] == Piece::Tiger,
            forall|i: int|
                0 <= i < 25 && i != 0 && i != 4 && i != 20 && i != 24 ==> b@.cells[i] == Piece::Empty,
            b@.hand == 20,
            b@.captured == 0,
            b@.hist.len() == 0,
            b.selected_position is None,
            b.ai_time_limit_ms == 2000,
    {
        let mut cells: Vec<Piece> = Vec::new();
        let mut i: usize = 0;
        while i < 25
            invariant
                i <= 25,
                cells@.len() == i as int,
                forall|j: int| 0 <= j < i ==> cells@[j] == Piece::Empty,
                count_piece(cells@, Piece::Tiger) == 0,
                count_piece(cells@, Piece::Goat) == 0,
            decreases 25 - i,
        {
            proof {
                lemma_count_push(cells@, Piece::Tiger, Piece::Empty);
                lemma_count_push(cells@, Piece::Goat, Piece::Empty);
            }
            cells.push(Piece::Empty);
            i += 1;
        }
        proof {
            lemma_count_update(cells@, Piece::Tiger, 0, Piece::Tiger);
            lemma_count_update(cells@, Piece::Goat, 0, Piece::Tiger);
        }
        cells[0] = Piece::Tiger;
        proof {
            lemma_count_update(cells@, Piece::Tiger, 4, Piece::Tiger);
            lemma_count_update(cells@, Piece::Goat, 4, Piece::Tiger);
        }
        cells[4] = Piece::Tiger;
        proof {
            lemma_count_update(cells@, Piece::Tiger, 20, Piece::Tiger);
            lemma_count_update(cells@, Piece::Goat, 20, Piece::Tiger);
        }
        cells[20] = Piece::Tiger;
        proof {
            lemma_count_update(cells@, Piece::Tiger, 24, Piece::Tiger);
            lemma_count_update(cells@, Piece::Goat, 24, Piece::Tiger);
        }
        cells[24] = Piece::Tiger;

        Board {
            cells,
            goats_in_hand: 20,
            captured_goats: 0,
            selected_position: None,
            move_history: Vec::new(),
            ai_time_limit_ms: 2000,
        }
    }

    /// Remember `pos` as the selected intersection (a UI hint only);
    /// rejects an out-of-range index.
    pub fn select_position(&mut self, pos: usize) -> (r: bool)
        ensures
            r == (pos < old(self)@.cells.len()),
            r ==> final(self).selected_position == Some(pos),
            !r ==> final(self).selected_position == old(self).selected_position,
            final(self)@ == old(self)@,
            final(self).ai_time_limit_ms == old(self).ai_time_limit_ms,
    {
        if pos >= self.cells.len() {
            return false;
        }
        self.selected_position = Some(pos);
        true
    }

    /// Forget the selected intersection.
    pub fn clear_selection(&mut self)
        ensures
            final(self).selected_position is None,
            final(self)@ == old(self)@,
            final(self).ai_time_limit_ms == old(self).ai_time_limit_ms,
    {
        self.selected_position = None;
    }

    /// Whether there is a move to undo.
    pub fn can_undo(&self) -> (r: bool)
        ensures
            r == (self@.hist.len() > 0),
    {
        self.move_history.len() > 0
    }

    /// Configure the computer player's thinking budget in seconds; only
    /// one through ten seconds are accepted.
    pub fn set_time_limit(&mut self, seconds: u64) -> (r: bool)
        ensures
            r == (1 <= seconds <= 10),
            r ==> final(self).ai_time_limit_ms == seconds * 1000,
            !r ==> final(self).ai_time_limit_ms == old(self).ai_time_limit_ms,
            final(self)@ == old(self)@,
            final(self).selected_position == old(self).selected_position,
    {
        if seconds < 1 || seconds > 10 {
            return false;
        }
        self.ai_time_limit_ms = seconds * 1000;
        true
    }

    /// Place a goat from the hand onto an empty intersection; fails
    /// without mutation if the index is out of range, the cell is
    /// occupied, or no goats are left in hand.
    pub fn place_goat(&mut self, position: usize) -> (r: bool)
        requires
            wf(old(self)@),
        ensures
            wf(final(self)@),
            r == place_enabled(old(self)@, position as int),
            r ==> final(self)@ == place_tr(old(self)@, position as int),
            !r ==> final(self)@ == old(self)@,
            final(self).selected_position == old(self).selected_position,
            final(self).ai_time_limit_ms == old(self).ai_time_limit_ms,
    {
        if position >= self.cells.len()
            || self.cells[position] != Piece::Empty
            || self.goats_in_hand == 0
        {
            return false;
        }

        self.cells[position] = Piece::Goat;
        self.goats_in_hand -= 1;
        self.move_history.push(Move::PlaceGoat { position });
        proof {
            lemma_count_update(old(self)@.cells, Piece::Tiger, position as int, Piece::Goat);
            lemma_count_update(old(self)@.cells, Piece::Goat, position as int, Piece::Goat);
            assert(self@ =~= place_tr(old(self)@, position as int));
            lemma_place_undo(old(self)@, position as int);
        }
        true
    }

    /// The cell a tiger move from `from` to `to` would capture: the
    /// midpoint, whenever the move spans more than one step and a goat
    /// stands there.
    pub fn get_captured_position(&self, from: usize, to: usize) -> (r: Option<usize>)
        requires
            from < 25,
            to < 25,
            self@.cells.len() == 25,
        ensures
            r == captured_spec(self@.cells, from as int, to as int),
    {
        let rf = from / 5;
        let cf = from % 5;
        let rt = to / 5;
        let ct = to % 5;
        let dr = if rt >= rf { rt - rf } else { rf - rt };
        let dc = if ct >= cf { ct - cf } else { cf - ct };
        if dr > 1 || dc > 1 {
            let mid = ((rf + rt) / 2) * 5 + (cf + ct) / 2;
            if self.cells[mid] == Piece::Goat {
                return Some(mid);
            }
        }
        None
    }

    /// Move a tiger, capturing the jumped-over goat on a jump; fails
    /// without mutation unless a tiger stands at `from` and `to` is one
    /// of its legal destinations.
    pub fn move_tiger(&mut self, from: usize, to: usize) -> (r: bool)
        requires
            wf(old(self)@),
        ensures
            wf(final(self)@),
            r == tiger_move_enabled(old(self)@, from as int, to as int),
            r ==> final(self)@ == tiger_tr(old(self)@, from as int, to as int),
            !r ==> final(self)@ == old(self)@,
            final(self).selected_position == old(self).selected_position,
            final(self).ai_time_limit_ms == old(self).ai_time_limit_ms,
    {
        if from >= self.cells.len() || to >= self.cells.len() {
            return false;
        }
        if self.cells[from] != Piece::Tiger {
            return false;
        }
        if self.cells[to] != Piece::Empty {
            return false;
        }
        if !self.is_tiger_dest(from, to) {
            return false;
        }

        proof {
            lemma_tiger_tr_wf(old(self)@, from as int, to as int);
            assert(0 <= mid_pos(from as int, to as int) < 25);
        }
        let captured_position = self.get_captured_position(from, to);
        if let Some(cap) = captured_position {
            self.cells[cap] = Piece::Empty;
            self.captured_goats += 1;
        }
        self.cells[to] = Piece::Tiger;
        self.cells[from] = Piece::Empty;
        self.move_history.push(Move::MoveTiger { from, to, captured_position });
        proof {
            assert(self@ =~= tiger_tr(old(self)@, from as int, to as int));
        }
        true
    }

    /// Move a goat one step; fails without mutation unless a goat stands
    /// at `from` and `to` is one of its legal step destinations.
    pub fn move_goat(&mut self, from: usize, to: usize) -> (r: bool)
        requires
            wf(old(self)@),
        ensures
            wf(final(self)@),
            r == goat_move_enabled(old(self)@, from as int, to as int),
            r ==> final(self)@ == goat_tr(old(self)@, from as int, to as int),
            !r ==> final(self)@ == old(self)@,
            final(self).selected_position == old(self).selected_position,
            final(self).ai_time_limit_ms == old(self).ai_time_limit_ms,
    {
        if from >= self.cells.len() || to >= self.cells.len() {
            return false;
        }
        if self.cells[from] != Piece::Goat {
            return false;
        }
        if self.cells[to] != Piece::Empty {
            return false;
        }
        if !self.is_step_dest(from, to) {
            return false;
        }

        proof {
            lemma_goat_tr_wf(old(self)@, from as int, to as int);
        }
        self.cells[to] = Piece::Goat;
        self.cells[from] = Piece::Empty;
        self.move_history.push(Move::MoveGoat { from, to });
        proof {
            assert(self@ =~= goat_tr(old(self)@, from as int, to as int));
        }
        true
    }

    /// Undo the newest move, restoring cells, goats in hand and captured
    /// goats exactly and clearing the selection; fails without mutation
    /// when the history is empty.
    pub fn undo(&mut self) -> (r: bool)
        requires
            wf(old(self)@),
        ensures
            wf(final(self)@),
            r == (old(self)@.hist.len() > 0),
            r ==> final(self)@ == undo_tr(old(self)@),
            r ==> final(self).selected_position is None,
            !r ==> final(self)@ == old(self)@,
            !r ==> final(self).selected_position == old(self).selected_position,
            final(self).ai_time_limit_ms == old(self).ai_time_limit_ms,
    {
        let last = match self.move_history.pop() {
            Some(m) => m,
            None => {
                return false;
            },
        };
        proof {
            lemma_undo_wf(old(self)@);
        }
        match last {
            Move::PlaceGoat { position } => {
                proof {
                    lemma_count_pos(old(self)@.cells, Piece::Goat, position as int);
                }
                self.cells[position] = Piece::Empty;
                self.goats_in_hand += 1;
            },
            Move::MoveGoat { from, to } => {
                self.cells[from] = Piece::Goat;
                self.cells[to] = Piece::Empty;
            },
            Move::MoveTiger { from, to, captured_position } => {
                self.cells[from] = Piece::Tiger;
                self.cells[to] = Piece::Empty;
                if let Some(cap) = captured_position {
                    self.cells[cap] = Piece::Goat;
                    self.captured_goats -= 1;
                }
            },
        }
        self.selected_position = None;
        proof {
            assert(self@ =~= undo_tr(old(self)@));
        }
        true
    }

    /// The winner of the current position: tigers on five captures,
    /// checked first; goats when every tiger is immobilized; otherwise
    /// the game is undecided.
    pub fn get_winner(&self) -> (w: Winner)
        requires
            self@.cells.len() == 25,
        ensures
            w == winner_of(self@),
    {
        if self.captured_goats >= 5 {
            return Winner::Tigers;
        }

        let mut f: usize = 0;
        while f < 25
            invariant
                f <= 25,
                self@.cells.len() == 25,
                self@.captured < 5,
                forall|g: int, t: int|
                    0 <= g < f && self@.cells[g] == Piece::Tiger
                        ==> !#[trigger] tiger_dest_ok(self@.cells, g, t),
            decreases 25 - f,
        {
            if self.cells[f] == Piece::Tiger {
                let dests = self.get_valid_tiger_moves(f);
                proof {
                    lemma_tiger_dests_membership(self@.cells, f as int);
                }
                if dests.len() > 0 {
                    proof {
                        assert(dests@.contains(dests@[0]));
                        assert(!tigers_trapped(self@.cells));
                    }
                    return Winner::Undecided;
                }
                proof {
                    assert forall|t: int| !#[trigger] tiger_dest_ok(self@.cells, f as int, t) by {
                        if tiger_dest_ok(self@.cells, f as int, t) {
                            assert(dests@.contains(Position(t as usize)));
                        }
                    }
                }
            }
            f += 1;
        }
        proof {
            assert(tigers_trapped(self@.cells));
        }
        Winner::Goats
    }

    /// Whether the game has been decided.
    pub fn is_game_over(&self) -> (r: bool)
        requires
            self@.cells.len() == 25,
        ensures
            r == (winner_of(self@) != Winner::Undecided),
    {
        self.get_winner() != Winner::Undecided
    }
}

} // verus!
