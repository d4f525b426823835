//! The adversarial search engine: time-bounded iterative-deepening
//! minimax with alpha-beta pruning.
//!
//! Search explores candidates by mutating the board in place and
//! restoring it afterwards, through a narrow provisional apply/revert
//! pair per move kind, each proved to leave the state exactly as found.
//! The wall clock is read through trusted wrappers; nothing is assumed
//! about its values, so every contract here holds whatever the clock
//! returns.

use vstd::prelude::*;

use std::time::Instant;

use crate::board::Board;
use crate::eval::eval_spec;
use crate::game::{
    goat_move_enabled, goat_tr, lemma_captured_spec_cases, lemma_count_update,
    lemma_jump_mid_distinct, lemma_step_distinct, mid_pos, place_enabled, place_tr,
    tiger_can_jump, tiger_move_enabled, tiger_tr, wf, wf_counts, winner_of, GameState,
    Piece, Winner,
};
use crate::movegen::{
    all_tiger_pairs, goat_choices, lemma_all_goat_move_pairs_membership,
    lemma_all_tiger_pairs_membership, lemma_placements_membership,
};

verus! {

/// How deep the iterative deepening may go.  Bounding the lookahead keeps
/// the chosen move reproducible across machine speeds; on slower machines
/// the clock cuts the search earlier anyway.
pub const MAX_SEARCH_DEPTH: u32 = 5;

/// The position a provisionally applied tiger move reaches: the move's
/// effect on the board, with no history entry recorded.
pub open spec fn provisional_tiger_state(s: GameState, from: int, to: int) -> GameState {
    GameState { hist: s.hist, ..tiger_tr(s, from, to) }
}

/// The position a provisionally placed goat reaches.
pub open spec fn provisional_place_state(s: GameState, pos: int) -> GameState {
    GameState { hist: s.hist, ..place_tr(s, pos) }
}

/// The position a provisionally stepped goat reaches.
pub open spec fn provisional_goat_state(s: GameState, from: int, to: int) -> GameState {
    GameState { hist: s.hist, ..goat_tr(s, from, to) }
}

/// Declares `std::time::Instant` to the verifier as an opaque type; its
/// values are only created and read through the two wrappers below.
#[verifier::external_type_specification]
#[verifier::external_body]
pub struct ExInstant(Instant);

/// Relies on `std::time::Instant::now`: an opaque reading of a monotonic
/// clock, used only as the starting point of elapsed-time queries.
#[verifier::external_body]
fn instant_now() -> Instant {
    Instant::now()
}

/// Relies on `std::time::Instant::elapsed` and `Duration::as_millis`:
/// the wall-clock milliseconds since `start` was taken.  The value
/// depends on the clock, so nothing is promised of it.
#[verifier::external_body]
fn elapsed_millis(start: &Instant) -> u64 {
    start.elapsed().as_millis() as u64
}

impl Board {
    /// Provisionally make a tiger move, score the resulting position for
    /// the opponent, and revert the move; the board is left exactly as
    /// it was found.
    fn score_tiger_candidate(
        &mut self,
        from: usize,
        to: usize,
        depth: u32,
        alpha: i32,
        beta: i32,
        start: &Instant,
        limit_ms: u64,
    ) -> (score: i32)
        requires
            wf_counts(old(self)@),
            tiger_move_enabled(old(self)@, from as int, to as int),
        ensures
            final(self)@ == old(self)@,
            final(self).selected_position == old(self).selected_position,
            final(self).ai_time_limit_ms == old(self).ai_time_limit_ms,
            (depth == 0
                || winner_of(provisional_tiger_state(old(self)@, from as int, to as int))
                    != Winner::Undecided)
                ==> score == eval_spec(provisional_tiger_state(old(self)@, from as int, to as int)),
        decreases depth, 1int,
    {
        proof {
            lemma_captured_spec_cases(old(self)@.cells, from as int, to as int);
            assert(0 <= mid_pos(from as int, to as int) < 25);
            if tiger_can_jump(old(self)@.cells, from as int, to as int) {
                lemma_jump_mid_distinct(from as int, to as int);
            } else {
                lemma_step_distinct(from as int, to as int);
            }
        }
        let captured_pos = self.get_captured_position(from, to);
        let original_from = self.cells[from];
        let original_to = self.cells[to];
        let mut original_captured: Option<(usize, Piece)> = None;
        if let Some(cp) = captured_pos {
            original_captured = Some((cp, self.cells[cp]));
            proof {
                lemma_count_update(self@.cells, Piece::Tiger, cp as int, Piece::Empty);
                lemma_count_update(self@.cells, Piece::Goat, cp as int, Piece::Empty);
            }
            self.cells[cp] = Piece::Empty;
            self.captured_goats += 1;
        }
        proof {
            lemma_count_update(self@.cells, Piece::Tiger, from as int, Piece::Empty);
            lemma_count_update(self@.cells, Piece::Goat, from as int, Piece::Empty);
        }
        self.cells[from] = Piece::Empty;
        proof {
            lemma_count_update(self@.cells, Piece::Tiger, to as int, Piece::Tiger);
            lemma_count_update(self@.cells, Piece::Goat, to as int, Piece::Tiger);
        }
        self.cells[to] = Piece::Tiger;
        proof {
            assert(self@ =~= provisional_tiger_state(old(self)@, from as int, to as int));
        }

        let score = self.minimax(depth, alpha, beta, false, start, limit_ms);

        self.cells[from] = original_from;
        self.cells[to] = original_to;
        if let Some((cp, piece)) = original_captured {
            self.cells[cp] = piece;
            self.captured_goats -= 1;
        }
        proof {
            assert(self@.cells =~= old(self)@.cells);
            assert(self@ =~= old(self)@);
        }
        score
    }

    /// Provisionally place a goat, score the resulting position for the
    /// opponent, and revert the placement.
    fn score_goat_place_candidate(
        &mut self,
        pos: usize,
        depth: u32,
        alpha: i32,
        beta: i32,
        start: &Instant,
        limit_ms: u64,
    ) -> (score: i32)
        requires
            wf_counts(old(self)@),
            place_enabled(old(self)@, pos as int),
        ensures
            final(self)@ == old(self)@,
            final(self).selected_position == old(self).selected_position,
            final(self).ai_time_limit_ms == old(self).ai_time_limit_ms,
            (depth == 0
                || winner_of(provisional_place_state(old(self)@, pos as int)) != Winner::Undecided)
                ==> score == eval_spec(provisional_place_state(old(self)@, pos as int)),
        decreases depth, 1int,
    {
        proof {
            lemma_count_update(self@.cells, Piece::Tiger, pos as int, Piece::Goat);
            lemma_count_update(self@.cells, Piece::Goat, pos as int, Piece::Goat);
        }
        self.cells[pos] = Piece::Goat;
        self.goats_in_hand -= 1;
        proof {
            assert(self@ =~= provisional_place_state(old(self)@, pos as int));
        }

        let score = self.minimax(depth, alpha, beta, true, start, limit_ms);

        self.cells[pos] = Piece::Empty;
        self.goats_in_hand += 1;
        proof {
            assert(self@.cells =~= old(self)@.cells);
            assert(self@ =~= old(self)@);
        }
        score
    }

    /// Provisionally step a goat, score the resulting position for the
    /// opponent, and revert the step.
    fn score_goat_move_candidate(
        &mut self,
        from: usize,
        to: usize,
        depth: u32,
        alpha: i32,
        beta: i32,
        start: &Instant,
        limit_ms: u64,
    ) -> (score: i32)
        requires
            wf_counts(old(self)@),
            goat_move_enabled(old(self)@, from as int, to as int),
        ensures
            final(self)@ == old(self)@,
            final(self).selected_position == old(self).selected_position,
            final(self).ai_time_limit_ms == old(self).ai_time_limit_ms,
            (depth == 0
                || winner_of(provisional_goat_state(old(self)@, from as int, to as int))
                    != Winner::Undecided)
                ==> score == eval_spec(provisional_goat_state(old(self)@, from as int, to as int)),
        decreases depth, 1int,
    {
        proof {
            lemma_step_distinct(from as int, to as int);
        }
        let original_from = self.cells[from];
        let original_to = self.cells[to];
        proof {
            lemma_count_update(self@.cells, Piece::Tiger, from as int, Piece::Empty);
            lemma_count_update(self@.cells, Piece::Goat, from as int, Piece::Empty);
        }
        self.cells[from] = Piece::Empty;
        proof {
            lemma_count_update(self@.cells, Piece::Tiger, to as int, Piece::Goat);
            lemma_count_update(self@.cells, Piece::Goat, to as int, Piece::Goat);
        }
        self.cells[to] = Piece::Goat;
        proof {
            assert(self@ =~= provisional_goat_state(old(self)@, from as int, to as int));
        }

        let score = self.minimax(depth, alpha, beta, true, start, limit_ms);

        self.cells[from] = original_from;
        self.cells[to] = original_to;
        proof {
            assert(self@.cells =~= old(self)@.cells);
            assert(self@ =~= old(self)@);
        }
        score
    }

    /// Depth-bounded minimax with alpha-beta pruning: the tiger side
    /// maximizes the evaluation, the goat side minimizes it.  Leaves are
    /// depth zero, decided games, and budget exhaustion.  Whatever the
    /// clock returns, the board is left exactly as it was found.
    fn minimax(
        &mut self,
        depth: u32,
        alpha: i32,
        beta: i32,
        is_maximizing: bool,
        start: &Instant,
        limit_ms: u64,
    ) -> (score: i32)
        requires
            wf_counts(old(self)@),
        ensures
            final(self)@ == old(self)@,
            final(self).selected_position == old(self).selected_position,
            final(self).ai_time_limit_ms == old(self).ai_time_limit_ms,
            (depth == 0 || winner_of(old(self)@) != Winner::Undecided)
                ==> score == eval_spec(old(self)@),
        decreases depth, 0int,
    {
        if elapsed_millis(start) >= limit_ms {
            return self.evaluate_position();
        }
        if depth == 0 || self.is_game_over() {
            return self.evaluate_position();
        }

        let ghost orig = self@;
        let ghost osel = self.selected_position;
        let ghost olim = self.ai_time_limit_ms;

        if is_maximizing {
            let moves = self.get_all_valid_tiger_moves();
            let mut max_eval = i32::MIN;
            let mut al = alpha;
            let mut cut = false;
            let mut i: usize = 0;
            while i < moves.len() && !cut
                invariant
                    i <= moves.len(),
                    depth >= 1,
                    wf_counts(orig),
                    self@ == orig,
                    self.selected_position == osel,
                    self.ai_time_limit_ms == olim,
                    moves@ == all_tiger_pairs(orig.cells),
                decreases moves.len() - i,
            {
                let mv = moves[i];
                proof {
                    lemma_all_tiger_pairs_membership(orig.cells);
                    assert(moves@.contains(moves@[i as int]));
                }
                let ev = self.score_tiger_candidate(
                    mv.0, mv.1, depth - 1, al, beta, start, limit_ms);
                if ev > max_eval {
                    max_eval = ev;
                }
                if ev > al {
                    al = ev;
                }
                if beta <= al {
                    cut = true;
                }
                i += 1;
            }
            max_eval
        } else {
            let moves = self.get_all_valid_goat_moves();
            let mut min_eval = i32::MAX;
            let mut be = beta;
            let mut cut = false;
            let mut i: usize = 0;
            while i < moves.len() && !cut
                invariant
                    i <= moves.len(),
                    depth >= 1,
                    wf_counts(orig),
                    self@ == orig,
                    self.selected_position == osel,
                    self.ai_time_limit_ms == olim,
                    moves@ == goat_choices(orig),
                decreases moves.len() - i,
            {
                let mv = moves[i];
                proof {
                    if orig.hand > 0 {
                        lemma_placements_membership(orig.cells);
                    } else {
                        lemma_all_goat_move_pairs_membership(orig.cells);
                    }
                    assert(moves@.contains(moves@[i as int]));
                    if orig.hand == 0 {
                        lemma_step_distinct(mv.0 as int, mv.1 as int);
                    }
                }
                let ev = if mv.0 == mv.1 {
                    self.score_goat_place_candidate(mv.1, depth - 1, alpha, be, start, limit_ms)
                } else {
                    self.score_goat_move_candidate(
                        mv.0, mv.1, depth - 1, alpha, be, start, limit_ms)
                };
                if ev < min_eval {
                    min_eval = ev;
                }
                if ev < be {
                    be = ev;
                }
                if be <= alpha {
                    cut = true;
                }
                i += 1;
            }
            min_eval
        }
    }

    /// Choose and apply a move for the tiger side: a full depth-one pass
    /// always completes, then the search deepens while the budget lasts,
    /// keeping the last fully-searched depth's choice; within a depth the
    /// previous choice is kept unless a candidate beats it outright.
    /// Fails, without mutation, exactly when the tigers have no legal
    /// move.
    pub fn ai_move_tiger(&mut self) -> (r: bool)
        requires
            wf(old(self)@),
        ensures
            wf(final(self)@),
            r == (all_tiger_pairs(old(self)@.cells).len() > 0),
            r ==> exists|from: usize, to: usize|
                tiger_move_enabled(old(self)@, from as int, to as int)
                && final(self)@ == tiger_tr(old(self)@, from as int, to as int),
            !r ==> final(self)@ == old(self)@,
            final(self).selected_position == old(self).selected_position,
            final(self).ai_time_limit_ms == old(self).ai_time_limit_ms,
    {
        let moves = self.get_all_valid_tiger_moves();
        if moves.len() == 0 {
            return false;
        }
        proof {
            lemma_all_tiger_pairs_membership(self@.cells);
            assert(moves@.contains(moves@[0]));
        }

        let ghost orig = self@;
        let ghost osel = self.selected_position;
        let ghost olim = self.ai_time_limit_ms;
        let start = instant_now();
        let limit_ms = self.ai_time_limit_ms;

        // Depth-one pass, no time checks: a choice always exists.
        let mut best_from = moves[0].0;
        let mut best_to = moves[0].1;
        let mut best_score = i32::MIN;
        let mut first = true;
        let mut i: usize = 0;
        while i < moves.len()
            invariant
                i <= moves.len(),
                wf(orig),
                self@ == orig,
                self.selected_position == osel,
                self.ai_time_limit_ms == olim,
                moves@ == all_tiger_pairs(orig.cells),
                tiger_move_enabled(orig, best_from as int, best_to as int),
            decreases moves.len() - i,
        {
            let mv = moves[i];
            proof {
                lemma_all_tiger_pairs_membership(orig.cells);
                assert(moves@.contains(moves@[i as int]));
            }
            let sc = self.score_tiger_candidate(
                mv.0, mv.1, 0, i32::MIN, i32::MAX, &start, limit_ms);
            if first || sc > best_score {
                best_score = sc;
                best_from = mv.0;
                best_to = mv.1;
                first = false;
            }
            i += 1;
        }

        // Iterative deepening: a depth counts only if fully searched.
        let mut depth: u32 = 2;
        let mut keep_going = true;
        while depth <= MAX_SEARCH_DEPTH && keep_going
            invariant
                2 <= depth <= MAX_SEARCH_DEPTH + 1,
                wf(orig),
                self@ == orig,
                self.selected_position == osel,
                self.ai_time_limit_ms == olim,
                moves@ == all_tiger_pairs(orig.cells),
                tiger_move_enabled(orig, best_from as int, best_to as int),
            decreases MAX_SEARCH_DEPTH + 1 - depth + (if keep_going { 1int } else { 0int }),
        {
            if elapsed_millis(&start) >= limit_ms {
                keep_going = false;
            } else {
                let mut d_from = best_from;
                let mut d_to = best_to;
                let mut d_score = i32::MIN;
                let mut d_first = true;
                let mut complete = true;
                let mut j: usize = 0;
                while j < moves.len() && complete
                    invariant
                        j <= moves.len(),
                        2 <= depth <= MAX_SEARCH_DEPTH,
                        wf(orig),
                        self@ == orig,
                        self.selected_position == osel,
                        self.ai_time_limit_ms == olim,
                        moves@ == all_tiger_pairs(orig.cells),
                        tiger_move_enabled(orig, d_from as int, d_to as int),
                    decreases moves.len() - j + (if complete { 1int } else { 0int }),
                {
                    if elapsed_millis(&start) >= limit_ms {
                        complete = false;
                    } else {
                        let mv = moves[j];
                        proof {
                            lemma_all_tiger_pairs_membership(orig.cells);
                            assert(moves@.contains(moves@[j as int]));
                        }
                        let sc = self.score_tiger_candidate(
                            mv.0, mv.1, depth - 1, i32::MIN, i32::MAX, &start, limit_ms);
                        if d_first || sc > d_score
                            || (sc == d_score && mv.0 == best_from && mv.1 == best_to) {
                            d_score = sc;
                            d_from = mv.0;
                            d_to = mv.1;
                            d_first = false;
                        }
                        j += 1;
                    }
                }
                if complete {
                    best_from = d_from;
                    best_to = d_to;
                    best_score = d_score;
                    depth += 1;
                } else {
                    keep_going = false;
                }
            }
        }

        let ok = self.move_tiger(best_from, best_to);
        proof {
            assert(tiger_move_enabled(orig, best_from as int, best_to as int)
                && self@ == tiger_tr(orig, best_from as int, best_to as int));
        }
        ok
    }

    /// Choose and apply a move for the goat side: a placement while
    /// goats remain in hand, a step otherwise, searched like the tiger
    /// side but minimizing.  Fails, without mutation, exactly when the
    /// goat side has no legal choice.
    pub fn ai_move_goat(&mut self) -> (r: bool)
        requires
            wf(old(self)@),
        ensures
            wf(final(self)@),
            r == (goat_choices(old(self)@).len() > 0),
            r && old(self)@.hand > 0 ==> exists|p: usize|
                place_enabled(old(self)@, p as int)
                && final(self)@ == place_tr(old(self)@, p as int),
            r && old(self)@.hand == 0 ==> exists|from: usize, to: usize|
                goat_move_enabled(old(self)@, from as int, to as int)
                && final(self)@ == goat_tr(old(self)@, from as int, to as int),
            !r ==> final(self)@ == old(self)@,
            final(self).selected_position == old(self).selected_position,
            final(self).ai_time_limit_ms == old(self).ai_time_limit_ms,
    {
        let moves = self.get_all_valid_goat_moves();
        if moves.len() == 0 {
            return false;
        }
        proof {
            if self@.hand > 0 {
                lemma_placements_membership(self@.cells);
            } else {
                lemma_all_goat_move_pairs_membership(self@.cells);
            }
            assert(moves@.contains(moves@[0]));
            if self@.hand == 0 {
                lemma_step_distinct(moves@[0].0 as int, moves@[0].1 as int);
            }
        }

        let ghost orig = self@;
        let ghost osel = self.selected_position;
        let ghost olim = self.ai_time_limit_ms;
        let start = instant_now();
        let limit_ms = self.ai_time_limit_ms;

        // Depth-one pass, no time checks: a choice always exists.
        let mut best_from = moves[0].0;
        let mut best_to = moves[0].1;
        let mut best_score = i32::MAX;
        let mut first = true;
        let mut i: usize = 0;
        while i < moves.len()
            invariant
                i <= moves.len(),
                wf(orig),
                self@ == orig,
                self.selected_position == osel,
                self.ai_time_limit_ms == olim,
                moves@ == goat_choices(orig),
                if orig.hand > 0 {
                    best_from == best_to && place_enabled(orig, best_from as int)
                } else {
                    best_from != best_to
                    && goat_move_enabled(orig, best_from as int, best_to as int)
                },
            decreases moves.len() - i,
        {
            let mv = moves[i];
            proof {
                if orig.hand > 0 {
                    lemma_placements_membership(orig.cells);
                } else {
                    lemma_all_goat_move_pairs_membership(orig.cells);
                }
                assert(moves@.contains(moves@[i as int]));
                if orig.hand == 0 {
                    lemma_step_distinct(mv.0 as int, mv.1 as int);
                }
            }
            let sc = if mv.0 == mv.1 {
                self.score_goat_place_candidate(mv.1, 0, i32::MIN, i32::MAX, &start, limit_ms)
            } else {
                self.score_goat_move_candidate(
                    mv.0, mv.1, 0, i32::MIN, i32::MAX, &start, limit_ms)
            };
            if first || sc < best_score {
                best_score = sc;
                best_from = mv.0;
                best_to = mv.1;
                first = false;
            }
            i += 1;
        }

        // Iterative deepening: a depth counts only if fully searched.
        let mut depth: u32 = 2;
        let mut keep_going = true;
        while depth <= MAX_SEARCH_DEPTH && keep_going
            invariant
                2 <= depth <= MAX_SEARCH_DEPTH + 1,
                wf(orig),
                self@ == orig,
                self.selected_position == osel,
                self.ai_time_limit_ms == olim,
                moves@ == goat_choices(orig),
                if orig.hand > 0 {
                    best_from == best_to && place_enabled(orig, best_from as int)
                } else {
                    best_from != best_to
                    && goat_move_enabled(orig, best_from as int, best_to as int)
                },
            decreases MAX_SEARCH_DEPTH + 1 - depth + (if keep_going { 1int } else { 0int }),
        {
            if elapsed_millis(&start) >= limit_ms {
                keep_going = false;
            } else {
                let mut d_from = best_from;
                let mut d_to = best_to;
                let mut d_score = i32::MAX;
                let mut d_first = true;
                let mut complete = true;
                let mut j: usize = 0;
                while j < moves.len() && complete
                    invariant
                        j <= moves.len(),
                        2 <= depth <= MAX_SEARCH_DEPTH,
                        wf(orig),
                        self@ == orig,
                        self.selected_position == osel,
                        self.ai_time_limit_ms == olim,
                        moves@ == goat_choices(orig),
                        if orig.hand > 0 {
                            d_from == d_to && place_enabled(orig, d_from as int)
                        } else {
                            d_from != d_to
                            && goat_move_enabled(orig, d_from as int, d_to as int)
                        },
                    decreases moves.len() - j + (if complete { 1int } else { 0int }),
                {
                    if elapsed_millis(&start) >= limit_ms {
                        complete = false;
                    } else {
                        let mv = moves[j];
                        proof {
                            if orig.hand > 0 {
                                lemma_placements_membership(orig.cells);
                            } else {
                                lemma_all_goat_move_pairs_membership(orig.cells);
                            }
                            assert(moves@.contains(moves@[j as int]));
                            if orig.hand == 0 {
                                lemma_step_distinct(mv.0 as int, mv.1 as int);
                            }
                        }
                        let sc = if mv.0 == mv.1 {
                            self.score_goat_place_candidate(
                                mv.1, depth - 1, i32::MIN, i32::MAX, &start, limit_ms)
                        } else {
                            self.score_goat_move_candidate(
                                mv.0, mv.1, depth - 1, i32::MIN, i32::MAX, &start, limit_ms)
                        };
                        if d_first || sc < d_score
                            || (sc == d_score && mv.0 == best_from && mv.1 == best_to) {
                            d_score = sc;
                            d_from = mv.0;
                            d_to = mv.1;
                            d_first = false;
                        }
                        j += 1;
                    }
                }
                if complete {
                    best_from = d_from;
                    best_to = d_to;
                    best_score = d_score;
                    depth += 1;
                } else {
                    keep_going = false;
                }
            }
        }

        let ok = if best_from == best_to {
            self.place_goat(best_from)
        } else {
            self.move_goat(best_from, best_to)
        };
        proof {
            if orig.hand > 0 {
                assert(place_enabled(orig, best_from as int)
                    && self@ == place_tr(orig, best_from as int));
            } else {
                assert(goat_move_enabled(orig, best_from as int, best_to as int)
                    && self@ == goat_tr(orig, best_from as int, best_to as int));
            }
        }
        ok
    }
}

} // verus!
