//! The laws of the engine, stated and proved over the abstract model:
//! conservation of pieces across every rule transition, undo as an exact
//! inverse, the diagonal restriction, and win precedence.

use vstd::prelude::*;

use crate::game::{
    goat_move_enabled, goat_tr, lemma_goat_tr_wf, lemma_goat_undo, lemma_place_tr_wf,
    lemma_place_undo, lemma_tiger_tr_wf, lemma_tiger_undo, lemma_undo_wf, place_enabled,
    place_tr, step_dest_ok, tiger_dest_ok, tiger_move_enabled, tiger_tr, tigers_trapped,
    undo_tr, wf, winner_of, GameState, Piece, Position, Winner,
};
use crate::movegen::{
    goat_dests, lemma_goat_dests_membership, lemma_tiger_dests_membership, tiger_dests,
};

verus! {

/// Law: every rule transition, applied when it is enabled, preserves the
/// state invariant — exactly four tigers on the board, and the goats on
/// the board, captured and in hand always adding up to twenty.
pub proof fn lemma_rules_preserve_invariant(s: GameState, a: int, b: int)
    ensures
        wf(s) && place_enabled(s, a) ==> wf(place_tr(s, a)),
        wf(s) && goat_move_enabled(s, a, b) ==> wf(goat_tr(s, a, b)),
        wf(s) && tiger_move_enabled(s, a, b) ==> wf(tiger_tr(s, a, b)),
        wf(s) && s.hist.len() > 0 ==> wf(undo_tr(s)),
{
    if wf(s) && place_enabled(s, a) {
        lemma_place_tr_wf(s, a);
    }
    if wf(s) && goat_move_enabled(s, a, b) {
        lemma_goat_tr_wf(s, a, b);
    }
    if wf(s) && tiger_move_enabled(s, a, b) {
        lemma_tiger_tr_wf(s, a, b);
    }
    if wf(s) && s.hist.len() > 0 {
        lemma_undo_wf(s);
    }
}

/// Law: any enabled mutation followed by one undo restores the cells,
/// the goats in hand, the captured count and the history exactly.
pub proof fn lemma_round_trip(s: GameState, a: int, b: int)
    requires
        s.cells.len() == 25,
    ensures
        place_enabled(s, a) ==> undo_tr(place_tr(s, a)) == s,
        goat_move_enabled(s, a, b) ==> undo_tr(goat_tr(s, a, b)) == s,
        tiger_move_enabled(s, a, b) ==> undo_tr(tiger_tr(s, a, b)) == s,
{
    if place_enabled(s, a) {
        lemma_place_undo(s, a);
    }
    if goat_move_enabled(s, a, b) {
        lemma_goat_undo(s, a, b);
    }
    if tiger_move_enabled(s, a, b) {
        lemma_tiger_undo(s, a, b);
    }
}

/// Law: intersection 7 carries no diagonals, so none of its diagonal
/// neighbors (1, 3, 11, 13) is ever a legal destination from it — not
/// for a tiger, not for a goat, on any board — and the generators never
/// produce them.
pub proof fn lemma_diagonal_restriction(c: Seq<Piece>, to: int)
    requires
        to == 1 || to == 3 || to == 11 || to == 13,
    ensures
        !tiger_dest_ok(c, 7, to),
        !step_dest_ok(c, 7, to),
        !tiger_dests(c, 7).contains(Position(to as usize)),
        !goat_dests(c, 7).contains(Position(to as usize)),
{
    lemma_tiger_dests_membership(c, 7);
    lemma_goat_dests_membership(c, 7);
}

/// Law: five captured goats decide the game for the tigers whatever the
/// tigers' mobility; with fewer than five captures, fully immobilized
/// tigers decide it for the goats.
pub proof fn lemma_win_precedence(s: GameState)
    ensures
        s.captured >= 5 ==> winner_of(s) == Winner::Tigers,
        s.captured < 5 && tigers_trapped(s.cells) ==> winner_of(s) == Winner::Goats,
        s.captured < 5 && !tigers_trapped(s.cells) ==> winner_of(s) == Winner::Undecided,
{
}

} // verus!
