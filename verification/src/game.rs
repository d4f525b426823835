//! Core data types of the game and the mathematical model of its rules:
//! board geometry, move legality, state transitions and their inverses,
//! and the well-formedness invariant that every reachable state satisfies.

use vstd::prelude::*;

verus! {

/// The contents of one intersection of the board.
#[derive(Debug, Clone, Copy, PartialEq, Eq, Structural)]
pub enum Piece {
    Tiger,
    Goat,
    Empty,
}

/// An intersection index in `0..25`; row is `idx / 5`, column is `idx % 5`.
#[derive(Debug, Clone, Copy, PartialEq, Eq, Structural)]
pub struct Position(pub usize);

/// The outcome of a finished game, or `Undecided` while it is running.
#[derive(Debug, Clone, Copy, PartialEq, Eq, Structural)]
pub enum Winner {
    Tigers,
    Goats,
    Undecided,
}

/// One reversible history entry: enough to exactly invert its mutation.
#[derive(Debug, Clone, Copy)]
pub enum Move {
    PlaceGoat { position: usize },
    MoveGoat { from: usize, to: usize },
    MoveTiger { from: usize, to: usize, captured_position: Option<usize> },
}

/// Who controls a side.
#[derive(Debug, Clone, Copy, PartialEq, Eq, Structural)]
pub enum Player {
    Human,
    AI,
}

/// The abstract game state: what the contracts of the engine speak about.
/// The UI selection hint and the search time budget are deliberately not
/// part of it; they have no effect on the rules.
#[verifier::ext_equal]
pub ghost struct GameState {
    pub cells: Seq<Piece>,
    pub hand: nat,
    pub captured: nat,
    pub hist: Seq<Move>,
}

// ---------------------------------------------------------------------------
// Geometry
// ---------------------------------------------------------------------------

pub open spec fn valid_pos(p: int) -> bool {
    0 <= p < 25
}

pub open spec fn row_of(p: int) -> int {
    p / 5
}

pub open spec fn col_of(p: int) -> int {
    p % 5
}

/// Absolute difference.
pub open spec fn dist(a: int, b: int) -> int {
    if a >= b { a - b } else { b - a }
}

/// The fixed set of intersections where diagonal edges exist: exactly the
/// even indices of the grid (corners, edge midpoints, center and the
/// center's diagonal ring).
pub open spec fn diag_ok(p: int) -> bool {
    valid_pos(p) && p % 2 == 0
}

/// One step along a grid line (up, down, left or right).
pub open spec fn orth_step(a: int, b: int) -> bool {
    valid_pos(a) && valid_pos(b)
    && (row_of(a) == row_of(b) && dist(col_of(a), col_of(b)) == 1
        || col_of(a) == col_of(b) && dist(row_of(a), row_of(b)) == 1)
}

/// One step along a diagonal edge; both endpoints must carry diagonals.
pub open spec fn diag_step(a: int, b: int) -> bool {
    valid_pos(a) && valid_pos(b)
    && dist(row_of(a), row_of(b)) == 1 && dist(col_of(a), col_of(b)) == 1
    && diag_ok(a) && diag_ok(b)
}

/// Any legal single step from `a` to `b`.
pub open spec fn step_ok(a: int, b: int) -> bool {
    orth_step(a, b) || diag_step(a, b)
}

/// The intersection halfway between `a` and `b` (meaningful for jumps,
/// where both coordinate sums are even).
pub open spec fn mid_pos(a: int, b: int) -> int {
    ((row_of(a) + row_of(b)) / 2) * 5 + (col_of(a) + col_of(b)) / 2
}

/// A two-cell jump along a grid line.
pub open spec fn orth_jump(a: int, b: int) -> bool {
    valid_pos(a) && valid_pos(b)
    && (row_of(a) == row_of(b) && dist(col_of(a), col_of(b)) == 2
        || col_of(a) == col_of(b) && dist(row_of(a), row_of(b)) == 2)
}

/// A two-cell jump along a diagonal; endpoints and midpoint must all
/// carry diagonals.
pub open spec fn diag_jump(a: int, b: int) -> bool {
    valid_pos(a) && valid_pos(b)
    && dist(row_of(a), row_of(b)) == 2 && dist(col_of(a), col_of(b)) == 2
    && diag_ok(a) && diag_ok(b) && diag_ok(mid_pos(a, b))
}

/// Any legal jump shape from `a` to `b`.
pub open spec fn jump_ok(a: int, b: int) -> bool {
    orth_jump(a, b) || diag_jump(a, b)
}

// ---------------------------------------------------------------------------
// Move legality on a board
// ---------------------------------------------------------------------------

/// A step destination: reachable in one step and empty.  This is the whole
/// of goat movement, and the non-capturing half of tiger movement.
pub open spec fn step_dest_ok(c: Seq<Piece>, from: int, to: int) -> bool {
    step_ok(from, to) && c[to] == Piece::Empty
}

/// A capturing jump: a legal jump shape whose midpoint holds a goat and
/// whose destination is empty.
pub open spec fn tiger_can_jump(c: Seq<Piece>, from: int, to: int) -> bool {
    jump_ok(from, to) && c[mid_pos(from, to)] == Piece::Goat && c[to] == Piece::Empty
}

/// Any destination a tiger standing at `from` could move to.
pub open spec fn tiger_dest_ok(c: Seq<Piece>, from: int, to: int) -> bool {
    step_dest_ok(c, from, to) || tiger_can_jump(c, from, to)
}

/// The cell a tiger move from `from` to `to` captures, if any: defined for
/// every pair of valid indices, mirroring the engine's capture query.
pub open spec fn captured_spec(c: Seq<Piece>, from: int, to: int) -> Option<usize> {
    let m = mid_pos(from, to);
    if (dist(row_of(from), row_of(to)) > 1 || dist(col_of(from), col_of(to)) > 1)
        && c[m] == Piece::Goat {
        Some(m as usize)
    } else {
        None
    }
}

// ---------------------------------------------------------------------------
// Enabled moves and transitions
// ---------------------------------------------------------------------------

/// A goat may be placed: in range, on an empty cell, with goats in hand.
pub open spec fn place_enabled(s: GameState, pos: int) -> bool {
    valid_pos(pos) && s.cells[pos] == Piece::Empty && s.hand > 0
}

/// A goat move may be made: a goat stands at `from` and `to` is a legal
/// step destination.
pub open spec fn goat_move_enabled(s: GameState, from: int, to: int) -> bool {
    valid_pos(from) && valid_pos(to)
    && s.cells[from] == Piece::Goat && step_dest_ok(s.cells, from, to)
}

/// A tiger move may be made: a tiger stands at `from` and `to` is a legal
/// tiger destination.
pub open spec fn tiger_move_enabled(s: GameState, from: int, to: int) -> bool {
    valid_pos(from) && valid_pos(to)
    && s.cells[from] == Piece::Tiger && tiger_dest_ok(s.cells, from, to)
}

/// The state after placing a goat at `pos`.
pub open spec fn place_tr(s: GameState, pos: int) -> GameState {
    GameState {
        cells: s.cells.update(pos, Piece::Goat),
        hand: (s.hand - 1) as nat,
        hist: s.hist.push(Move::PlaceGoat { position: pos as usize }),
        ..s
    }
}

/// The state after moving a goat from `from` to `to`.
pub open spec fn goat_tr(s: GameState, from: int, to: int) -> GameState {
    GameState {
        cells: s.cells.update(to, Piece::Goat).update(from, Piece::Empty),
        hist: s.hist.push(Move::MoveGoat { from: from as usize, to: to as usize }),
        ..s
    }
}

/// The state after moving a tiger from `from` to `to`, removing the
/// captured goat if the move is a jump.
pub open spec fn tiger_tr(s: GameState, from: int, to: int) -> GameState {
    let cap = captured_spec(s.cells, from, to);
    let c0 = match cap {
        Option::Some(m) => s.cells.update(m as int, Piece::Empty),
        Option::None => s.cells,
    };
    GameState {
        cells: c0.update(to, Piece::Tiger).update(from, Piece::Empty),
        captured: if cap is Some { s.captured + 1 } else { s.captured },
        hist: s.hist.push(Move::MoveTiger {
            from: from as usize,
            to: to as usize,
            captured_position: cap,
        }),
        ..s
    }
}

/// The state after undoing the last history entry (meaningful when the
/// history is non-empty).
pub open spec fn undo_tr(s: GameState) -> GameState {
    let h = s.hist.drop_last();
    match s.hist.last() {
        Move::PlaceGoat { position } => GameState {
            cells: s.cells.update(position as int, Piece::Empty),
            hand: s.hand + 1,
            hist: h,
            ..s
        },
        Move::MoveGoat { from, to } => GameState {
            cells: s.cells.update(from as int, Piece::Goat).update(to as int, Piece::Empty),
            hist: h,
            ..s
        },
        Move::MoveTiger { from, to, captured_position } => {
            let c0 = s.cells.update(from as int, Piece::Tiger).update(to as int, Piece::Empty);
            match captured_position {
                Option::Some(m) => GameState {
                    cells: c0.update(m as int, Piece::Goat),
                    captured: (s.captured - 1) as nat,
                    hist: h,
                    ..s
                },
                Option::None => GameState { cells: c0, hist: h, ..s },
            }
        },
    }
}

/// What must hold of the newest history entry for `undo_tr` to be an exact
/// inverse that keeps the piece counts intact.
pub open spec fn entry_undoable(s: GameState, m: Move) -> bool {
    match m {
        Move::PlaceGoat { position } => {
            &&& valid_pos(position as int)
            &&& s.cells[position as int] == Piece::Goat
        },
        Move::MoveGoat { from, to } => {
            &&& valid_pos(from as int)
            &&& valid_pos(to as int)
            &&& from != to
            &&& s.cells[from as int] == Piece::Empty
            &&& s.cells[to as int] == Piece::Goat
        },
        Move::MoveTiger { from, to, captured_position } => {
            &&& valid_pos(from as int)
            &&& valid_pos(to as int)
            &&& from != to
            &&& s.cells[from as int] == Piece::Empty
            &&& s.cells[to as int] == Piece::Tiger
            &&& match captured_position {
                Option::Some(m) => {
                    &&& valid_pos(m as int)
                    &&& m != from
                    &&& m != to
                    &&& s.cells[m as int] == Piece::Empty
                    &&& s.captured >= 1
                },
                Option::None => true,
            }
        },
    }
}

/// The whole history is a stack of undoable entries: undoing them one by
/// one stays meaningful all the way down.
pub open spec fn hist_ok(s: GameState) -> bool
    decreases s.hist.len(),
{
    s.hist.len() == 0
    || (entry_undoable(s, s.hist.last()) && hist_ok(undo_tr(s)))
}

// ---------------------------------------------------------------------------
// Counting pieces and the state invariant
// ---------------------------------------------------------------------------

/// How many cells of `c` hold the piece `p`.
pub open spec fn count_piece(c: Seq<Piece>, p: Piece) -> nat
    decreases c.len(),
{
    if c.len() == 0 {
        0
    } else {
        count_piece(c.drop_last(), p) + if c.last() == p { 1nat } else { 0nat }
    }
}

/// The count invariants of the data model: a 25-cell board with exactly
/// four tigers, and every one of the twenty goats accounted for as on the
/// board, captured, or still in hand.
pub open spec fn wf_counts(s: GameState) -> bool {
    &&& s.cells.len() == 25
    &&& count_piece(s.cells, Piece::Tiger) == 4
    &&& count_piece(s.cells, Piece::Goat) + s.captured + s.hand == 20
}

/// Full well-formedness: the counts hold and the history is undoable.
pub open spec fn wf(s: GameState) -> bool {
    wf_counts(s) && hist_ok(s)
}

// ---------------------------------------------------------------------------
// Win detection
// ---------------------------------------------------------------------------

/// No tiger on the board has any legal destination.
pub open spec fn tigers_trapped(c: Seq<Piece>) -> bool {
    forall|f: int, t: int|
        valid_pos(f) && valid_pos(t) && c[f] == Piece::Tiger
            ==> !#[trigger] tiger_dest_ok(c, f, t)
}

/// The winner of a state: tigers win on five captures (checked first,
/// independent of mobility); otherwise goats win exactly when every tiger
/// is immobilized; otherwise the game is undecided.
pub open spec fn winner_of(s: GameState) -> Winner {
    if s.captured >= 5 {
        Winner::Tigers
    } else if tigers_trapped(s.cells) {
        Winner::Goats
    } else {
        Winner::Undecided
    }
}

// ---------------------------------------------------------------------------
// Counting lemmas
// ---------------------------------------------------------------------------

/// Updating one cell changes a piece count by the obvious amount.
pub proof fn lemma_count_update(c: Seq<Piece>, p: Piece, i: int, v: Piece)
    requires
        0 <= i < c.len(),
    ensures
        count_piece(c.update(i, v), p) ==
            count_piece(c, p)
            - (if c[i] == p { 1int } else { 0int })
            + (if v == p { 1int } else { 0int }),
    decreases c.len(),
{
    if i == c.len() - 1 {
        assert(c.update(i, v).drop_last() =~= c.drop_last());
    } else {
        assert(c.update(i, v).drop_last() =~= c.drop_last().update(i, v));
        lemma_count_update(c.drop_last(), p, i, v);
    }
}

// ---------------------------------------------------------------------------
// Geometry lemmas
// ---------------------------------------------------------------------------

/// A step never stays in place.
pub proof fn lemma_step_distinct(from: int, to: int)
    requires
        step_ok(from, to),
    ensures
        from != to,
{
}

/// The midpoint of a jump is a distinct, valid intersection.
pub proof fn lemma_jump_mid_distinct(from: int, to: int)
    requires
        jump_ok(from, to),
    ensures
        valid_pos(mid_pos(from, to)),
        mid_pos(from, to) != from,
        mid_pos(from, to) != to,
        from != to,
{
}

/// For a legal tiger destination, the capture query returns the jump
/// midpoint exactly when the move is a capturing jump.
pub proof fn lemma_captured_spec_cases(c: Seq<Piece>, from: int, to: int)
    requires
        valid_pos(from),
        valid_pos(to),
        tiger_dest_ok(c, from, to),
    ensures
        captured_spec(c, from, to) ==
            (if tiger_can_jump(c, from, to) { Some(mid_pos(from, to) as usize) } else { Option::<usize>::None }),
{
}

// ---------------------------------------------------------------------------
// Undo is an exact inverse
// ---------------------------------------------------------------------------

/// Undoing a just-placed goat restores the state exactly.
pub proof fn lemma_place_undo(s: GameState, pos: int)
    requires
        s.cells.len() == 25,
        place_enabled(s, pos),
    ensures
        undo_tr(place_tr(s, pos)) == s,
{
    let s2 = place_tr(s, pos);
    assert(s2.hist.last() == Move::PlaceGoat { position: pos as usize });
    assert(s2.hist.drop_last() =~= s.hist);
    assert(undo_tr(s2).cells =~= s.cells);
    assert(undo_tr(s2) =~= s);
}

/// Undoing a just-made goat move restores the state exactly.
pub proof fn lemma_goat_undo(s: GameState, from: int, to: int)
    requires
        s.cells.len() == 25,
        goat_move_enabled(s, from, to),
    ensures
        undo_tr(goat_tr(s, from, to)) == s,
{
    lemma_step_distinct(from, to);
    let s2 = goat_tr(s, from, to);
    assert(s2.hist.last() == Move::MoveGoat { from: from as usize, to: to as usize });
    assert(s2.hist.drop_last() =~= s.hist);
    assert(undo_tr(s2).cells =~= s.cells);
    assert(undo_tr(s2) =~= s);
}

/// Undoing a just-made tiger move (capturing or not) restores the state
/// exactly.
pub proof fn lemma_tiger_undo(s: GameState, from: int, to: int)
    requires
        s.cells.len() == 25,
        tiger_move_enabled(s, from, to),
    ensures
        undo_tr(tiger_tr(s, from, to)) == s,
{
    lemma_captured_spec_cases(s.cells, from, to);
    let s2 = tiger_tr(s, from, to);
    assert(s2.hist.drop_last() =~= s.hist);
    if tiger_can_jump(s.cells, from, to) {
        lemma_jump_mid_distinct(from, to);
        assert(undo_tr(s2).cells =~= s.cells);
    } else {
        lemma_step_distinct(from, to);
        assert(undo_tr(s2).cells =~= s.cells);
    }
    assert(undo_tr(s2) =~= s);
}

// ---------------------------------------------------------------------------
// The invariant is preserved
// ---------------------------------------------------------------------------

/// If some cell holds `p`, the count of `p` is positive.
pub proof fn lemma_count_pos(c: Seq<Piece>, p: Piece, i: int)
    requires
        0 <= i < c.len(),
        c[i] == p,
    ensures
        count_piece(c, p) >= 1,
    decreases c.len(),
{
    if i == c.len() - 1 {
    } else {
        lemma_count_pos(c.drop_last(), p, i);
    }
}

/// Placing a goat on an enabled cell preserves well-formedness.
pub proof fn lemma_place_tr_wf(s: GameState, pos: int)
    requires
        wf(s),
        place_enabled(s, pos),
    ensures
        wf(place_tr(s, pos)),
{
    lemma_count_update(s.cells, Piece::Tiger, pos, Piece::Goat);
    lemma_count_update(s.cells, Piece::Goat, pos, Piece::Goat);
    lemma_place_undo(s, pos);
}

/// An enabled goat move preserves well-formedness.
pub proof fn lemma_goat_tr_wf(s: GameState, from: int, to: int)
    requires
        wf(s),
        goat_move_enabled(s, from, to),
    ensures
        wf(goat_tr(s, from, to)),
{
    lemma_step_distinct(from, to);
    let c1 = s.cells.update(to, Piece::Goat);
    lemma_count_update(s.cells, Piece::Tiger, to, Piece::Goat);
    lemma_count_update(s.cells, Piece::Goat, to, Piece::Goat);
    lemma_count_update(c1, Piece::Tiger, from, Piece::Empty);
    lemma_count_update(c1, Piece::Goat, from, Piece::Empty);
    lemma_goat_undo(s, from, to);
}

/// An enabled tiger move preserves well-formedness, and captures exactly
/// on jumps.
pub proof fn lemma_tiger_tr_wf(s: GameState, from: int, to: int)
    requires
        wf(s),
        tiger_move_enabled(s, from, to),
    ensures
        wf(tiger_tr(s, from, to)),
        captured_spec(s.cells, from, to) ==
            (if tiger_can_jump(s.cells, from, to) { Some(mid_pos(from, to) as usize) } else { Option::<usize>::None }),
{
    lemma_captured_spec_cases(s.cells, from, to);
    let cap = captured_spec(s.cells, from, to);
    let c0 = match cap {
        Option::Some(m) => s.cells.update(m as int, Piece::Empty),
        Option::None => s.cells,
    };
    if cap is Some {
        let m = mid_pos(from, to);
        lemma_jump_mid_distinct(from, to);
        lemma_count_update(s.cells, Piece::Tiger, m, Piece::Empty);
        lemma_count_update(s.cells, Piece::Goat, m, Piece::Empty);
    } else {
        lemma_step_distinct(from, to);
    }
    let c1 = c0.update(to, Piece::Tiger);
    lemma_count_update(c0, Piece::Tiger, to, Piece::Tiger);
    lemma_count_update(c0, Piece::Goat, to, Piece::Tiger);
    lemma_count_update(c1, Piece::Tiger, from, Piece::Empty);
    lemma_count_update(c1, Piece::Goat, from, Piece::Empty);
    lemma_tiger_undo(s, from, to);
}

/// Undoing the newest entry of a well-formed state yields a well-formed
/// state, and that entry is consistent with the board.
pub proof fn lemma_undo_wf(s: GameState)
    requires
        wf(s),
        s.hist.len() > 0,
    ensures
        wf(undo_tr(s)),
        entry_undoable(s, s.hist.last()),
{
    match s.hist.last() {
        Move::PlaceGoat { position } => {
            lemma_count_pos(s.cells, Piece::Goat, position as int);
            lemma_count_update(s.cells, Piece::Tiger, position as int, Piece::Empty);
            lemma_count_update(s.cells, Piece::Goat, position as int, Piece::Empty);
        },
        Move::MoveGoat { from, to } => {
            let c1 = s.cells.update(from as int, Piece::Goat);
            lemma_count_update(s.cells, Piece::Tiger, from as int, Piece::Goat);
            lemma_count_update(s.cells, Piece::Goat, from as int, Piece::Goat);
            lemma_count_update(c1, Piece::Tiger, to as int, Piece::Empty);
            lemma_count_update(c1, Piece::Goat, to as int, Piece::Empty);
        },
        Move::MoveTiger { from, to, captured_position } => {
            let c1 = s.cells.update(from as int, Piece::Tiger);
            lemma_count_update(s.cells, Piece::Tiger, from as int, Piece::Tiger);
            lemma_count_update(s.cells, Piece::Goat, from as int, Piece::Tiger);
            lemma_count_update(c1, Piece::Tiger, to as int, Piece::Empty);
            lemma_count_update(c1, Piece::Goat, to as int, Piece::Empty);
            let c2 = c1.update(to as int, Piece::Empty);
            match captured_position {
                Option::Some(m) => {
                    lemma_count_update(c2, Piece::Tiger, m as int, Piece::Goat);
                    lemma_count_update(c2, Piece::Goat, m as int, Piece::Goat);
                },
                Option::None => {},
            }
        },
    }
}

/// Appending one cell changes a piece count by the obvious amount.
pub proof fn lemma_count_push(c: Seq<Piece>, p: Piece, v: Piece)
    ensures
        count_piece(c.push(v), p) ==
            count_piece(c, p) + (if v == p { 1int } else { 0int }),
{
    assert(c.push(v).drop_last() =~= c);
    assert(c.push(v).last() == v);
}

} // verus!
