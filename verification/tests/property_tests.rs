use baghchal::{Board, Piece, Position, Winner};

#[test]
fn scenario_place_capture_undo() {
    // Fresh state: placing a goat at 1 and jumping it with the corner
    // tiger captures it; one undo restores everything.
    let mut board = Board::new();
    assert!(board.place_goat(1));
    assert!(board.move_tiger(0, 2));
    assert_eq!(board.captured_goats, 1);
    assert_eq!(board.cells[1], Piece::Empty);

    assert!(board.undo());
    assert_eq!(board.cells[0], Piece::Tiger);
    assert_eq!(board.cells[2], Piece::Empty);
    assert_eq!(board.cells[1], Piece::Goat);
    assert_eq!(board.captured_goats, 0);
}

#[test]
fn repeated_move_queries_are_identical() {
    let mut board = Board::new();
    board.place_goat(12);
    board.place_goat(7);

    let tiger_once = board.get_all_valid_tiger_moves();
    let tiger_twice = board.get_all_valid_tiger_moves();
    assert_eq!(tiger_once, tiger_twice);

    let goat_once = board.get_all_valid_goat_moves();
    let goat_twice = board.get_all_valid_goat_moves();
    assert_eq!(goat_once, goat_twice);

    board.goats_in_hand = 0;
    let moves_once = board.get_all_valid_goat_moves();
    let moves_twice = board.get_all_valid_goat_moves();
    assert_eq!(moves_once, moves_twice);
}

#[test]
fn no_diagonal_destinations_from_seven() {
    // Intersection 7 carries no diagonals: its diagonal neighbors are
    // never offered, for a tiger or a goat standing there.
    let mut board = Board::new();
    board.cells[7] = Piece::Tiger;
    let tiger_moves = board.get_valid_tiger_moves(7);
    for to in [1usize, 3, 11, 13] {
        assert!(!tiger_moves.contains(&Position(to)));
    }

    board.cells[7] = Piece::Goat;
    let goat_moves = board.get_valid_goat_moves(7);
    for to in [1usize, 3, 11, 13] {
        assert!(!goat_moves.contains(&Position(to)));
    }
}

#[test]
fn initial_move_sets() {
    let board = Board::new();

    // Twenty-one empty cells, so twenty-one placements.
    let goat_moves = board.get_all_valid_goat_moves();
    assert_eq!(goat_moves.len(), 21);
    assert!(goat_moves.iter().all(|&(from, to)| from == to));
    assert!(goat_moves.contains(&(12, 12)));
    assert!(!goat_moves.contains(&(0, 0)));

    // Each corner tiger has two orthogonal steps and one diagonal step.
    let tiger_moves = board.get_all_valid_tiger_moves();
    assert_eq!(tiger_moves.len(), 12);
    assert!(tiger_moves.contains(&(0, 1)));
    assert!(tiger_moves.contains(&(0, 5)));
    assert!(tiger_moves.contains(&(0, 6)));
    assert!(tiger_moves.contains(&(24, 18)));
    assert!(!tiger_moves.contains(&(0, 2)));
}

#[test]
fn capture_query_reports_midpoint() {
    let mut board = Board::new();
    board.place_goat(1);
    assert_eq!(board.get_captured_position(0, 2), Some(1));
    assert_eq!(board.get_captured_position(0, 1), None);
    assert_eq!(board.get_captured_position(5, 7), None); // No goat at 6
}

#[test]
fn failed_capture_changes_nothing() {
    // Without a goat at 1, the jump from 0 to 2 fails and the board is
    // untouched.
    let mut board = Board::new();
    let cells_before: Vec<Piece> = board.cells.clone();
    assert!(!board.move_tiger(0, 2));
    assert_eq!(board.cells, cells_before);
    assert_eq!(board.captured_goats, 0);
    assert_eq!(board.goats_in_hand, 20);
    assert!(!board.can_undo());
}

#[test]
fn win_precedence_over_mobility() {
    // Five captures decide for the tigers even while they can move.
    let mut board = Board::new();
    board.captured_goats = 5;
    assert_eq!(board.get_winner(), Winner::Tigers);

    // Four captures with mobile tigers decide nothing.
    board.captured_goats = 4;
    assert_eq!(board.get_winner(), Winner::Undecided);
}

#[test]
fn time_limit_bounds() {
    let mut board = Board::new();
    assert!(!board.set_time_limit(0));
    assert!(!board.set_time_limit(11));
    assert!(board.set_time_limit(1));
    assert!(board.set_time_limit(10));
}

#[test]
fn ai_tiger_with_short_budget_still_moves() {
    let mut board = Board::new();
    assert!(board.set_time_limit(1));
    board.place_goat(1);
    let before = board.get_all_valid_tiger_moves();
    assert!(board.ai_move_tiger());
    // The applied move came from the pre-call legal set.
    let last_tiger_move = before
        .iter()
        .any(|&(from, to)| board.cells[from] == Piece::Empty && board.cells[to] == Piece::Tiger);
    assert!(last_tiger_move);
}

#[test]
fn ai_reports_failure_only_without_moves() {
    // Immobilize every tiger: the tiger search must report failure and
    // leave the state alone.
    let mut board = Board::new();
    board.cells[0] = Piece::Tiger;
    board.cells[1] = Piece::Tiger;
    board.cells[2] = Piece::Tiger;
    board.cells[3] = Piece::Tiger;
    for pos in 4..15 {
        board.cells[pos] = Piece::Goat;
    }
    board.cells[20] = Piece::Empty;
    board.cells[24] = Piece::Empty;
    assert!(board.get_all_valid_tiger_moves().is_empty());
    let cells_before: Vec<Piece> = board.cells.clone();
    assert!(!board.ai_move_tiger());
    assert_eq!(board.cells, cells_before);
}

#[test]
fn selection_is_a_pure_hint() {
    let mut board = Board::new();
    assert!(!board.select_position(25));
    assert_eq!(board.selected_position, None);
    assert!(board.select_position(3));
    assert_eq!(board.selected_position, Some(3));
    board.clear_selection();
    assert_eq!(board.selected_position, None);
}

#[test]
fn display_shows_pieces_and_hints() {
    let mut board = Board::new();
    let plain = board.display_with_hints();
    assert!(plain.contains('T'));
    assert!(!plain.contains('G'));
    assert!(plain.contains('×')); // Diagonal-eligible empty cells

    board.place_goat(12);
    let with_goat = board.display_with_hints();
    assert!(with_goat.contains('G'));

    // Selecting the corner tiger marks its destinations.
    board.select_position(0);
    let with_hints = board.display_with_hints();
    assert!(with_hints.contains('•'));
}
