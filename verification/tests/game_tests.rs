use tictactoe::board::{Cell, GameError, GameState, Line, Side};
use tictactoe::game::Game;

#[test]
fn human_move_out_of_bounds_is_rejected() {
    let mut g = Game::new();
    assert_eq!(g.apply_human_move(3, 0), Err(GameError::OutOfBounds));
    assert_eq!(g.apply_human_move(0, 7), Err(GameError::OutOfBounds));
    for row in 0..3 {
        for col in 0..3 {
            assert_eq!(g.query_cell(row, col), Cell::Empty);
        }
    }
}

#[test]
fn human_move_on_occupied_cell_is_rejected() {
    let mut g = Game::new();
    assert_eq!(g.apply_human_move(1, 1), Ok(()));
    assert_eq!(g.apply_human_move(1, 1), Err(GameError::InvalidMoveTarget));
    assert_eq!(g.query_cell(1, 1), Cell::Occupied(Side::Human));
}

#[test]
fn human_move_writes_exactly_one_cell() {
    let mut g = Game::new();
    assert_eq!(g.apply_human_move(0, 2), Ok(()));
    for row in 0..3 {
        for col in 0..3 {
            if (row, col) == (0, 2) {
                assert_eq!(g.query_cell(row, col), Cell::Occupied(Side::Human));
            } else {
                assert_eq!(g.query_cell(row, col), Cell::Empty);
            }
        }
    }
}

#[test]
fn computer_move_occupies_one_empty_cell() {
    let mut g = Game::new();
    g.apply_human_move(1, 1).unwrap();
    let before = g.all_cells();
    g.trigger_computer_move().unwrap();
    let after = g.all_cells();
    let mut changed: usize = 0;
    for i in 0..9 {
        if after[i] != before[i] {
            assert_eq!(before[i], Cell::Empty);
            assert_eq!(after[i], Cell::Occupied(Side::Computer));
            changed += 1;
        }
    }
    assert_eq!(changed, 1);
}

#[test]
fn computer_move_fails_once_game_is_won() {
    let mut g = Game::new();
    // An unanswered human row: the board is terminal, so the engine must
    // refuse to move.
    g.apply_human_move(0, 0).unwrap();
    g.apply_human_move(0, 1).unwrap();
    g.apply_human_move(0, 2).unwrap();
    assert_eq!(
        g.query_state(),
        GameState::Won { side: Side::Human, line: Line { a: 0, b: 1, c: 2 } }
    );
    let before = g.all_cells();
    assert_eq!(
        g.trigger_computer_move(),
        Err(GameError::EngineInvokedOnTerminalBoard)
    );
    let after = g.all_cells();
    for i in 0..9 {
        assert_eq!(after[i], before[i]);
    }
}

#[test]
fn query_state_tracks_the_game() {
    let mut g = Game::new();
    assert_eq!(g.query_state(), GameState::InProgress);
    g.apply_human_move(0, 0).unwrap();
    assert_eq!(g.query_state(), GameState::InProgress);
    g.trigger_computer_move().unwrap();
    assert_eq!(g.query_state(), GameState::InProgress);
}

#[test]
fn full_game_against_engine_ends_without_human_win() {
    // The human always takes the lowest-indexed empty cell; the engine
    // answers each move while the game is in progress.
    let mut g = Game::new();
    loop {
        if g.query_state() != GameState::InProgress {
            break;
        }
        let cells = g.all_cells();
        let mut played = false;
        for i in 0..9 {
            if cells[i] == Cell::Empty {
                g.apply_human_move(i / 3, i % 3).unwrap();
                played = true;
                break;
            }
        }
        assert!(played);
        if g.query_state() == GameState::InProgress {
            g.trigger_computer_move().unwrap();
        }
    }
    let outcome = g.query_state();
    assert!(!matches!(outcome, GameState::Won { side: Side::Human, .. }));
    assert!(outcome != GameState::InProgress);
}
