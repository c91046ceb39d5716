use tictactoe::board::{classify, Board, Cell, GameState, Line, Side};

fn board_from(cells: &[Cell]) -> Board {
    assert_eq!(cells.len(), 9);
    let mut b = Board::new();
    let mut i: usize = 0;
    while i < 9 {
        b.set_flat(i, cells[i]);
        i += 1;
    }
    b
}

fn marks() -> (Cell, Cell, Cell) {
    (
        Cell::Empty,
        Cell::Occupied(Side::Human),
        Cell::Occupied(Side::Computer),
    )
}

#[test]
fn new_board_is_empty_and_in_progress() {
    let b = Board::new();
    for row in 0..3 {
        for col in 0..3 {
            assert_eq!(b.get(row, col), Cell::Empty);
        }
    }
    let cells = b.all_cells();
    assert_eq!(cells.len(), 9);
    assert_eq!(classify(&cells), GameState::InProgress);
}

#[test]
fn set_then_get_returns_written_value() {
    let (_e, h, c) = marks();
    let mut b = Board::new();
    b.set(1, 2, h);
    assert_eq!(b.get(1, 2), h);
    for row in 0..3 {
        for col in 0..3 {
            if (row, col) != (1, 2) {
                assert_eq!(b.get(row, col), Cell::Empty);
            }
        }
    }
    b.set(1, 2, c);
    assert_eq!(b.get(1, 2), c);
}

#[test]
fn set_changes_no_other_cell() {
    let (e, h, c) = marks();
    let start = [h, e, c, e, h, e, c, e, h];
    let mut b = board_from(&start);
    b.set(2, 1, c);
    let after = b.all_cells();
    for i in 0..9 {
        if i == 7 {
            assert_eq!(after[i], c);
        } else {
            assert_eq!(after[i], start[i]);
        }
    }
}

#[test]
fn flat_indexing_is_row_major() {
    let (_e, h, _c) = marks();
    let mut b = Board::new();
    b.set(2, 1, h);
    let cells = b.all_cells();
    assert_eq!(cells[7], h);
    assert_eq!(b.get_flat(7), h);
}

#[test]
fn classify_reports_each_winning_line() {
    let lines: [[usize; 3]; 8] = [
        [0, 1, 2],
        [3, 4, 5],
        [6, 7, 8],
        [0, 3, 6],
        [1, 4, 7],
        [2, 5, 8],
        [0, 4, 8],
        [2, 4, 6],
    ];
    for l in lines.iter() {
        for side in [Side::Human, Side::Computer] {
            let mut cells = [Cell::Empty; 9];
            for &i in l.iter() {
                cells[i] = Cell::Occupied(side);
            }
            let b = board_from(&cells);
            let expected = GameState::Won {
                side,
                line: Line { a: l[0], b: l[1], c: l[2] },
            };
            assert_eq!(classify(&b.all_cells()), expected);
        }
    }
}

#[test]
fn classify_full_board_without_line_is_draw() {
    let (_e, h, c) = marks();
    let cells = [h, c, h, h, c, c, c, h, h];
    let b = board_from(&cells);
    assert_eq!(classify(&b.all_cells()), GameState::Draw);
}

#[test]
fn classify_two_lines_reports_lowest_indexed() {
    // Rows {0,1,2} and {6,7,8} are both complete; the first in the fixed
    // table must be reported.
    let (e, h, c) = marks();
    let cells = [h, h, h, c, c, e, h, h, h];
    let b = board_from(&cells);
    assert_eq!(
        classify(&b.all_cells()),
        GameState::Won { side: Side::Human, line: Line { a: 0, b: 1, c: 2 } }
    );
    // Row {0,1,2} and column {0,3,6}: the row comes first in the table.
    let cells2 = [c, c, c, c, h, e, c, e, h];
    let b2 = board_from(&cells2);
    assert_eq!(
        classify(&b2.all_cells()),
        GameState::Won { side: Side::Computer, line: Line { a: 0, b: 1, c: 2 } }
    );
}

#[test]
fn classify_partial_board_is_in_progress() {
    let (e, h, c) = marks();
    let cells = [h, c, e, e, h, e, e, e, c];
    let b = board_from(&cells);
    assert_eq!(classify(&b.all_cells()), GameState::InProgress);
}
