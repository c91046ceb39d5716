//! The board model: the 3x3 grid of cells, its accessors, and the
//! classification of a snapshot of cells into a game verdict.

use vstd::prelude::*;

verus! {

/// One of the two players occupying cells.
#[derive(Clone, Copy, PartialEq, Eq, Structural, Debug)]
pub enum Side {
    Human,
    Computer,
}

/// A single board position: empty or occupied by a side.
#[derive(Clone, Copy, PartialEq, Eq, Structural, Debug)]
pub enum Cell {
    Empty,
    Occupied(Side),
}

/// A winning triple of flat cell indices, ordered so that `a` and `c`
/// are the line's visual endpoints and `b` is its middle cell.
#[derive(Clone, Copy, PartialEq, Eq, Structural, Debug)]
pub struct Line {
    pub a: usize,
    pub b: usize,
    pub c: usize,
}

/// The verdict derived from a board snapshot; never stored.
#[derive(Clone, Copy, PartialEq, Eq, Structural, Debug)]
pub enum GameState {
    InProgress,
    Draw,
    Won { side: Side, line: Line },
}

/// The error taxonomy of the core: all are caller errors, local and
/// non-retryable.
#[derive(Clone, Copy, PartialEq, Eq, Structural, Debug)]
pub enum GameError {
    OutOfBounds,
    InvalidMoveTarget,
    EngineInvokedOnTerminalBoard,
}

/// A board snapshot is well formed when it holds exactly the nine cells.
pub open spec fn board_wf(s: Seq<Cell>) -> bool {
    s.len() == 9
}

/// The canonical row-major linearization of (row, col) into 0..9.
pub open spec fn flat(row: int, col: int) -> int {
    row * 3 + col
}

/// The fixed table of the eight winning lines, in checking order:
/// three rows, three columns, the two diagonals.
pub open spec fn win_line(k: int) -> Line {
    if k == 0 {
        Line { a: 0, b: 1, c: 2 }
    } else if k == 1 {
        Line { a: 3, b: 4, c: 5 }
    } else if k == 2 {
        Line { a: 6, b: 7, c: 8 }
    } else if k == 3 {
        Line { a: 0, b: 3, c: 6 }
    } else if k == 4 {
        Line { a: 1, b: 4, c: 7 }
    } else if k == 5 {
        Line { a: 2, b: 5, c: 8 }
    } else if k == 6 {
        Line { a: 0, b: 4, c: 8 }
    } else {
        Line { a: 2, b: 4, c: 6 }
    }
}

/// Line `k` is fully occupied by `side`.
pub open spec fn line_won(s: Seq<Cell>, k: int, side: Side) -> bool {
    let l = win_line(k);
    &&& s[l.a as int] == Cell::Occupied(side)
    &&& s[l.b as int] == Cell::Occupied(side)
    &&& s[l.c as int] == Cell::Occupied(side)
}

/// Line `k` is fully occupied by one side.
pub open spec fn line_complete(s: Seq<Cell>, k: int) -> bool {
    line_won(s, k, Side::Human) || line_won(s, k, Side::Computer)
}

/// The side that owns a complete line `k`.
pub open spec fn line_owner(s: Seq<Cell>, k: int) -> Side {
    if line_won(s, k, Side::Human) {
        Side::Human
    } else {
        Side::Computer
    }
}

/// The lowest index in `k..8` of a complete line, if any.
pub open spec fn first_complete_from(s: Seq<Cell>, k: int) -> Option<int>
    decreases 8 - k,
{
    if k >= 8 {
        Option::None
    } else if line_complete(s, k) {
        Option::Some(k)
    } else {
        first_complete_from(s, k + 1)
    }
}

/// How many of the cells at indices `k..9` are empty.
pub open spec fn empties_from(s: Seq<Cell>, k: int) -> nat
    decreases 9 - k,
{
    if k < 0 || k >= 9 {
        0
    } else {
        (if s[k] is Empty {
            1nat
        } else {
            0nat
        }) + empties_from(s, k + 1)
    }
}

/// How many cells of the board are empty.
pub open spec fn empty_count(s: Seq<Cell>) -> nat {
    empties_from(s, 0)
}

/// The verdict of a board snapshot: the first complete line (in the fixed
/// checking order) wins for its owner; otherwise the board is drawn when
/// full and in progress when not.
pub open spec fn classify_spec(s: Seq<Cell>) -> GameState {
    match first_complete_from(s, 0) {
        Option::Some(k) => (GameState::Won { side: line_owner(s, k), line: win_line(k) }),
        Option::None => if empty_count(s) == 0 {
            GameState::Draw
        } else {
            GameState::InProgress
        },
    }
}

/// The winning-line triple at table index `k`.
fn line_of(k: usize) -> (r: Line)
    requires
        k < 8,
    ensures
        r == win_line(k as int),
        r.a < 9,
        r.b < 9,
        r.c < 9,
{
    if k == 0 {
        Line { a: 0, b: 1, c: 2 }
    } else if k == 1 {
        Line { a: 3, b: 4, c: 5 }
    } else if k == 2 {
        Line { a: 6, b: 7, c: 8 }
    } else if k == 3 {
        Line { a: 0, b: 3, c: 6 }
    } else if k == 4 {
        Line { a: 1, b: 4, c: 7 }
    } else if k == 5 {
        Line { a: 2, b: 5, c: 8 }
    } else if k == 6 {
        Line { a: 0, b: 4, c: 8 }
    } else {
        Line { a: 2, b: 4, c: 6 }
    }
}

proof fn lemma_empties_from_zero_iff(s: Seq<Cell>, k: int)
    requires
        0 <= k <= 9,
    ensures
        (empties_from(s, k) == 0) <==> (forall|j: int| k <= j < 9 ==> !(s[j] is Empty)),
    decreases 9 - k,
{
    if k < 9 {
        lemma_empties_from_zero_iff(s, k + 1);
    }
}

/// A board with an empty cell has a positive empty count.
pub proof fn lemma_empty_cell_positive_count(s: Seq<Cell>, i: int)
    requires
        0 <= i < 9,
        s[i] is Empty,
    ensures
        empty_count(s) > 0,
{
    lemma_empties_from_zero_iff(s, 0);
}

/// A board whose cells are all occupied has empty count zero.
pub proof fn lemma_no_empty_cell_zero_count(s: Seq<Cell>)
    requires
        forall|j: int| 0 <= j < 9 ==> !(s[j] is Empty),
    ensures
        empty_count(s) == 0,
{
    lemma_empties_from_zero_iff(s, 0);
}

proof fn lemma_none_when_no_complete(s: Seq<Cell>, k: int)
    requires
        0 <= k <= 8,
        forall|j: int| k <= j < 8 ==> !line_complete(s, j),
    ensures
        first_complete_from(s, k) is None,
    decreases 8 - k,
{
    if k < 8 {
        lemma_none_when_no_complete(s, k + 1);
    }
}

proof fn lemma_first_complete_is(s: Seq<Cell>, k: int, j: int)
    requires
        0 <= j <= k < 8,
        line_complete(s, k),
        forall|m: int| j <= m < k ==> !line_complete(s, m),
    ensures
        first_complete_from(s, j) == Option::Some(k),
    decreases k - j,
{
    if j < k {
        lemma_first_complete_is(s, k, j + 1);
    }
}

/// Law: a full board with no complete line is classified as a draw.
pub proof fn lemma_full_board_no_line_is_draw(s: Seq<Cell>)
    requires
        board_wf(s),
        empty_count(s) == 0,
        forall|k: int| 0 <= k < 8 ==> !line_complete(s, k),
    ensures
        classify_spec(s) == GameState::Draw,
{
    lemma_none_when_no_complete(s, 0);
}

/// Law: when line `k` is won by `side` and no line before `k` in the fixed
/// checking order is complete, the verdict reports `side` and exactly the
/// triple of line `k` — even if lines after `k` are complete as well.
pub proof fn lemma_lowest_winning_line_reported(s: Seq<Cell>, k: int, side: Side)
    requires
        board_wf(s),
        0 <= k < 8,
        line_won(s, k, side),
        forall|j: int| 0 <= j < k ==> !line_complete(s, j),
    ensures
        classify_spec(s) == (GameState::Won { side: side, line: win_line(k) }),
{
    lemma_first_complete_is(s, k, 0);
    assert(line_owner(s, k) == side);
}

/// Law: writing a cell and reading the same coordinates back returns the
/// written value, and every other cell keeps its value.
pub proof fn lemma_set_then_get(s: Seq<Cell>, row: int, col: int, row2: int, col2: int, cell: Cell)
    requires
        board_wf(s),
        0 <= row < 3,
        0 <= col < 3,
        0 <= row2 < 3,
        0 <= col2 < 3,
    ensures
        s.update(flat(row, col), cell)[flat(row, col)] == cell,
        (row != row2 || col != col2) ==> s.update(flat(row, col), cell)[flat(row2, col2)] == s[flat(
            row2,
            col2,
        )],
{
    assert(0 <= flat(row, col) < 9);
    assert((row != row2 || col != col2) ==> flat(row, col) != flat(row2, col2));
}

/// The verdict of a snapshot of all nine cells: checks the eight lines in
/// the fixed order, then looks for an empty cell.
pub fn classify(cells: &Vec<Cell>) -> (r: GameState)
    requires
        board_wf(cells@),
    ensures
        r == classify_spec(cells@),
{
    let mut k: usize = 0;
    while k < 8
        invariant
            board_wf(cells@),
            k <= 8,
            first_complete_from(cells@, 0) == first_complete_from(cells@, k as int),
            forall|j: int| 0 <= j < k ==> !line_complete(cells@, j),
        decreases 8 - k,
    {
        let l = line_of(k);
        let a = cells[l.a];
        if let Cell::Occupied(side) = a {
            if cells[l.b] == a && cells[l.c] == a {
                proof {
                    assert(line_won(cells@, k as int, side));
                    assert(line_owner(cells@, k as int) == side);
                }
                return GameState::Won { side, line: l };
            }
        }
        proof {
            assert(!line_complete(cells@, k as int));
        }
        k = k + 1;
    }
    let mut i: usize = 0;
    while i < 9
        invariant
            board_wf(cells@),
            i <= 9,
            first_complete_from(cells@, 0) is None,
            forall|j: int| 0 <= j < i ==> !(cells@[j] is Empty),
        decreases 9 - i,
    {
        let c = cells[i];
        if c == Cell::Empty {
            proof {
                lemma_empty_cell_positive_count(cells@, i as int);
            }
            return GameState::InProgress;
        }
        i = i + 1;
    }
    proof {
        lemma_no_empty_cell_zero_count(cells@);
    }
    GameState::Draw
}

/// The 3x3 grid of cells, mutable only through `set`.
pub struct Board {
    cells: Vec<Cell>,
}

impl View for Board {
    type V = Seq<Cell>;

    closed spec fn view(&self) -> Seq<Cell> {
        self.cells@
    }
}

impl Board {
    /// The board holds exactly nine cells.
    pub open spec fn wf(&self) -> bool {
        board_wf(self@)
    }

    /// A fresh board with all nine cells empty.
    pub fn new() -> (r: Board)
        ensures
            r.wf(),
            forall|i: int| 0 <= i < 9 ==> r@[i] is Empty,
    {
        let mut cells: Vec<Cell> = Vec::new();
        let mut i: usize = 0;
        while i < 9
            invariant
                i <= 9,
                cells@.len() == i,
                forall|j: int| 0 <= j < i ==> cells@[j] is Empty,
            decreases 9 - i,
        {
            cells.push(Cell::Empty);
            i = i + 1;
        }
        Board { cells }
    }

    /// The stored cell at (row, col).
    pub fn get(&self, row: usize, col: usize) -> (r: Cell)
        requires
            self.wf(),
            row < 3,
            col < 3,
        ensures
            r == self@[flat(row as int, col as int)],
    {
        self.cells[row * 3 + col]
    }

    /// Writes `cell` into (row, col) unconditionally; every other cell
    /// keeps its value.
    pub fn set(&mut self, row: usize, col: usize, cell: Cell)
        requires
            old(self).wf(),
            row < 3,
            col < 3,
        ensures
            final(self).wf(),
            final(self)@ == old(self)@.update(flat(row as int, col as int), cell),
    {
        self.cells.set(row * 3 + col, cell);
    }

    /// The stored cell at a flat row-major index.
    pub fn get_flat(&self, i: usize) -> (r: Cell)
        requires
            self.wf(),
            i < 9,
        ensures
            r == self@[i as int],
    {
        self.cells[i]
    }

    /// Writes `cell` at a flat row-major index; every other cell keeps
    /// its value.
    pub fn set_flat(&mut self, i: usize, cell: Cell)
        requires
            old(self).wf(),
            i < 9,
        ensures
            final(self).wf(),
            final(self)@ == old(self)@.update(i as int, cell),
    {
        self.cells.set(i, cell);
    }

    /// A row-major snapshot of all nine cells.
    pub fn all_cells(&self) -> (r: Vec<Cell>)
        requires
            self.wf(),
        ensures
            r@ == self@,
    {
        let mut r: Vec<Cell> = Vec::new();
        let mut i: usize = 0;
        while i < 9
            invariant
                self.wf(),
                i <= 9,
                r@.len() == i,
                forall|j: int| 0 <= j < i ==> r@[j] == self@[j],
            decreases 9 - i,
        {
            r.push(self.cells[i]);
            i = i + 1;
        }
        proof {
            assert(r@ =~= self@);
        }
        r
    }
}

} // verus!
