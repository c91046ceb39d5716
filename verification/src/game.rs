//! The interface the presentation layer talks to: it writes human moves,
//! triggers the engine, and reads cells and the verdict back for
//! rendering. The core validates defensively rather than trusting the
//! caller.

use vstd::prelude::*;
use crate::board::{
    Board, Cell, GameError, GameState, Side, board_wf, classify_spec, flat,
};
use crate::engine::{best_move_spec, make_best_move};

verus! {

/// One game: a board created empty and mutated one move at a time.
pub struct Game {
    board: Board,
}

impl View for Game {
    type V = Seq<Cell>;

    closed spec fn view(&self) -> Seq<Cell> {
        self.board@
    }
}

impl Game {
    /// The game's board is well formed.
    pub open spec fn wf(&self) -> bool {
        board_wf(self@)
    }

    /// A new game over an empty board.
    pub fn new() -> (r: Game)
        ensures
            r.wf(),
            forall|i: int| 0 <= i < 9 ==> r@[i] is Empty,
    {
        Game { board: Board::new() }
    }

    /// Writes a human mark at (row, col). Rejected with `OutOfBounds`
    /// when the coordinates leave the grid, and with `InvalidMoveTarget`
    /// when the target cell is already occupied; the board then keeps its
    /// value. Succeeds exactly on an in-range, empty target.
    pub fn apply_human_move(&mut self, row: usize, col: usize) -> (r: Result<(), GameError>)
        requires
            old(self).wf(),
        ensures
            final(self).wf(),
            match r {
                Result::Ok(_) => row < 3 && col < 3 && old(self)@[flat(
                    row as int,
                    col as int,
                )] is Empty && final(self)@ == old(self)@.update(
                    flat(row as int, col as int),
                    Cell::Occupied(Side::Human),
                ),
                Result::Err(e) => final(self)@ == old(self)@ && ((e == GameError::OutOfBounds && (
                row >= 3 || col >= 3)) || (e == GameError::InvalidMoveTarget && row < 3 && col < 3
                    && !(old(self)@[flat(row as int, col as int)] is Empty))),
            },
    {
        if row >= 3 || col >= 3 {
            return Result::Err(GameError::OutOfBounds);
        }
        let cur = self.board.get(row, col);
        if !(cur == Cell::Empty) {
            return Result::Err(GameError::InvalidMoveTarget);
        }
        self.board.set(row, col, Cell::Occupied(Side::Human));
        Result::Ok(())
    }

    /// Lets the engine pick and apply the automated side's move. Fails
    /// with `EngineInvokedOnTerminalBoard`, leaving the board unchanged,
    /// unless the game is still in progress.
    pub fn trigger_computer_move(&mut self) -> (r: Result<(), GameError>)
        requires
            old(self).wf(),
        ensures
            final(self).wf(),
            match r {
                Result::Ok(_) => classify_spec(old(self)@) is InProgress && old(self)@[
                    best_move_spec(old(self)@)
                ] is Empty && final(self)@ == old(self)@.update(
                    best_move_spec(old(self)@),
                    Cell::Occupied(Side::Computer),
                ),
                Result::Err(e) => e == GameError::EngineInvokedOnTerminalBoard && !(classify_spec(
                    old(self)@,
                ) is InProgress) && final(self)@ == old(self)@,
            },
    {
        make_best_move(&mut self.board)
    }

    /// Read-only accessor for rendering one cell.
    pub fn query_cell(&self, row: usize, col: usize) -> (r: Cell)
        requires
            self.wf(),
            row < 3,
            col < 3,
        ensures
            r == self@[flat(row as int, col as int)],
    {
        self.board.get(row, col)
    }

    /// Read-only accessor for the current verdict, recomputed on demand.
    pub fn query_state(&self) -> (r: GameState)
        requires
            self.wf(),
        ensures
            r == classify_spec(self@),
    {
        let cells = self.board.all_cells();
        crate::board::classify(&cells)
    }

    /// A row-major snapshot of all nine cells.
    pub fn all_cells(&self) -> (r: Vec<Cell>)
        requires
            self.wf(),
        ensures
            r@ == self@,
    {
        self.board.all_cells()
    }
}

} // verus!
