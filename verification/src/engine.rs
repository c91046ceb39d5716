//! The move-selection engine: an exhaustive look-ahead over all legal
//! continuations that values a win for the automated side at +1, a draw
//! at 0 and a loss at -1, and picks the lowest-indexed empty cell whose
//! backed-up value is best.

use vstd::prelude::*;
use crate::board::{
    Board, Cell, GameError, GameState, Side, board_wf, classify, classify_spec, empties_from,
    empty_count, lemma_no_empty_cell_zero_count,
};

verus! {

/// The side that moves after `side`.
pub open spec fn other(side: Side) -> Side {
    match side {
        Side::Human => Side::Computer,
        Side::Computer => Side::Human,
    }
}

proof fn lemma_empties_from_update(s: Seq<Cell>, i: int, c: Cell, k: int)
    requires
        board_wf(s),
        0 <= i < 9,
        0 <= k <= 9,
    ensures
        empties_from(s.update(i, c), k) as int == empties_from(s, k) as int + (
        if k <= i {
            (if c is Empty {
                1int
            } else {
                0int
            }) - (if s[i] is Empty {
                1int
            } else {
                0int
            })
        } else {
            0int
        }),
    decreases 9 - k,
{
    if k < 9 {
        lemma_empties_from_update(s, i, c, k + 1);
    }
}

/// Occupying an empty cell lowers the empty count by one.
pub proof fn lemma_occupy_decreases(s: Seq<Cell>, i: int, side: Side)
    requires
        board_wf(s),
        0 <= i < 9,
        s[i] is Empty,
    ensures
        empty_count(s.update(i, Cell::Occupied(side))) == empty_count(s) - 1,
{
    lemma_empties_from_update(s, i, Cell::Occupied(side), 0);
}

/// The minimax value of a position from the automated side's view, with
/// `turn` to move: +1 when play from here ends in a win for the automated
/// side, 0 for a draw, -1 for a loss, each side playing optimally.
pub open spec fn value(s: Seq<Cell>, turn: Side) -> int
    decreases empty_count(s), 1int, 0int,
        when board_wf(s)
{
    match classify_spec(s) {
        GameState::Won { side, .. } => if side is Computer {
            1
        } else {
            -1
        },
        GameState::Draw => 0,
        GameState::InProgress => best_from(s, turn, 0),
    }
}

/// The best value `turn` can reach by occupying one of the empty cells at
/// indices `k..9`: the maximum child value when the automated side moves,
/// the minimum when the human moves. Out of empty cells, it yields a
/// sentinel (-2 or +2) that never survives a comparison.
pub open spec fn best_from(s: Seq<Cell>, turn: Side, k: int) -> int
    decreases empty_count(s), 0int, 9 - k,
        when board_wf(s) && 0 <= k
{
    if k >= 9 {
        if turn is Computer {
            -2
        } else {
            2
        }
    } else if s[k] is Empty {
        proof {
            lemma_occupy_decreases(s, k, turn);
        }
        let v = value(s.update(k, Cell::Occupied(turn)), other(turn));
        let rest = best_from(s, turn, k + 1);
        if turn is Computer {
            if v >= rest {
                v
            } else {
                rest
            }
        } else {
            if v <= rest {
                v
            } else {
                rest
            }
        }
    } else {
        best_from(s, turn, k + 1)
    }
}

/// The move the engine selects among the empty cells at indices `k..9`:
/// the lowest-indexed empty cell whose child value for the automated side
/// is maximal; 9 when no empty cell remains.
pub open spec fn best_move_from(s: Seq<Cell>, k: int) -> int
    decreases 9 - k,
{
    if k >= 9 {
        9
    } else if s[k] is Empty {
        let rest = best_move_from(s, k + 1);
        if rest >= 9 {
            k
        } else if value(s.update(k, Cell::Occupied(Side::Computer)), Side::Human) >= value(
            s.update(rest, Cell::Occupied(Side::Computer)),
            Side::Human,
        ) {
            k
        } else {
            rest
        }
    } else {
        best_move_from(s, k + 1)
    }
}

/// The flat index of the cell the engine occupies on this board.
pub open spec fn best_move_spec(s: Seq<Cell>) -> int {
    best_move_from(s, 0)
}

proof fn lemma_best_from_no_empty(s: Seq<Cell>, turn: Side, k: int)
    requires
        board_wf(s),
        0 <= k <= 9,
        forall|j: int| k <= j < 9 ==> !(s[j] is Empty),
    ensures
        best_from(s, turn, k) == if turn is Computer {
            -2int
        } else {
            2int
        },
    decreases 9 - k,
{
    if k < 9 {
        lemma_best_from_no_empty(s, turn, k + 1);
    }
}

/// The minimax value always lies between a loss and a win.
pub proof fn lemma_value_bounds(s: Seq<Cell>, turn: Side)
    requires
        board_wf(s),
    ensures
        -1 <= value(s, turn) <= 1,
    decreases empty_count(s), 1int, 0int,
{
    if classify_spec(s) is InProgress {
        assert(exists|j: int| 0 <= j < 9 && s[j] is Empty) by {
            if forall|j: int| 0 <= j < 9 ==> !(s[j] is Empty) {
                lemma_no_empty_cell_zero_count(s);
            }
        }
        lemma_best_from_bounds(s, turn, 0);
    }
}

proof fn lemma_best_from_bounds(s: Seq<Cell>, turn: Side, k: int)
    requires
        board_wf(s),
        0 <= k <= 9,
        exists|j: int| k <= j < 9 && s[j] is Empty,
    ensures
        -1 <= best_from(s, turn, k) <= 1,
    decreases empty_count(s), 0int, 9 - k,
{
    let j0 = choose|j: int| k <= j < 9 && s[j] is Empty;
    if s[k] is Empty {
        lemma_occupy_decreases(s, k, turn);
        lemma_value_bounds(s.update(k, Cell::Occupied(turn)), other(turn));
        if exists|j: int| k + 1 <= j < 9 && s[j] is Empty {
            lemma_best_from_bounds(s, turn, k + 1);
        } else {
            lemma_best_from_no_empty(s, turn, k + 1);
        }
    } else {
        assert(k + 1 <= j0 < 9 && s[j0] is Empty);
        lemma_best_from_bounds(s, turn, k + 1);
    }
}

/// What the selected move satisfies, among the cells at indices `k..9`:
/// it is an empty cell, its child value equals the backed-up best value,
/// and every empty cell below it does strictly worse (the tie-break).
pub proof fn lemma_best_move_from_props(s: Seq<Cell>, k: int)
    requires
        board_wf(s),
        0 <= k <= 9,
    ensures
        k <= best_move_from(s, k) <= 9,
        (best_move_from(s, k) == 9) <==> (forall|j: int| k <= j < 9 ==> !(s[j] is Empty)),
        best_move_from(s, k) < 9 ==> s[best_move_from(s, k)] is Empty,
        best_move_from(s, k) < 9 ==> value(
            s.update(best_move_from(s, k), Cell::Occupied(Side::Computer)),
            Side::Human,
        ) == best_from(s, Side::Computer, k),
        best_move_from(s, k) < 9 ==> forall|j: int|
            k <= j < best_move_from(s, k) && s[j] is Empty ==> value(
                s.update(j, Cell::Occupied(Side::Computer)),
                Side::Human,
            ) < value(s.update(best_move_from(s, k), Cell::Occupied(Side::Computer)), Side::Human),
    decreases 9 - k,
{
    if k < 9 {
        lemma_best_move_from_props(s, k + 1);
        let rest = best_move_from(s, k + 1);
        if s[k] is Empty {
            lemma_occupy_decreases(s, k, Side::Computer);
            lemma_value_bounds(s.update(k, Cell::Occupied(Side::Computer)), Side::Human);
            if rest >= 9 {
                lemma_best_from_no_empty(s, Side::Computer, k + 1);
            }
        }
    }
}

proof fn lemma_best_from_le_child(s: Seq<Cell>, k: int, i: int)
    requires
        board_wf(s),
        0 <= k <= 9,
        k <= i < 9,
        s[i] is Empty,
    ensures
        best_from(s, Side::Human, k) <= value(s.update(i, Cell::Occupied(Side::Human)), Side::Computer),
    decreases 9 - k,
{
    if k < i {
        lemma_best_from_le_child(s, k + 1, i);
    }
}

/// Law: the engine's chosen move achieves the minimax value of the
/// position; the automated side gives up nothing by playing it.
pub proof fn lemma_engine_move_is_optimal(s: Seq<Cell>)
    requires
        board_wf(s),
        classify_spec(s) is InProgress,
    ensures
        0 <= best_move_spec(s) < 9,
        s[best_move_spec(s)] is Empty,
        value(s.update(best_move_spec(s), Cell::Occupied(Side::Computer)), Side::Human) == value(
            s,
            Side::Computer,
        ),
{
    lemma_best_move_from_props(s, 0);
    if best_move_spec(s) == 9 {
        lemma_no_empty_cell_zero_count(s);
        assert(false);
    }
}

/// Law: no human reply lowers the position's value below the minimum the
/// human could already force.
pub proof fn lemma_human_reply_no_worse(s: Seq<Cell>, j: int)
    requires
        board_wf(s),
        classify_spec(s) is InProgress,
        0 <= j < 9,
        s[j] is Empty,
    ensures
        value(s.update(j, Cell::Occupied(Side::Human)), Side::Computer) >= value(s, Side::Human),
{
    lemma_best_from_le_child(s, 0, j);
}

/// Law: a position whose value is not negative is never classified as a
/// win for the human.
pub proof fn lemma_nonneg_value_no_human_win(s: Seq<Cell>, turn: Side)
    requires
        board_wf(s),
        value(s, turn) >= 0,
    ensures
        !(classify_spec(s) matches GameState::Won { side: Side::Human, .. }),
{
}

/// Law: one round of play preserves "the automated side is not losing".
/// If the position has value at least a draw with the automated side to
/// move, then after the engine's chosen move — and after any single human
/// reply to it — the value is still at least a draw, and none of these
/// boards is classified as won by the human. By induction over the moves
/// of a game, a human playing against the engine from such a position
/// never reaches a board won by the human.
pub proof fn lemma_round_preserves_not_losing(s: Seq<Cell>, j: int)
    requires
        board_wf(s),
        classify_spec(s) is InProgress,
        value(s, Side::Computer) >= 0,
    ensures
        value(s.update(best_move_spec(s), Cell::Occupied(Side::Computer)), Side::Human) >= 0,
        !(classify_spec(s.update(best_move_spec(s), Cell::Occupied(Side::Computer)))
            matches GameState::Won { side: Side::Human, .. }),
        (classify_spec(s.update(best_move_spec(s), Cell::Occupied(Side::Computer))) is InProgress
            && 0 <= j < 9 && s.update(best_move_spec(s), Cell::Occupied(Side::Computer))[j]
            is Empty) ==> {
            let s1 = s.update(best_move_spec(s), Cell::Occupied(Side::Computer));
            let s2 = s1.update(j, Cell::Occupied(Side::Human));
            value(s2, Side::Computer) >= 0 && !(classify_spec(s2) matches GameState::Won {
                side: Side::Human,
                ..
            })
        },
{
    let s1 = s.update(best_move_spec(s), Cell::Occupied(Side::Computer));
    lemma_engine_move_is_optimal(s);
    lemma_nonneg_value_no_human_win(s1, Side::Human);
    if classify_spec(s1) is InProgress && 0 <= j < 9 && s1[j] is Empty {
        let s2 = s1.update(j, Cell::Occupied(Side::Human));
        lemma_human_reply_no_worse(s1, j);
        lemma_nonneg_value_no_human_win(s2, Side::Computer);
    }
}

/// The board reached when, from `s` with the automated side to move, the
/// engine plays its chosen move and the human answers with the given flat
/// indices in turn, for as long as the game stays in progress and each
/// reply names an empty cell.
pub open spec fn play_rounds(s: Seq<Cell>, replies: Seq<int>) -> Seq<Cell>
    decreases replies.len(),
{
    if !(classify_spec(s) is InProgress) {
        s
    } else {
        let s1 = s.update(best_move_spec(s), Cell::Occupied(Side::Computer));
        if replies.len() == 0 {
            s1
        } else {
            let j = replies[0];
            if classify_spec(s1) is InProgress && 0 <= j < 9 && s1[j] is Empty {
                play_rounds(s1.update(j, Cell::Occupied(Side::Human)), replies.drop_first())
            } else {
                s1
            }
        }
    }
}

/// Law: the engine never loses. From any in-progress position where the
/// automated side is to move and is not behind (its minimax value is at
/// least a draw), no sequence of human replies — optimal or not — reaches
/// a board classified as won by the human.
pub proof fn lemma_engine_never_loses(s: Seq<Cell>, replies: Seq<int>)
    requires
        board_wf(s),
        classify_spec(s) is InProgress,
        value(s, Side::Computer) >= 0,
    ensures
        !(classify_spec(play_rounds(s, replies)) matches GameState::Won {
            side: Side::Human,
            ..
        }),
    decreases replies.len(),
{
    let s1 = s.update(best_move_spec(s), Cell::Occupied(Side::Computer));
    lemma_engine_move_is_optimal(s);
    if replies.len() == 0 {
        lemma_round_preserves_not_losing(s, 0);
    } else {
        let j = replies[0];
        lemma_round_preserves_not_losing(s, j);
        if classify_spec(s1) is InProgress && 0 <= j < 9 && s1[j] is Empty {
            let s2 = s1.update(j, Cell::Occupied(Side::Human));
            assert(play_rounds(s, replies) == play_rounds(s2, replies.drop_first()));
            if classify_spec(s2) is InProgress {
                lemma_engine_never_loses(s2, replies.drop_first());
            } else {
                assert(play_rounds(s2, replies.drop_first()) == s2);
            }
        } else {
            assert(play_rounds(s, replies) == s1);
        }
    }
}

/// The side that moves after `side`.
pub fn other_side(side: Side) -> (r: Side)
    ensures
        r == other(side),
{
    match side {
        Side::Human => Side::Computer,
        Side::Computer => Side::Human,
    }
}

/// A copy of the snapshot with cell `k` overwritten.
fn updated(cells: &Vec<Cell>, k: usize, c: Cell) -> (r: Vec<Cell>)
    requires
        k < cells@.len(),
    ensures
        r@ == cells@.update(k as int, c),
{
    let mut r = cells.clone();
    proof {
        assert(forall|i: int| 0 <= i < cells@.len() ==> r@[i] == cells@[i]);
        assert(r@ =~= cells@);
    }
    r.set(k, c);
    r
}

/// The minimax value of the position with `turn` to move.
fn minimax(cells: &Vec<Cell>, turn: Side) -> (r: i32)
    requires
        board_wf(cells@),
    ensures
        r as int == value(cells@, turn),
    decreases empty_count(cells@), 1int, 0int,
{
    let state = classify(cells);
    match state {
        GameState::Won { side, .. } => if side == Side::Computer {
            1
        } else {
            -1
        },
        GameState::Draw => 0,
        GameState::InProgress => best_val(cells, turn, 0),
    }
}

/// The best value `turn` can reach over the empty cells at indices `k..9`.
fn best_val(cells: &Vec<Cell>, turn: Side, k: usize) -> (r: i32)
    requires
        board_wf(cells@),
        k <= 9,
    ensures
        r as int == best_from(cells@, turn, k as int),
    decreases empty_count(cells@), 0int, 9 - k,
{
    if k >= 9 {
        if turn == Side::Computer {
            -2
        } else {
            2
        }
    } else {
        let cur = cells[k];
        if cur == Cell::Empty {
            let child = updated(cells, k, Cell::Occupied(turn));
            proof {
                lemma_occupy_decreases(cells@, k as int, turn);
            }
            let v = minimax(&child, other_side(turn));
            let rest = best_val(cells, turn, k + 1);
            if turn == Side::Computer {
                if v >= rest {
                    v
                } else {
                    rest
                }
            } else {
                if v <= rest {
                    v
                } else {
                    rest
                }
            }
        } else {
            best_val(cells, turn, k + 1)
        }
    }
}

/// The engine's choice among the empty cells at indices `k..9`, paired
/// with the chosen cell's child value when one exists.
fn choose_from(cells: &Vec<Cell>, k: usize) -> (r: (usize, i32))
    requires
        board_wf(cells@),
        k <= 9,
    ensures
        r.0 as int == best_move_from(cells@, k as int),
        r.0 < 9 ==> r.1 as int == value(
            cells@.update(r.0 as int, Cell::Occupied(Side::Computer)),
            Side::Human,
        ),
    decreases 9 - k,
{
    if k >= 9 {
        (9, 0)
    } else {
        let cur = cells[k];
        if cur == Cell::Empty {
            let child = updated(cells, k, Cell::Occupied(Side::Computer));
            let v = minimax(&child, Side::Human);
            let rest = choose_from(cells, k + 1);
            if rest.0 >= 9 {
                (k, v)
            } else if v >= rest.1 {
                (k, v)
            } else {
                rest
            }
        } else {
            choose_from(cells, k + 1)
        }
    }
}

/// Computes the engine's move without applying it: the lowest-indexed
/// empty cell achieving the best backed-up value for the automated side.
/// On a terminal board it fails instead of choosing.
pub fn best_move(board: &Board) -> (r: Result<usize, GameError>)
    requires
        board.wf(),
    ensures
        match r {
            Result::Ok(i) => classify_spec(board@) is InProgress && i < 9 && i as int
                == best_move_spec(board@) && board@[i as int] is Empty,
            Result::Err(e) => e == GameError::EngineInvokedOnTerminalBoard && !(classify_spec(
                board@,
            ) is InProgress),
        },
{
    let cells = board.all_cells();
    let state = classify(&cells);
    if state == GameState::InProgress {
        proof {
            lemma_engine_move_is_optimal(board@);
        }
        let choice = choose_from(&cells, 0);
        Result::Ok(choice.0)
    } else {
        Result::Err(GameError::EngineInvokedOnTerminalBoard)
    }
}

/// Computes the engine's move and writes it into the board: exactly one
/// cell goes from empty to occupied by the automated side. On a terminal
/// board it fails loudly and leaves the board unchanged.
pub fn make_best_move(board: &mut Board) -> (r: Result<(), GameError>)
    requires
        old(board).wf(),
    ensures
        final(board).wf(),
        match r {
            Result::Ok(_) => classify_spec(old(board)@) is InProgress && old(board)@[
                best_move_spec(old(board)@)
            ] is Empty && final(board)@ == old(board)@.update(
                best_move_spec(old(board)@),
                Cell::Occupied(Side::Computer),
            ),
            Result::Err(e) => e == GameError::EngineInvokedOnTerminalBoard && !(classify_spec(
                old(board)@,
            ) is InProgress) && final(board)@ == old(board)@,
        },
{
    let choice = best_move(board);
    match choice {
        Result::Ok(i) => {
            board.set_flat(i, Cell::Occupied(Side::Computer));
            Result::Ok(())
        },
        Result::Err(e) => Result::Err(e),
    }
}

} // verus!
