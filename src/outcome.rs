//! Win and draw detection.
use vstd::prelude::*;
use crate::board::{Board, Cell, Player, COLUMNS, ROWS, board_full, column_full};

verus! {

/// The state of a game as read off its grid.
#[derive(Clone, Copy, Debug, PartialEq, Eq, Structural)]
pub enum Outcome {
    InProgress,
    Won(Player),
    Draw,
}

/// Number of run directions: vertical, horizontal, ascending and descending diagonal.
pub const DIRECTIONS: usize = 4;

/// Column step of direction `d`.
pub open spec fn step_col(d: int) -> int {
    if d == 0 { 0 } else { 1 }
}

/// Row step of direction `d`.
pub open spec fn step_row(d: int) -> int {
    if d == 0 || d == 2 { 1 } else if d == 1 { 0 } else { -1 }
}

/// Cell (`c`, `r`) lies on the grid and holds a token of `p`.
pub open spec fn owns(g: Seq<Seq<Cell>>, c: int, r: int, p: Player) -> bool {
    0 <= c < COLUMNS && 0 <= r < ROWS && g[c][r] == Cell::Owned(p)
}

/// Four cells of `p` in a line, starting at (`c`, `r`) and stepping in direction `d`.
pub open spec fn four_from(g: Seq<Seq<Cell>>, c: int, r: int, d: int, p: Player) -> bool {
    &&& 0 <= d < DIRECTIONS
    &&& owns(g, c, r, p)
    &&& owns(g, c + step_col(d), r + step_row(d), p)
    &&& owns(g, c + 2 * step_col(d), r + 2 * step_row(d), p)
    &&& owns(g, c + 3 * step_col(d), r + 3 * step_row(d), p)
}

/// `p` has four in a row somewhere on `g`.
pub open spec fn has_won(g: Seq<Seq<Cell>>, p: Player) -> bool {
    exists|c: int, r: int, d: int| #[trigger] four_from(g, c, r, d, p)
}

/// The outcome that the grid `g` shows.
pub open spec fn outcome_of(g: Seq<Seq<Cell>>) -> Outcome {
    if has_won(g, Player::PlayerOne) {
        Outcome::Won(Player::PlayerOne)
    } else if has_won(g, Player::PlayerTwo) {
        Outcome::Won(Player::PlayerTwo)
    } else if board_full(g) {
        Outcome::Draw
    } else {
        Outcome::InProgress
    }
}

/// The outcome depends on the board's contents alone: two boards with the same
/// cells, or one board read twice, show the same outcome.
pub proof fn lemma_outcome_depends_on_cells_only(a: &Board, b: &Board)
    requires
        a.wf(),
        b.wf(),
        a@ == b@,
    ensures
        outcome_of(a@) == outcome_of(b@),
{
}

fn owned_by(b: &Board, col: usize, row: usize, p: Player) -> (x: bool)
    requires
        b.wf(),
        col < COLUMNS,
        row < ROWS,
    ensures
        x == owns(b@, col as int, row as int, p),
{
    b.cell(col, row) == Cell::Owned(p)
}

/// Whether the run of four starting at (`col`, `row`) in direction `d` belongs to `p`.
fn four_at(b: &Board, col: usize, row: usize, d: usize, p: Player) -> (x: bool)
    requires
        b.wf(),
        col < COLUMNS,
        row < ROWS,
        d < DIRECTIONS,
    ensures
        x == four_from(b@, col as int, row as int, d as int, p),
{
    if d == 0 {
        row + 3 < ROWS && owned_by(b, col, row, p) && owned_by(b, col, row + 1, p)
            && owned_by(b, col, row + 2, p) && owned_by(b, col, row + 3, p)
    } else if d == 1 {
        col + 3 < COLUMNS && owned_by(b, col, row, p) && owned_by(b, col + 1, row, p)
            && owned_by(b, col + 2, row, p) && owned_by(b, col + 3, row, p)
    } else if d == 2 {
        col + 3 < COLUMNS && row + 3 < ROWS && owned_by(b, col, row, p)
            && owned_by(b, col + 1, row + 1, p) && owned_by(b, col + 2, row + 2, p)
            && owned_by(b, col + 3, row + 3, p)
    } else {
        col + 3 < COLUMNS && row >= 3 && owned_by(b, col, row, p)
            && owned_by(b, col + 1, row - 1, p) && owned_by(b, col + 2, row - 2, p)
            && owned_by(b, col + 3, row - 3, p)
    }
}

/// Whether `player` has four contiguous tokens vertically, horizontally or on
/// either diagonal.
pub fn game_won(board: &Board, player: Player) -> (won: bool)
    requires
        board.wf(),
    ensures
        won == has_won(board@, player),
{
    let mut col: usize = 0;
    while col < COLUMNS
        invariant
            board.wf(),
            col <= COLUMNS,
            forall|c: int, r: int, d: int|
                0 <= c < col ==> !#[trigger] four_from(board@, c, r, d, player),
        decreases COLUMNS - col,
    {
        let mut row: usize = 0;
        while row < ROWS
            invariant
                board.wf(),
                col < COLUMNS,
                row <= ROWS,
                forall|c: int, r: int, d: int|
                    (0 <= c < col || (c == col && 0 <= r < row))
                        ==> !#[trigger] four_from(board@, c, r, d, player),
            decreases ROWS - row,
        {
            let mut d: usize = 0;
            while d < DIRECTIONS
                invariant
                    board.wf(),
                    col < COLUMNS,
                    row < ROWS,
                    d <= DIRECTIONS,
                    forall|c: int, r: int, e: int|
                        (0 <= c < col || (c == col && 0 <= r < row) || (c == col && r == row
                            && 0 <= e < d)) ==> !#[trigger] four_from(board@, c, r, e, player),
                decreases DIRECTIONS - d,
            {
                if four_at(board, col, row, d, player) {
                    return true;
                }
                d = d + 1;
            }
            row = row + 1;
        }
        col = col + 1;
    }
    // A run starts on the grid, so the scan above met every run.
    assert forall|c: int, r: int, d: int| !#[trigger] four_from(board@, c, r, d, player) by {
        if four_from(board@, c, r, d, player) {
            assert(owns(board@, c, r, player));
        }
    }
    false
}

/// The outcome the board shows: a win of either player, else a draw when every
/// column is full, else a game still in progress.
pub fn game_finished(board: &Board) -> (o: Outcome)
    requires
        board.wf(),
    ensures
        o == outcome_of(board@),
{
    if game_won(board, Player::PlayerOne) {
        return Outcome::Won(Player::PlayerOne);
    }
    if game_won(board, Player::PlayerTwo) {
        return Outcome::Won(Player::PlayerTwo);
    }
    let mut col: usize = 0;
    while col < COLUMNS
        invariant
            board.wf(),
            col <= COLUMNS,
            !has_won(board@, Player::PlayerOne),
            !has_won(board@, Player::PlayerTwo),
            forall|c: int| 0 <= c < col ==> #[trigger] column_full(board@, c),
        decreases COLUMNS - col,
    {
        if board.is_column_empty(col) {
            assert(!column_full(board@, col as int));
            return Outcome::InProgress;
        }
        col = col + 1;
    }
    Outcome::Draw
}

} // verus!
