//! The game aggregate and the turn controller that drives it.
use vstd::prelude::*;
use crate::board::{
    Board, Cell, MoveError, Player, COLUMNS, ROWS, column_full, dropped, empty_grid, has_dimensions,
    valid_grid,
};
use crate::opponent::choose_column;
use crate::outcome::{Outcome, game_finished, outcome_of};

verus! {

/// Where the turn controller stands.
#[derive(Clone, Copy, Debug, PartialEq, Eq, Structural)]
pub enum Phase {
    AwaitingHumanMove,
    AwaitingAutomatedMove,
    Resolved(Outcome),
}

/// The mathematical model of a game.
pub struct GameView {
    pub grid: Seq<Seq<Cell>>,
    pub outcome: Outcome,
    pub turn: Player,
}

/// The model of a fresh game: empty grid, nobody has won, the human moves first.
pub open spec fn initial_view() -> GameView {
    GameView { grid: empty_grid(), outcome: Outcome::InProgress, turn: Player::PlayerOne }
}

/// The phase that a game model is in.
pub open spec fn phase_of(v: GameView) -> Phase {
    if v.outcome != Outcome::InProgress {
        Phase::Resolved(v.outcome)
    } else if v.turn == Player::PlayerOne {
        Phase::AwaitingHumanMove
    } else {
        Phase::AwaitingAutomatedMove
    }
}

/// Why a move into column `col` is refused, checked in this order: the column
/// lies off the grid, the game is over, the column is full.
pub open spec fn move_refusal(v: GameView, col: int) -> Option<MoveError> {
    if !(0 <= col < COLUMNS) {
        Some(MoveError::ColumnOutOfRange)
    } else if v.outcome != Outcome::InProgress {
        Some(MoveError::GameAlreadyOver)
    } else if column_full(v.grid, col) {
        Some(MoveError::ColumnFull)
    } else {
        None
    }
}

/// `after` is `before` with one token of the automated player dropped into a
/// column that had room.
pub open spec fn automated_reply(before: Seq<Seq<Cell>>, after: Seq<Seq<Cell>>) -> bool {
    exists|c: int|
        0 <= c < COLUMNS && !column_full(before, c) && #[trigger] dropped(before, c, Player::PlayerTwo)
            == after
}

/// A fresh or reset game shows a grid of `COLUMNS` by `ROWS` cells, all empty.
pub proof fn lemma_initial_grid_is_blank()
    ensures
        has_dimensions(initial_view().grid),
        valid_grid(initial_view().grid),
        forall|c: int, r: int|
            0 <= c < COLUMNS && 0 <= r < ROWS ==> #[trigger] initial_view().grid[c][r] == Cell::Empty,
        phase_of(initial_view()) == Phase::AwaitingHumanMove,
{
}

/// A running game: the board, the outcome last read off it, and whose turn it is.
pub struct Game {
    board: Board,
    outcome: Outcome,
    turn: Player,
}

impl View for Game {
    type V = GameView;

    closed spec fn view(&self) -> GameView {
        GameView { grid: self.board@, outcome: self.outcome, turn: self.turn }
    }
}

impl Game {
    pub closed spec fn board_ok(&self) -> bool {
        self.board.wf()
    }

    /// The game's invariant: its board is well formed.
    pub open spec fn wf(&self) -> bool {
        self.board_ok() && valid_grid(self@.grid)
    }

    /// A fresh game.
    pub fn new() -> (g: Game)
        ensures
            g.wf(),
            g@ == initial_view(),
    {
        Game { board: Board::new(), outcome: Outcome::InProgress, turn: Player::PlayerOne }
    }

    /// Drops a token of `player` into column `col`, after checking that the
    /// column is on the grid, that the game is in progress and that the column
    /// has room. Neither the outcome nor the turn changes.
    pub fn add_coin_to_column(&mut self, col: usize, player: Player) -> (r: Result<(), MoveError>)
        requires
            old(self).wf(),
        ensures
            final(self).wf(),
            match move_refusal(old(self)@, col as int) {
                Some(e) => r == Err::<(), MoveError>(e) && final(self)@ == old(self)@,
                None => r == Ok::<(), MoveError>(()) && final(self)@ == (GameView {
                    grid: dropped(old(self)@.grid, col as int, player),
                    ..old(self)@
                }),
            },
    {
        if col >= COLUMNS {
            return Err(MoveError::ColumnOutOfRange);
        }
        if self.outcome != Outcome::InProgress {
            return Err(MoveError::GameAlreadyOver);
        }
        match self.board.lowest_empty_row(col) {
            None => Err(MoveError::ColumnFull),
            Some(row) => {
                self.board.put(col, row, player);
                Ok(())
            },
        }
    }

    /// The automated player's turn, given the column it picked: that column
    /// is played and the outcome read off the board; with no column to play
    /// the game ends in a draw. The human moves next.
    pub fn apply_automated_move(&mut self, choice: Option<usize>)
        requires
            old(self).wf(),
            old(self)@.outcome == Outcome::InProgress,
            choice matches Some(c) ==> c < COLUMNS && !column_full(old(self)@.grid, c as int),
        ensures
            final(self).wf(),
            final(self)@.turn == Player::PlayerOne,
            choice matches Some(c) ==> final(self)@.grid == dropped(old(self)@.grid, c as int, Player::PlayerTwo)
                && final(self)@.outcome == outcome_of(final(self)@.grid),
            choice is None ==> final(self)@.grid == old(self)@.grid
                && final(self)@.outcome == Outcome::Draw,
    {
        match choice {
            Some(c) => {
                let placed = self.add_coin_to_column(c, Player::PlayerTwo);
                assert(placed is Ok);
                self.outcome = game_finished(&self.board);
            },
            None => {
                self.outcome = Outcome::Draw;
            },
        }
        self.turn = Player::PlayerOne;
    }

    /// The human plays column `col`; unless that ends the game, the automated
    /// player answers at once. Returns the outcome after both moves, or why
    /// the human's move was refused, in which case nothing changes.
    pub fn submit_human_move(&mut self, col: usize) -> (r: Result<Outcome, MoveError>)
        requires
            old(self).wf(),
        ensures
            final(self).wf(),
            match move_refusal(old(self)@, col as int) {
                Some(e) => r == Err::<Outcome, MoveError>(e) && final(self)@ == old(self)@,
                None => {
                    let g1 = dropped(old(self)@.grid, col as int, Player::PlayerOne);
                    &&& r == Ok::<Outcome, MoveError>(final(self)@.outcome)
                    &&& final(self)@.outcome == outcome_of(final(self)@.grid)
                    &&& final(self)@.turn == Player::PlayerOne
                    &&& outcome_of(g1) != Outcome::InProgress ==> final(self)@.grid == g1
                    &&& outcome_of(g1) == Outcome::InProgress ==> automated_reply(g1, final(self)@.grid)
                },
            },
    {
        let placed = self.add_coin_to_column(col, Player::PlayerOne);
        match placed {
            Err(e) => {
                return Err(e);
            },
            Ok(()) => {},
        }
        self.outcome = game_finished(&self.board);
        if self.outcome == Outcome::InProgress {
            self.turn = Player::PlayerTwo;
            let choice = choose_column(&self.board);
            self.apply_automated_move(choice);
        }
        self.turn = Player::PlayerOne;
        Ok(self.outcome)
    }

    /// Starts over: empty board, game in progress, the human to move.
    pub fn reset_game(&mut self)
        requires
            old(self).wf(),
        ensures
            final(self).wf(),
            final(self)@ == initial_view(),
    {
        self.board.reset();
        self.outcome = Outcome::InProgress;
        self.turn = Player::PlayerOne;
    }

    /// A copy of the grid, one vector of `ROWS` cells per column.
    pub fn current_board_snapshot(&self) -> (s: Vec<Vec<Cell>>)
        requires
            self.wf(),
        ensures
            s@.len() == COLUMNS,
            forall|c: int| 0 <= c < COLUMNS ==> (#[trigger] s@[c])@ == self@.grid[c],
    {
        self.board.snapshot()
    }

    /// The outcome after the last completed turn.
    pub fn current_outcome(&self) -> (o: Outcome)
        ensures
            o == self@.outcome,
    {
        self.outcome
    }

    /// Where the turn controller stands.
    pub fn phase(&self) -> (p: Phase)
        ensures
            p == phase_of(self@),
    {
        if self.outcome != Outcome::InProgress {
            Phase::Resolved(self.outcome)
        } else if self.turn == Player::PlayerOne {
            Phase::AwaitingHumanMove
        } else {
            Phase::AwaitingAutomatedMove
        }
    }

    /// Read access to the board.
    pub fn board(&self) -> (b: &Board)
        requires
            self.wf(),
        ensures
            b.wf(),
            b@ == self@.grid,
    {
        &self.board
    }
}

} // verus!
