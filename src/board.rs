//! The grid of cells and its read-only queries.
use vstd::prelude::*;

verus! {

/// Number of columns of the grid.
pub const COLUMNS: usize = 7;

/// Number of rows of the grid; row 0 is the bottom.
pub const ROWS: usize = 6;

/// The two participants: the human and the automated opponent.
#[derive(Clone, Copy, Debug, PartialEq, Eq, Structural)]
pub enum Player {
    PlayerOne,
    PlayerTwo,
}

/// One position of the grid.
#[derive(Clone, Copy, Debug, PartialEq, Eq, Structural)]
pub enum Cell {
    Empty,
    Owned(Player),
}

/// Why a move was refused.
#[derive(Clone, Copy, Debug, PartialEq, Eq, Structural)]
pub enum MoveError {
    ColumnOutOfRange,
    GameAlreadyOver,
    ColumnFull,
}

/// A grid model has `COLUMNS` columns of `ROWS` cells each.
pub open spec fn has_dimensions(g: Seq<Seq<Cell>>) -> bool {
    &&& g.len() == COLUMNS
    &&& forall|c: int| 0 <= c < COLUMNS ==> (#[trigger] g[c]).len() == ROWS
}

/// No token floats: below an occupied cell every cell of its column is occupied.
pub open spec fn is_settled(g: Seq<Seq<Cell>>) -> bool {
    forall|c: int, lo: int, hi: int|
        0 <= c < COLUMNS && 0 <= lo < hi < ROWS && #[trigger] g[c][hi] != Cell::Empty
            ==> #[trigger] g[c][lo] != Cell::Empty
}

/// A grid that a sequence of gravity drops can produce.
pub open spec fn valid_grid(g: Seq<Seq<Cell>>) -> bool {
    has_dimensions(g) && is_settled(g)
}

/// The grid with every cell empty.
pub open spec fn empty_grid() -> Seq<Seq<Cell>> {
    Seq::new(COLUMNS as nat, |c: int| Seq::new(ROWS as nat, |r: int| Cell::Empty))
}

/// `r` is the first empty row of `column`, counting from the bottom.
pub open spec fn is_lowest_empty(column: Seq<Cell>, r: int) -> bool {
    &&& 0 <= r < column.len()
    &&& column[r] == Cell::Empty
    &&& forall|k: int| 0 <= k < r ==> #[trigger] column[k] != Cell::Empty
}

/// Column `c` of `g` has its top cell occupied.
pub open spec fn column_full(g: Seq<Seq<Cell>>, c: int) -> bool {
    g[c][ROWS - 1] != Cell::Empty
}

/// Every column of `g` is full.
pub open spec fn board_full(g: Seq<Seq<Cell>>) -> bool {
    forall|c: int| 0 <= c < COLUMNS ==> #[trigger] column_full(g, c)
}

/// The row on which a token dropped into column `c` comes to rest.
pub open spec fn landing_row(g: Seq<Seq<Cell>>, c: int) -> int {
    choose|r: int| is_lowest_empty(g[c], r)
}

/// The grid after `p` drops a token into the non-full column `c`.
pub open spec fn dropped(g: Seq<Seq<Cell>>, c: int, p: Player) -> Seq<Seq<Cell>> {
    g.update(c, g[c].update(landing_row(g, c), Cell::Owned(p)))
}

/// In a valid grid a column that is not full has exactly one lowest empty row.
pub proof fn lemma_lowest_empty_unique(g: Seq<Seq<Cell>>, c: int, r: int)
    requires
        valid_grid(g),
        0 <= c < COLUMNS,
        is_lowest_empty(g[c], r),
    ensures
        landing_row(g, c) == r,
        forall|s: int| #[trigger] is_lowest_empty(g[c], s) ==> s == r,
{
    assert forall|s: int| #[trigger] is_lowest_empty(g[c], s) implies s == r by {
        if s < r {
            assert(g[c][s] != Cell::Empty);
        } else if r < s {
            assert(g[c][r] != Cell::Empty);
        }
    }
    let w = landing_row(g, c);
    assert(is_lowest_empty(g[c], w));
}

/// Searching upwards from row `from` of a column whose top cell is empty meets
/// the lowest empty row.
proof fn lemma_find_lowest_empty(col: Seq<Cell>, from: int) -> (r: int)
    requires
        col.len() == ROWS,
        0 <= from < ROWS,
        col[ROWS - 1] == Cell::Empty,
        forall|k: int| 0 <= k < from ==> #[trigger] col[k] != Cell::Empty,
    ensures
        is_lowest_empty(col, r),
    decreases ROWS - from,
{
    if col[from] == Cell::Empty {
        from
    } else {
        lemma_find_lowest_empty(col, from + 1)
    }
}

/// In a valid grid a column is full exactly when it has no empty row left.
pub proof fn lemma_full_iff_no_empty(g: Seq<Seq<Cell>>, c: int)
    requires
        valid_grid(g),
        0 <= c < COLUMNS,
    ensures
        column_full(g, c) <==> forall|r: int| 0 <= r < ROWS ==> #[trigger] g[c][r] != Cell::Empty,
        !column_full(g, c) ==> is_lowest_empty(g[c], landing_row(g, c)),
{
    if !column_full(g, c) {
        let r = lemma_find_lowest_empty(g[c], 0);
        lemma_lowest_empty_unique(g, c, r);
    }
}

/// A token dropped into a column that is not full lands on the first empty row,
/// and the grid stays valid.
pub proof fn lemma_drop_keeps_valid(g: Seq<Seq<Cell>>, c: int, p: Player)
    requires
        valid_grid(g),
        0 <= c < COLUMNS,
        !column_full(g, c),
    ensures
        is_lowest_empty(g[c], landing_row(g, c)),
        valid_grid(dropped(g, c, p)),
{
    lemma_full_iff_no_empty(g, c);
    let g2 = dropped(g, c, p);
    let r = landing_row(g, c);
    assert forall|c2: int, lo: int, hi: int|
        0 <= c2 < COLUMNS && 0 <= lo < hi < ROWS && #[trigger] g2[c2][hi] != Cell::Empty
            implies #[trigger] g2[c2][lo] != Cell::Empty by {
        if c2 == c {
            if hi != r {
                assert(g[c][hi] != Cell::Empty);
                if lo != r {
                    assert(g[c][lo] != Cell::Empty);
                }
            }
        }
    }
}

/// Gravity is monotone: after a drop into column `c`, the column is either full
/// or its first empty row is exactly one above the one before.
pub proof fn lemma_drop_raises_landing_row(g: Seq<Seq<Cell>>, c: int, p: Player)
    requires
        valid_grid(g),
        0 <= c < COLUMNS,
        !column_full(g, c),
    ensures
        valid_grid(dropped(g, c, p)),
        column_full(dropped(g, c, p), c) <==> landing_row(g, c) == ROWS - 1,
        !column_full(dropped(g, c, p), c) ==> landing_row(dropped(g, c, p), c) == landing_row(g, c) + 1
            && landing_row(dropped(g, c, p), c) > landing_row(g, c),
{
    lemma_drop_keeps_valid(g, c, p);
    let g2 = dropped(g, c, p);
    let r = landing_row(g, c);
    if r + 1 < ROWS {
        assert(g2[c][r + 1] == Cell::Empty) by {
            assert(g[c][r + 1] == Cell::Empty);
        }
        assert(is_lowest_empty(g2[c], r + 1));
        lemma_lowest_empty_unique(g2, c, r + 1);
    }
}

/// The grid of `COLUMNS` by `ROWS` cells, stored column by column.
pub struct Board {
    cells: Vec<Cell>,
}

impl View for Board {
    type V = Seq<Seq<Cell>>;

    /// Column `c`, row `r` of the model is the stored cell `c * ROWS + r`.
    closed spec fn view(&self) -> Seq<Seq<Cell>> {
        Seq::new(
            COLUMNS as nat,
            |c: int| Seq::new(ROWS as nat, |r: int| self.cells@[c * ROWS + r]),
        )
    }
}

impl Board {
    pub closed spec fn storage_ok(&self) -> bool {
        self.cells@.len() == COLUMNS * ROWS
    }

    /// The board's invariant: the storage fits the grid and no token floats.
    pub open spec fn wf(&self) -> bool {
        self.storage_ok() && valid_grid(self@)
    }

    fn slot(col: usize, row: usize) -> (i: usize)
        requires
            col < COLUMNS,
            row < ROWS,
        ensures
            i == col * ROWS + row,
            i < COLUMNS * ROWS,
    {
        col * ROWS + row
    }

    /// An empty board.
    pub fn new() -> (b: Board)
        ensures
            b.wf(),
            b@ == empty_grid(),
    {
        let mut cells: Vec<Cell> = Vec::new();
        let mut i: usize = 0;
        while i < COLUMNS * ROWS
            invariant
                i <= COLUMNS * ROWS,
                cells@.len() == i,
                forall|k: int| 0 <= k < i ==> #[trigger] cells@[k] == Cell::Empty,
            decreases COLUMNS * ROWS - i,
        {
            cells.push(Cell::Empty);
            i = i + 1;
        }
        let b = Board { cells };
        assert(b@ =~~= empty_grid());
        b
    }

    /// The cell at column `col`, row `row`.
    pub fn cell(&self, col: usize, row: usize) -> (x: Cell)
        requires
            self.wf(),
            col < COLUMNS,
            row < ROWS,
        ensures
            x == self@[col as int][row as int],
    {
        self.cells[Board::slot(col, row)]
    }

    /// Whether column `col` still has room, i.e. its top cell is empty.
    pub fn is_column_empty(&self, col: usize) -> (b: bool)
        requires
            self.wf(),
            col < COLUMNS,
        ensures
            b == !column_full(self@, col as int),
    {
        self.cell(col, ROWS - 1) == Cell::Empty
    }

    /// Whether the top cell of column `col` is occupied; a column outside the
    /// grid is refused.
    pub fn is_column_full(&self, col: usize) -> (r: Result<bool, MoveError>)
        requires
            self.wf(),
        ensures
            col >= COLUMNS ==> r == Err::<bool, MoveError>(MoveError::ColumnOutOfRange),
            col < COLUMNS ==> r == Ok::<bool, MoveError>(column_full(self@, col as int)),
    {
        if col >= COLUMNS {
            Err(MoveError::ColumnOutOfRange)
        } else {
            Ok(!self.is_column_empty(col))
        }
    }

    /// The first empty row of column `col`, scanning from the bottom, or `None`
    /// when the column is full.
    pub fn lowest_empty_row(&self, col: usize) -> (r: Option<usize>)
        requires
            self.wf(),
            col < COLUMNS,
        ensures
            r is None <==> column_full(self@, col as int),
            r is None ==> forall|k: int| 0 <= k < ROWS ==> #[trigger] self@[col as int][k] != Cell::Empty,
            r matches Some(row) ==> is_lowest_empty(self@[col as int], row as int)
                && row == landing_row(self@, col as int),
    {
        proof {
            lemma_full_iff_no_empty(self@, col as int);
        }
        let mut row: usize = 0;
        while row < ROWS
            invariant
                self.wf(),
                col < COLUMNS,
                row <= ROWS,
                forall|k: int| 0 <= k < row ==> #[trigger] self@[col as int][k] != Cell::Empty,
            decreases ROWS - row,
        {
            if self.cell(col, row) == Cell::Empty {
                proof {
                    lemma_lowest_empty_unique(self@, col as int, row as int);
                }
                return Some(row);
            }
            row = row + 1;
        }
        None
    }

    /// Writes `p` into the lowest empty cell `row` of column `col`.
    pub(crate) fn put(&mut self, col: usize, row: usize, p: Player)
        requires
            old(self).wf(),
            col < COLUMNS,
            is_lowest_empty(old(self)@[col as int], row as int),
        ensures
            final(self).wf(),
            final(self)@ == dropped(old(self)@, col as int, p),
    {
        proof {
            lemma_lowest_empty_unique(self@, col as int, row as int);
            lemma_drop_keeps_valid(self@, col as int, p);
        }
        let i = Board::slot(col, row);
        self.cells.set(i, Cell::Owned(p));
        proof {
            assert(self@ =~~= dropped(old(self)@, col as int, p));
        }
    }

    /// Clears every cell.
    pub fn reset(&mut self)
        requires
            old(self).wf(),
        ensures
            final(self).wf(),
            final(self)@ == empty_grid(),
    {
        let mut i: usize = 0;
        while i < COLUMNS * ROWS
            invariant
                i <= COLUMNS * ROWS,
                self.cells@.len() == COLUMNS * ROWS,
                forall|k: int| 0 <= k < i ==> #[trigger] self.cells@[k] == Cell::Empty,
            decreases COLUMNS * ROWS - i,
        {
            self.cells.set(i, Cell::Empty);
            i = i + 1;
        }
        assert(self@ =~~= empty_grid());
    }

    /// A copy of the grid, one vector of `ROWS` cells per column.
    pub fn snapshot(&self) -> (s: Vec<Vec<Cell>>)
        requires
            self.wf(),
        ensures
            s@.len() == COLUMNS,
            forall|c: int| 0 <= c < COLUMNS ==> (#[trigger] s@[c])@ == self@[c],
    {
        let mut s: Vec<Vec<Cell>> = Vec::new();
        let mut col: usize = 0;
        while col < COLUMNS
            invariant
                self.wf(),
                col <= COLUMNS,
                s@.len() == col,
                forall|c: int| 0 <= c < col ==> (#[trigger] s@[c])@ == self@[c],
            decreases COLUMNS - col,
        {
            let mut column: Vec<Cell> = Vec::new();
            let mut row: usize = 0;
            while row < ROWS
                invariant
                    self.wf(),
                    col < COLUMNS,
                    row <= ROWS,
                    column@.len() == row,
                    forall|r: int| 0 <= r < row ==> #[trigger] column@[r] == self@[col as int][r],
                decreases ROWS - row,
            {
                column.push(self.cell(col, row));
                row = row + 1;
            }
            assert(column@ =~= self@[col as int]);
            s.push(column);
            col = col + 1;
        }
        s
    }
}

} // verus!
