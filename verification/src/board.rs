//! The rules of the three-by-three grid: which squares a mark may take, and
//! when a placement wins or draws the game.

use vstd::prelude::*;
use vstd::string::*;

verus! {

/// The content of one square of the grid.
#[derive(Clone, Copy, Debug, PartialEq, Eq, Structural)]
pub enum Cell {
    Empty,
    X,
    O,
}

/// Why a placement was refused.
#[derive(Clone, Copy, Debug, PartialEq, Eq, Structural)]
pub enum MoveError {
    /// The row or the column is 3 or more.
    OutOfBounds,
    /// The targeted square already holds a mark.
    CellOccupied,
}

/// What a placement led to.
#[derive(Clone, Copy, Debug, PartialEq, Eq, Structural)]
pub struct MoveOutcome {
    pub winner: Option<Cell>,
    pub draw: bool,
}

/// The mathematical model of a board: three rows of three squares.
pub type Grid = Seq<Seq<Cell>>;

/// The side length of the grid.
pub const SIZE: usize = 3;

pub open spec fn is_grid(g: Grid) -> bool {
    &&& g.len() == 3
    &&& g[0].len() == 3
    &&& g[1].len() == 3
    &&& g[2].len() == 3
}

pub open spec fn empty_grid() -> Grid {
    Seq::new(3, |r: int| Seq::new(3, |c: int| Cell::Empty))
}

/// The grid `g` with `mark` written at row `x`, column `y`.
pub open spec fn place(g: Grid, x: int, y: int, mark: Cell) -> Grid {
    g.update(x, g[x].update(y, mark))
}

pub open spec fn row_of(g: Grid, r: int, mark: Cell) -> bool {
    g[r][0] == mark && g[r][1] == mark && g[r][2] == mark
}

pub open spec fn column_of(g: Grid, c: int, mark: Cell) -> bool {
    g[0][c] == mark && g[1][c] == mark && g[2][c] == mark
}

pub open spec fn diagonal_of(g: Grid, mark: Cell) -> bool {
    g[0][0] == mark && g[1][1] == mark && g[2][2] == mark
}

pub open spec fn antidiagonal_of(g: Grid, mark: Cell) -> bool {
    g[0][2] == mark && g[1][1] == mark && g[2][0] == mark
}

/// Some row, column or diagonal of `g` holds `mark` three times: the
/// exhaustive scan over all eight lines.
pub open spec fn has_line(g: Grid, mark: Cell) -> bool {
    ||| row_of(g, 0, mark)
    ||| row_of(g, 1, mark)
    ||| row_of(g, 2, mark)
    ||| column_of(g, 0, mark)
    ||| column_of(g, 1, mark)
    ||| column_of(g, 2, mark)
    ||| diagonal_of(g, mark)
    ||| antidiagonal_of(g, mark)
}

/// Neither player has three in a line.
pub open spec fn no_line(g: Grid) -> bool {
    !has_line(g, Cell::X) && !has_line(g, Cell::O)
}

pub open spec fn is_full(g: Grid) -> bool {
    forall|r: int, c: int| 0 <= r < 3 && 0 <= c < 3 ==> (#[trigger] g[r][c]) != Cell::Empty
}

pub open spec fn mark_count(c: Cell) -> nat {
    if c == Cell::Empty {
        0
    } else {
        1
    }
}

pub open spec fn row_filled(g: Grid, r: int) -> nat {
    mark_count(g[r][0]) + mark_count(g[r][1]) + mark_count(g[r][2])
}

/// The number of squares of `g` that hold a mark.
pub open spec fn filled(g: Grid) -> nat {
    row_filled(g, 0) + row_filled(g, 1) + row_filled(g, 2)
}

/// The winner that a scan of the whole grid finds.
pub open spec fn scan_winner(g: Grid) -> Option<Cell> {
    if has_line(g, Cell::X) {
        Some(Cell::X)
    } else if has_line(g, Cell::O) {
        Some(Cell::O)
    } else {
        None
    }
}

/// The draw that a scan of the whole grid finds.
pub open spec fn scan_draw(g: Grid) -> bool {
    no_line(g) && is_full(g)
}

/// How many of the first `n` of the squares `a`, `b`, `c` hold `mark`.
pub open spec fn tally(a: Cell, b: Cell, c: Cell, mark: Cell, n: int) -> int {
    (if 0 < n && a == mark {
        1int
    } else {
        0
    }) + (if 1 < n && b == mark {
        1int
    } else {
        0
    }) + (if 2 < n && c == mark {
        1int
    } else {
        0
    })
}

pub open spec fn on_diagonal(x: int, y: int) -> bool {
    x == y || x + y == 2
}

/// The check that looks only at the lines through the square just
/// taken: its row, its column and, where it lies on a diagonal, both
/// diagonals.
pub open spec fn wins_at(g: Grid, x: int, y: int, mark: Cell) -> bool {
    ||| row_of(g, x, mark)
    ||| column_of(g, y, mark)
    ||| (on_diagonal(x, y) && (diagonal_of(g, mark) || antidiagonal_of(g, mark)))
}

/// The refusal, if any, that meets a placement at `(x, y)` on `g`.
pub open spec fn move_error(g: Grid, x: int, y: int) -> Option<MoveError> {
    if x >= 3 || y >= 3 {
        Some(MoveError::OutOfBounds)
    } else if g[x][y] != Cell::Empty {
        Some(MoveError::CellOccupied)
    } else {
        None
    }
}

/// What the check through `(x, y)` reports on `g`, a grid on which `mark`
/// has just been placed there.
pub open spec fn outcome_at(g: Grid, x: int, y: int, mark: Cell) -> MoveOutcome {
    if wins_at(g, x, y, mark) {
        MoveOutcome { winner: Some(mark), draw: false }
    } else {
        MoveOutcome { winner: None, draw: is_full(g) }
    }
}

/// The result that `apply_move` owes for every grid, mark and target.
pub open spec fn move_result(g: Grid, mark: Cell, x: int, y: int) -> Result<
    MoveOutcome,
    MoveError,
> {
    match move_error(g, x, y) {
        Some(e) => Err(e),
        None => Ok(outcome_at(place(g, x, y, mark), x, y, mark)),
    }
}

/// The grid that `apply_move` leaves behind.
pub open spec fn grid_after(g: Grid, mark: Cell, x: int, y: int) -> Grid {
    if move_error(g, x, y) is None {
        place(g, x, y, mark)
    } else {
        g
    }
}

/// One row of a printed board: its squares with `|` between them.
pub open spec fn row_text(g: Grid, r: int) -> Seq<char> {
    seq![g[r][0].glyph(), '|', g[r][1].glyph(), '|', g[r][2].glyph()]
}

/// The printed board: its rows with a line feed between them.
pub open spec fn board_text(g: Grid) -> Seq<char> {
    row_text(g, 0) + seq!['\n'] + row_text(g, 1) + seq!['\n'] + row_text(g, 2)
}

impl Cell {
    pub open spec fn is_mark(self) -> bool {
        self != Cell::Empty
    }

    /// The mark of the other player; `Empty` has none.
    pub open spec fn opponent(self) -> Cell {
        match self {
            Cell::X => Cell::O,
            Cell::O => Cell::X,
            Cell::Empty => Cell::Empty,
        }
    }

    /// The character that stands for this square in a printed board.
    pub open spec fn glyph(self) -> char {
        match self {
            Cell::Empty => ' ',
            Cell::X => 'X',
            Cell::O => 'O',
        }
    }

    pub fn other(self) -> (r: Cell)
        ensures
            r == self.opponent(),
    {
        match self {
            Cell::X => Cell::O,
            Cell::O => Cell::X,
            Cell::Empty => Cell::Empty,
        }
    }

    /// The printed form of the square: `" "`, `"X"` or `"O"`.
    pub fn symbol(self) -> (s: &'static str)
        ensures
            s@ == seq![self.glyph()],
    {
        proof {
            reveal_strlit(" ");
            reveal_strlit("X");
            reveal_strlit("O");
        }
        let s = match self {
            Cell::Empty => " ",
            Cell::X => "X",
            Cell::O => "O",
        };
        assert(s@ =~= seq![self.glyph()]);
        s
    }
}

/// A three-by-three board.
#[derive(Clone, Copy, Debug)]
pub struct Board {
    cells: [[Cell; 3]; 3],
}

impl View for Board {
    type V = Grid;

    closed spec fn view(&self) -> Grid {
        Seq::new(3, |r: int| Seq::new(3, |c: int| self.cells[r][c]))
    }
}

impl Board {
    /// Every board is three by three.
    pub proof fn lemma_shape(&self)
        ensures
            is_grid(self@),
    {
    }

    /// The board with no mark on it.
    pub fn new() -> (b: Board)
        ensures
            b@ == empty_grid(),
    {
        let b = Board { cells: [[Cell::Empty; 3]; 3] };
        assert(b@ =~~= empty_grid());
        b
    }

    /// The content of the square at row `x`, column `y`.
    pub fn get(&self, x: usize, y: usize) -> (v: Cell)
        requires
            x < 3,
            y < 3,
        ensures
            v == self@[x as int][y as int],
    {
        self.cells[x][y]
    }

    fn set(&mut self, x: usize, y: usize, mark: Cell)
        requires
            x < 3,
            y < 3,
        ensures
            final(self)@ == place(old(self)@, x as int, y as int, mark),
    {
        self.cells[x][y] = mark;
        assert(self@ =~~= place(old(self)@, x as int, y as int, mark));
    }

    fn append_row(&self, text: &mut String, r: usize)
        requires
            r < 3,
        ensures
            final(text)@ == old(text)@ + row_text(self@, r as int),
    {
        proof {
            reveal_strlit("|");
        }
        text.append(self.cells[r][0].symbol());
        text.append("|");
        text.append(self.cells[r][1].symbol());
        text.append("|");
        text.append(self.cells[r][2].symbol());
        assert(text@ =~= old(text)@ + row_text(self@, r as int));
    }

    /// The printed board: `X`, `O` or a space for each square, `|` between
    /// the squares of a row and a line feed between the rows.
    pub fn to_string(&self) -> (text: String)
        ensures
            text@ == board_text(self@),
    {
        proof {
            reveal_strlit("\n");
        }
        let mut text = String::new();
        self.append_row(&mut text, 0);
        text.append("\n");
        self.append_row(&mut text, 1);
        text.append("\n");
        self.append_row(&mut text, 2);
        assert(text@ =~= board_text(self@));
        text
    }

    /// Whether no square is empty.
    pub fn is_full(&self) -> (full: bool)
        ensures
            full == is_full(self@),
    {
        let mut i: usize = 0;
        while i < SIZE
            invariant
                i <= 3,
                forall|r: int, c: int| 0 <= r < i && 0 <= c < 3 ==> (#[trigger] self@[r][c]) != Cell::Empty,
            decreases 3 - i,
        {
            let mut j: usize = 0;
            while j < SIZE
                invariant
                    i < 3,
                    j <= 3,
                    forall|r: int, c: int| 0 <= r < i && 0 <= c < 3 ==> (#[trigger] self@[r][c]) != Cell::Empty,
                    forall|c: int| 0 <= c < j ==> (#[trigger] self@[i as int][c]) != Cell::Empty,
                decreases 3 - j,
            {
                if self.cells[i][j] == Cell::Empty {
                    assert(self@[i as int][j as int] == Cell::Empty);
                    return false;
                }
                j += 1;
            }
            i += 1;
        }
        true
    }

    /// Counts `mark` along the row and the column of `(x, y)` and along
    /// both diagonals, and reports whether a line through `(x, y)` is
    /// complete.
    pub fn wins_at(&self, x: usize, y: usize, mark: Cell) -> (won: bool)
        requires
            x < 3,
            y < 3,
        ensures
            won == wins_at(self@, x as int, y as int, mark),
    {
        let mut row: usize = 0;
        let mut col: usize = 0;
        let mut diag1: usize = 0;
        let mut diag2: usize = 0;
        let ghost g = self@;
        let mut i: usize = 0;
        while i < SIZE
            invariant
                x < 3,
                y < 3,
                i <= 3,
                g == self@,
                row == tally(g[x as int][0], g[x as int][1], g[x as int][2], mark, i as int),
                col == tally(g[0][y as int], g[1][y as int], g[2][y as int], mark, i as int),
                diag1 == tally(g[0][0], g[1][1], g[2][2], mark, i as int),
                diag2 == tally(g[0][2], g[1][1], g[2][0], mark, i as int),
            decreases 3 - i,
        {
            if self.cells[x][i] == mark {
                row += 1;
            }
            if self.cells[i][y] == mark {
                col += 1;
            }
            if self.cells[i][i] == mark {
                diag1 += 1;
            }
            if self.cells[i][SIZE - i - 1] == mark {
                diag2 += 1;
            }
            i += 1;
        }
        let diagonal = x == y || x + y == SIZE - 1;
        row == SIZE || col == SIZE || (diagonal && (diag1 == SIZE || diag2 == SIZE))
    }
}

/// Places `turn`'s mark at row `x`, column `y` and reports what came of it.
///
/// The placement is refused, and the board left as it was, when the target
/// lies outside the grid or is taken. Otherwise the square takes the mark
/// and the outcome says whether a line through it is now complete, or
/// else whether the board is full. On a board that held no complete line
/// before, that outcome is the one a scan of the whole board gives.
pub fn apply_move(board: &mut Board, turn: Cell, x: usize, y: usize) -> (r: Result<
    MoveOutcome,
    MoveError,
>)
    requires
        turn.is_mark(),
    ensures
        r == move_result(old(board)@, turn, x as int, y as int),
        final(board)@ == grid_after(old(board)@, turn, x as int, y as int),
        r is Err ==> final(board)@ == old(board)@,
        r is Ok && no_line(old(board)@) ==> {
            &&& r->Ok_0.winner == scan_winner(final(board)@)
            &&& r->Ok_0.draw == scan_draw(final(board)@)
        },
{
    if x >= SIZE || y >= SIZE {
        return Err(MoveError::OutOfBounds);
    }
    if board.get(x, y) != Cell::Empty {
        return Err(MoveError::CellOccupied);
    }
    board.set(x, y, turn);
    proof {
        if no_line(old(board)@) {
            old(board).lemma_shape();
            lemma_local_check_is_scan(old(board)@, turn, x as int, y as int);
        }
    }
    if board.wins_at(x, y, turn) {
        Ok(MoveOutcome { winner: Some(turn), draw: false })
    } else {
        let full = board.is_full();
        Ok(MoveOutcome { winner: None, draw: full })
    }
}

/// On a grid without a complete line, placing a mark on an empty square
/// can complete only lines of that mark through that square: the check
/// through the square and the scan of the whole grid agree.
pub proof fn lemma_local_check_is_scan(g: Grid, mark: Cell, x: int, y: int)
    requires
        is_grid(g),
        mark.is_mark(),
        0 <= x < 3,
        0 <= y < 3,
        g[x][y] == Cell::Empty,
        no_line(g),
    ensures
        outcome_at(place(g, x, y, mark), x, y, mark).winner == scan_winner(place(g, x, y, mark)),
        outcome_at(place(g, x, y, mark), x, y, mark).draw == scan_draw(place(g, x, y, mark)),
{
    let h = place(g, x, y, mark);
    assert forall|r: int, c: int| 0 <= r < 3 && 0 <= c < 3 implies #[trigger] h[r][c] == (if r == x
        && c == y {
        mark
    } else {
        g[r][c]
    }) by {}
    assert(has_line(h, mark) <==> wins_at(h, x, y, mark));
    assert(!has_line(h, mark.opponent()));
}

} // verus!
