use footbored::board::{apply_move, Board, Cell, MoveError, MoveOutcome};

fn cells(board: &Board) -> [[Cell; 3]; 3] {
    let mut out = [[Cell::Empty; 3]; 3];
    for x in 0..3 {
        for y in 0..3 {
            out[x][y] = board.get(x, y);
        }
    }
    out
}

fn line(c: &[[Cell; 3]; 3], mark: Cell) -> bool {
    let lines = [
        [(0, 0), (0, 1), (0, 2)],
        [(1, 0), (1, 1), (1, 2)],
        [(2, 0), (2, 1), (2, 2)],
        [(0, 0), (1, 0), (2, 0)],
        [(0, 1), (1, 1), (2, 1)],
        [(0, 2), (1, 2), (2, 2)],
        [(0, 0), (1, 1), (2, 2)],
        [(0, 2), (1, 1), (2, 0)],
    ];
    lines.iter().any(|l| l.iter().all(|&(x, y)| c[x][y] == mark))
}

fn scan(board: &Board) -> MoveOutcome {
    let c = cells(board);
    let winner = if line(&c, Cell::X) {
        Some(Cell::X)
    } else if line(&c, Cell::O) {
        Some(Cell::O)
    } else {
        None
    };
    let full = c.iter().all(|row| row.iter().all(|&v| v != Cell::Empty));
    MoveOutcome { winner, draw: winner.is_none() && full }
}

fn explore(board: Board, turn: Cell, visited: &mut u64) {
    for x in 0..3 {
        for y in 0..3 {
            if board.get(x, y) != Cell::Empty {
                continue;
            }
            let mut next = board;
            let outcome = apply_move(&mut next, turn, x, y).expect("an empty square takes a mark");
            assert_eq!(outcome, scan(&next));
            *visited += 1;
            if outcome.winner.is_none() && !outcome.draw {
                explore(next, turn.other(), visited);
            }
        }
    }
}

#[test]
fn local_check_agrees_with_full_scan_on_every_reachable_board() {
    let mut visited = 0u64;
    explore(Board::new(), Cell::X, &mut visited);
    assert_eq!(visited, 549_945);
}

#[test]
fn new_board_is_empty() {
    let board = Board::new();
    assert_eq!(cells(&board), [[Cell::Empty; 3]; 3]);
    assert!(!board.is_full());
}

#[test]
fn move_outside_the_grid_is_out_of_bounds() {
    let mut board = Board::new();
    assert_eq!(apply_move(&mut board, Cell::X, 3, 0), Err(MoveError::OutOfBounds));
    assert_eq!(apply_move(&mut board, Cell::X, 0, 3), Err(MoveError::OutOfBounds));
    assert_eq!(apply_move(&mut board, Cell::O, usize::MAX, usize::MAX), Err(MoveError::OutOfBounds));
    assert_eq!(cells(&board), [[Cell::Empty; 3]; 3]);
}

#[test]
fn move_onto_a_mark_is_cell_occupied() {
    let mut board = Board::new();
    assert_eq!(
        apply_move(&mut board, Cell::X, 1, 2),
        Ok(MoveOutcome { winner: None, draw: false })
    );
    let before = cells(&board);
    assert_eq!(apply_move(&mut board, Cell::O, 1, 2), Err(MoveError::CellOccupied));
    assert_eq!(apply_move(&mut board, Cell::X, 1, 2), Err(MoveError::CellOccupied));
    assert_eq!(cells(&board), before);
    assert_eq!(board.get(1, 2), Cell::X);
}

#[test]
fn move_writes_the_mark_at_row_x_column_y() {
    let mut board = Board::new();
    apply_move(&mut board, Cell::O, 2, 0).unwrap();
    let mut expected = [[Cell::Empty; 3]; 3];
    expected[2][0] = Cell::O;
    assert_eq!(cells(&board), expected);
}

fn play_all(moves: &[(usize, usize)]) -> (Board, Vec<MoveOutcome>) {
    let mut board = Board::new();
    let mut turn = Cell::X;
    let mut outcomes = Vec::new();
    for &(x, y) in moves {
        outcomes.push(apply_move(&mut board, turn, x, y).unwrap());
        turn = turn.other();
    }
    (board, outcomes)
}

#[test]
fn three_in_a_row_wins() {
    let (_, outcomes) = play_all(&[(0, 0), (1, 1), (0, 1), (2, 2), (0, 2)]);
    let quiet = MoveOutcome { winner: None, draw: false };
    assert_eq!(
        outcomes,
        vec![quiet, quiet, quiet, quiet, MoveOutcome { winner: Some(Cell::X), draw: false }]
    );
}

#[test]
fn three_in_a_column_wins() {
    let (_, outcomes) = play_all(&[(0, 0), (0, 1), (2, 2), (1, 1), (0, 2), (2, 1)]);
    assert_eq!(outcomes[5], MoveOutcome { winner: Some(Cell::O), draw: false });
    assert_eq!(outcomes[4], MoveOutcome { winner: None, draw: false });
}

#[test]
fn three_on_the_diagonal_wins() {
    let (_, outcomes) = play_all(&[(0, 0), (0, 1), (1, 1), (0, 2), (2, 2)]);
    assert_eq!(outcomes[4], MoveOutcome { winner: Some(Cell::X), draw: false });
}

#[test]
fn three_on_the_antidiagonal_wins() {
    let (_, outcomes) = play_all(&[(0, 2), (0, 0), (1, 1), (0, 1), (2, 0)]);
    assert_eq!(outcomes[4], MoveOutcome { winner: Some(Cell::X), draw: false });
}

#[test]
fn full_board_without_a_line_is_a_draw() {
    let (board, outcomes) =
        play_all(&[(0, 0), (0, 1), (0, 2), (1, 1), (1, 0), (1, 2), (2, 1), (2, 0), (2, 2)]);
    assert_eq!(outcomes[8], MoveOutcome { winner: None, draw: true });
    assert_eq!(outcomes[7], MoveOutcome { winner: None, draw: false });
    assert!(board.is_full());
}

#[test]
fn winning_move_on_the_last_square_is_no_draw() {
    let (board, outcomes) =
        play_all(&[(0, 0), (0, 1), (0, 2), (1, 0), (1, 2), (1, 1), (2, 1), (2, 2), (2, 0)]);
    assert!(board.is_full());
    assert_eq!(outcomes[8], MoveOutcome { winner: None, draw: true });
    let (full, last) =
        play_all(&[(0, 0), (0, 1), (1, 1), (0, 2), (1, 2), (1, 0), (2, 0), (2, 1), (2, 2)]);
    assert!(full.is_full());
    assert_eq!(last[8], MoveOutcome { winner: Some(Cell::X), draw: false });
}

#[test]
fn wins_at_looks_at_the_lines_through_the_square() {
    let (board, _) = play_all(&[(0, 0), (1, 0), (0, 1), (1, 1), (0, 2)]);
    assert!(board.wins_at(0, 1, Cell::X));
    assert!(!board.wins_at(1, 1, Cell::X));
    assert!(!board.wins_at(1, 1, Cell::O));
    assert!(!board.wins_at(2, 1, Cell::X));
}

#[test]
fn board_prints_rows_and_bars() {
    assert_eq!(Board::new().to_string(), " | | \n | | \n | | ");
    let (board, _) = play_all(&[(0, 0), (1, 1), (2, 2), (0, 1)]);
    assert_eq!(board.to_string(), "X|O| \n |O| \n | |X");
}

#[test]
fn cell_symbols_and_opponents() {
    assert_eq!(Cell::Empty.symbol(), " ");
    assert_eq!(Cell::X.symbol(), "X");
    assert_eq!(Cell::O.symbol(), "O");
    assert_eq!(Cell::X.other(), Cell::O);
    assert_eq!(Cell::O.other(), Cell::X);
    assert_eq!(Cell::Empty.other(), Cell::Empty);
}
