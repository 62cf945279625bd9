use tetris::block::Block;
use tetris::board::Board;
use tetris::cell::{State, Tetromino};
use tetris::geometry::{Position, RotateDirection, Size};

/// A board from twenty rows of ten marks: `#` is an occupied cell.
fn board(rows: [&str; 20]) -> Board {
    let mut board = Board::new();
    for (y, row) in rows.iter().enumerate() {
        assert_eq!(row.len(), 10);
        for (x, mark) in row.bytes().enumerate() {
            if mark == b'#' {
                board = board.set_state(&Position::new(x, y), State::Block(Tetromino::T));
            }
        }
    }
    board
}

const FREE: &str = "..........";
const FULL: &str = "##########";

#[test]
fn board_new_is_empty() {
    let board = Board::new();
    assert_eq!(board.size, Size::new(10, 20));
    assert_eq!(board.source, vec![State::Empty; 200]);
}

#[test]
fn board_state_outside_is_empty() {
    let board = board([FULL; 20]);
    assert_eq!(board.state(&Position::new(9, 19)), State::Block(Tetromino::T));
    assert_eq!(board.state(&Position::new(10, 0)), State::Empty);
    assert_eq!(board.state(&Position::new(0, 20)), State::Empty);
    assert_eq!(board.state(&Position::new(usize::MAX, usize::MAX)), State::Empty);
}

#[test]
fn set_state_outside_changes_nothing() {
    let board = Board::new().set_state(&Position::new(10, 3), State::Block(Tetromino::I));
    assert_eq!(board, Board::new());
    let board = Board::new().set_state(&Position::new(3, 20), State::Block(Tetromino::I));
    assert_eq!(board, Board::new());
}

#[test]
fn set_block_writes_occupied_cells_only() {
    let under = board([
        FREE, FREE, FREE, FREE, FREE, FREE, FREE, FREE, FREE, FREE, FREE, FREE, FREE, FREE, FREE,
        FREE, FREE, FREE, "#.........", "#.##......",
    ]);
    // the S has empty cells at its upper left and lower right corners
    let merged = under.clone().set_block(&Position::new(0, 18), Block::new_s());
    for y in 0..20 {
        for x in 0..10 {
            let p = Position::new(x, y);
            let of_piece = if x < 3 && y >= 18 {
                Block::new_s().state(&Position::new(x, y - 18))
            } else {
                State::Empty
            };
            let expected = if of_piece != State::Empty { of_piece } else { under.state(&p) };
            assert_eq!(merged.state(&p), expected);
        }
    }
    assert_eq!(merged.state(&Position::new(0, 18)), State::Block(Tetromino::T));
    assert_eq!(merged.state(&Position::new(1, 18)), State::Block(Tetromino::S));
    assert_eq!(merged.state(&Position::new(0, 19)), State::Block(Tetromino::S));
    assert_eq!(merged.state(&Position::new(2, 19)), State::Block(Tetromino::T));
    assert_eq!(merged.state(&Position::new(3, 19)), State::Block(Tetromino::T));
}

#[test]
fn remove_valid_rows_without_a_full_row() {
    let before = board([
        FREE, FREE, FREE, FREE, FREE, FREE, FREE, FREE, FREE, FREE, FREE, FREE, FREE, FREE, FREE,
        FREE, FREE, "#########.", ".#########", "####.#####",
    ]);
    assert_eq!(before.clone().remove_valid_rows(), (before, 0));
    assert_eq!(Board::new().remove_valid_rows(), (Board::new(), 0));
}

#[test]
fn remove_valid_rows_takes_out_one_row() {
    let before = board([
        FREE, FREE, FREE, FREE, FREE, FREE, FREE, FREE, FREE, FREE, FREE, FREE, FREE, FREE, FREE,
        "#.........", ".#........", FULL, "..#.......", "...#......",
    ]);
    let after = board([
        FREE, FREE, FREE, FREE, FREE, FREE, FREE, FREE, FREE, FREE, FREE, FREE, FREE, FREE, FREE,
        FREE, "#.........", ".#........", "..#.......", "...#......",
    ]);
    assert_eq!(before.remove_valid_rows(), (after, 1));
}

#[test]
fn remove_valid_rows_takes_out_the_top_row() {
    let before = board([
        FULL, "#.........", FREE, FREE, FREE, FREE, FREE, FREE, FREE, FREE, FREE, FREE, FREE, FREE,
        FREE, FREE, FREE, FREE, FREE, ".........#",
    ]);
    let after = board([
        FREE, "#.........", FREE, FREE, FREE, FREE, FREE, FREE, FREE, FREE, FREE, FREE, FREE, FREE,
        FREE, FREE, FREE, FREE, FREE, ".........#",
    ]);
    assert_eq!(before.remove_valid_rows(), (after, 1));
}

#[test]
fn remove_valid_rows_takes_out_rows_that_lie_apart() {
    let before = board([
        FREE, FREE, FREE, FREE, FREE, FREE, FREE, FREE, FREE, FREE, FREE, FREE, FREE, "#.........",
        FULL, ".#........", "..#.......", FULL, FULL, "...#......",
    ]);
    let after = board([
        FREE, FREE, FREE, FREE, FREE, FREE, FREE, FREE, FREE, FREE, FREE, FREE, FREE, FREE, FREE,
        FREE, "#.........", ".#........", "..#.......", "...#......",
    ]);
    assert_eq!(before.remove_valid_rows(), (after, 3));
}

#[test]
fn remove_valid_rows_takes_out_every_row() {
    assert_eq!(board([FULL; 20]).remove_valid_rows(), (Board::new(), 20));
}

#[test]
fn remove_valid_rows_keeps_the_shapes_of_the_cells() {
    let mut before = Board::new();
    for x in 0..10 {
        before = before.set_state(&Position::new(x, 19), State::Block(Tetromino::O));
    }
    before = before.set_state(&Position::new(4, 18), State::Block(Tetromino::J));
    before = before.set_state(&Position::new(5, 17), State::Block(Tetromino::L));
    let (after, count) = before.remove_valid_rows();
    assert_eq!(count, 1);
    assert_eq!(after.state(&Position::new(4, 19)), State::Block(Tetromino::J));
    assert_eq!(after.state(&Position::new(5, 18)), State::Block(Tetromino::L));
    assert_eq!(after.state(&Position::new(5, 17)), State::Empty);
    assert_eq!(after.state(&Position::new(4, 18)), State::Empty);
}

#[test]
fn row_is_full_and_drop_row() {
    let before = board([
        FREE, FREE, FREE, FREE, FREE, FREE, FREE, FREE, FREE, FREE, FREE, FREE, FREE, FREE, FREE,
        FREE, "#.........", ".#........", FULL, "...#......",
    ]);
    assert_eq!(before.row_is_full(18), true);
    assert_eq!(before.row_is_full(17), false);
    assert_eq!(before.row_is_full(0), false);
    // a row that is not full can be taken out as well
    let after = board([
        FREE, FREE, FREE, FREE, FREE, FREE, FREE, FREE, FREE, FREE, FREE, FREE, FREE, FREE, FREE,
        FREE, FREE, "#.........", FULL, "...#......",
    ]);
    assert_eq!(before.drop_row(17), after);
}

#[test]
fn board_text_of_an_empty_board() {
    let mut expect = String::new();
    for _ in 0..20 {
        expect += "<! . . . . . . . . . .!>\n";
    }
    expect += "<!====================!>\n";
    expect += "  \\/\\/\\/\\/\\/\\/\\/\\/\\/\\/";
    assert_eq!(Board::new().to_string(), expect);
}

#[test]
fn board_weight_is_one_for_each_occupied_cell() {
    let board = Board::new().set_block(
        &Position::new(3, 4),
        Block::new_l().rotate(RotateDirection::Right),
    );
    let weight = board.weight();
    assert_eq!(weight.size, board.size);
    let mut ones = 0;
    for i in 0..200 {
        assert_eq!(weight.source[i], if board.source[i] == State::Empty { 0 } else { 1 });
        ones += weight.source[i];
    }
    assert_eq!(ones, 4);
}

#[test]
fn board_clone_is_equal() {
    let board = board([FULL; 20]);
    assert_eq!(board.clone(), board);
}
