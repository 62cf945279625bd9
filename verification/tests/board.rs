use tetris::block::Block;
use tetris::board::Board;
use tetris::cell::{State, Tetromino};
use tetris::geometry::{Position, RotateDirection};
use tetris::weight::Weight;

#[test]
fn board_state() {
    let board = Board::new();
    let board = board.set_state(&Position::new(9, 19), State::Block(Tetromino::Z));
    let board = board.set_state(&Position::new(9, 20), State::Block(Tetromino::Z));
    assert_eq!(board.state(&Position::new(9, 18)), State::Empty);
    assert_eq!(
        board.state(&Position::new(9, 19)),
        State::Block(Tetromino::Z)
    );
    assert_eq!(board.state(&Position::new(9, 20)), State::Empty,);
}

#[test]
fn board_weight() {
    let mut board = Board::new();
    for x in 0..10 {
        board = board.set_state(&Position::new(x, 19), State::Block(Tetromino::O));
    }

    let mut source = Vec::with_capacity(board.source.len());
    for i in 0..board.source.len() {
        source.push(match board.source[i] {
            State::Empty => 0,
            State::Block(_) => 1,
        });
    }

    assert_eq!(board.weight(), Weight::new(board.size, source,));
}

#[test]
fn board_can_change() {
    let mut board = Board::new();
    for x in 0..10 {
        board = board.set_state(&Position::new(x, 19), State::Block(Tetromino::O));
    }
    let board = board;

    // [].
    // [][]
    // . []
    let block = Block::new_s().rotate(RotateDirection::Left);

    assert_eq!(board.can_change(&Position::new(8, 16), &block), true);
    assert_eq!(board.can_change(&Position::new(9, 16), &block), false);
    assert_eq!(board.can_change(&Position::new(8, 17), &block), false);
}

#[test]
fn board_remove_valid_rows() {
    let board = Board::new();
    let board = board.set_block(&Position::new(0, 18), Block::new_o());
    let board = board.set_block(&Position::new(2, 18), Block::new_o());
    let board = board.set_block(&Position::new(4, 18), Block::new_o());
    let board = board.set_block(&Position::new(6, 18), Block::new_o());
    let board = board.set_block(&Position::new(8, 18), Block::new_o());

    assert_eq!(board.remove_valid_rows(), (Board::new(), 2));
}

#[test]
fn display_board() {
    let board = Board::new();
    let board = board.set_block(&Position::new(4, 0), Block::new_s());
    assert_eq!(
        {
            let board = board.to_string();
            format!("{board}")
        },
        "
<! . . . . .[][] . . .!>
<! . . . .[][] . . . .!>
<! . . . . . . . . . .!>
<! . . . . . . . . . .!>
<! . . . . . . . . . .!>
<! . . . . . . . . . .!>
<! . . . . . . . . . .!>
<! . . . . . . . . . .!>
<! . . . . . . . . . .!>
<! . . . . . . . . . .!>
<! . . . . . . . . . .!>
<! . . . . . . . . . .!>
<! . . . . . . . . . .!>
<! . . . . . . . . . .!>
<! . . . . . . . . . .!>
<! . . . . . . . . . .!>
<! . . . . . . . . . .!>
<! . . . . . . . . . .!>
<! . . . . . . . . . .!>
<! . . . . . . . . . .!>
<!====================!>
  \\/\\/\\/\\/\\/\\/\\/\\/\\/\\/
"
        .trim(),
    );
}
