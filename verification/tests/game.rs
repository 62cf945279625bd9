use tetris::block::Block;
use tetris::board::Board;
use tetris::game::{
    ActiveBlock, Game, Input, InputMove, InputMoveDirection, InputRotate, InputRotateDirection,
};
use tetris::geometry::{Position, RotateDirection};

#[test]
fn input_move_new() {
    assert_eq!(
        InputMove::new(InputMoveDirection::Left, 3),
        InputMove {
            direction: InputMoveDirection::Left,
            amount: 3
        }
    );
}

#[test]
fn input_rotate_new() {
    assert_eq!(
        InputRotate::new(InputRotateDirection::Left, 2),
        InputRotate {
            direction: InputRotateDirection::Left,
            amount: 2
        }
    );
}

#[test]
fn game_input() {
    let game = Game::new();
    assert_eq!(
        game.input(Input::Move(InputMove::new(InputMoveDirection::Left, 3))),
        Game::new()
    );

    let game = Game::from_parts(
        Board::new(),
        Some(ActiveBlock::new(Position::new(0, 0), Block::new_s())),
    );
    let expect = Game::from_parts(
        Board::new(),
        Some(ActiveBlock::new(Position::new(0, 0), Block::new_s())),
    );
    assert_eq!(
        game.input(Input::Move(InputMove::new(InputMoveDirection::Left, 3))),
        expect,
    );

    let game = Game::from_parts(
        Board::new(),
        Some(ActiveBlock::new(Position::new(0, 0), Block::new_s())),
    );
    let expect = Game::from_parts(
        Board::new(),
        Some(ActiveBlock::new(Position::new(7, 0), Block::new_s())),
    );
    assert_eq!(
        game.input(Input::Move(InputMove::new(InputMoveDirection::Right, 10))),
        expect,
    );

    let game = Game::from_parts(
        Board::new(),
        Some(ActiveBlock::new(Position::new(0, 0), Block::new_s())),
    );
    let expect = Game::from_parts(
        Board::new(),
        Some(ActiveBlock::new(Position::new(0, 18), Block::new_s())),
    );
    assert_eq!(
        game.input(Input::Move(InputMove::new(InputMoveDirection::Bottom, 20))),
        expect,
    );

    let game = Game::from_parts(
        Board::new(),
        Some(ActiveBlock::new(Position::new(0, 0), Block::new_s())),
    );
    let expect = Game::from_parts(
        Board::new(),
        Some(ActiveBlock::new(
            Position::new(0, 0),
            Block::new_s().rotate(RotateDirection::Left),
        )),
    );
    assert_eq!(
        game.input(Input::Rotate(InputRotate::new(
            InputRotateDirection::Left,
            1
        ))),
        expect,
    );
}

#[test]
fn display_game() {
    let board = Board::new();
    let board = board.set_block(
        &Position::new(0, 19),
        Block::new_i().rotate(RotateDirection::Left),
    );
    let board = board.set_block(
        &Position::new(4, 19),
        Block::new_i().rotate(RotateDirection::Left),
    );
    let game = Game::from_parts(
        board,
        Some(ActiveBlock {
            block: Block::new_s(),
            position: Position::new(4, 0),
        }),
    );

    assert_eq!(
        {
            let game = game.to_string();
            format!("{game}")
        },
        "
<! . . . . .[][] . . .!>
<! . . . .[][] . . . .!>
<! . . . . . . . . . .!>
<! . . . . . . . . . .!>
<! . . . . . . . . . .!>
<! . . . . . . . . . .!>
<! . . . . . . . . . .!>
<! . . . . . . . . . .!>
<! . . . . . . . . . .!>
<! . . . . . . . . . .!>
<! . . . . . . . . . .!>
<! . . . . . . . . . .!>
<! . . . . . . . . . .!>
<! . . . . . . . . . .!>
<! . . . . . . . . . .!>
<! . . . . . . . . . .!>
<! . . . . . . . . . .!>
<! . . . . . . . . . .!>
<! . . . . . . . . . .!>
<![][][][][][][][] . .!>
<!====================!>
  \\/\\/\\/\\/\\/\\/\\/\\/\\/\\/
"
        .trim(),
    );
}
