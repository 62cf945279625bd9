use tetris::block::Block;
use tetris::board::Board;
use tetris::cell::{State, Tetromino};
use tetris::geometry::{Position, RotateDirection, Size};
use tetris::weight::Weight;

fn striped(size: Size) -> Weight {
    let mut source = Vec::new();
    for i in 0..size.x * size.y {
        source.push(if i % 3 == 0 { 1 } else { 0 });
    }
    Weight::new(size, source)
}

#[test]
fn overlap_is_defined_exactly_inside() {
    let a = striped(Size::new(10, 20));
    for y in 0..24 {
        for x in 0..14 {
            let b = Weight::new(Size::new(2, 3), vec![1, 0, 1, 1, 0, 1]);
            let inside = x + 2 <= 10 && y + 3 <= 20;
            assert_eq!(a.on_inside(&Position::new(x, y), &b), inside);
            assert_eq!(a.overlap(&Position::new(x, y), b).is_ok(), inside);
        }
    }
}

#[test]
fn overlap_outside_is_the_error() {
    let a = striped(Size::new(4, 4));
    let b = Weight::new(Size::new(2, 2), vec![1, 1, 1, 1]);
    assert_eq!(a.overlap(&Position::new(3, 0), b), Err(()));
    let b = Weight::new(Size::new(2, 2), vec![1, 1, 1, 1]);
    assert_eq!(a.overlap(&Position::new(0, 3), b), Err(()));
    let b = Weight::new(Size::new(5, 1), vec![0, 0, 0, 0, 0]);
    assert_eq!(a.overlap(&Position::new(0, 0), b), Err(()));
}

#[test]
fn overlap_is_not_stopped_by_large_extents() {
    let a = striped(Size::new(4, 4));
    let b = Weight::new(Size::new(usize::MAX, 1), vec![]);
    assert_eq!(a.on_inside(&Position::new(2, 0), &b), false);
    let b = Weight::new(Size::new(1, 1), vec![1]);
    assert_eq!(a.on_inside(&Position::new(usize::MAX, usize::MAX), &b), false);
}

#[test]
fn overlap_adds_cell_by_cell() {
    let a = striped(Size::new(5, 4));
    let p = Position::new(2, 1);
    let b = Weight::new(Size::new(3, 2), vec![1, 0, 1, 0, 1, 1]);
    let sum = a.overlap(&p, b).unwrap();
    let b = Weight::new(Size::new(3, 2), vec![1, 0, 1, 0, 1, 1]);
    assert_eq!(sum.size, Size::new(5, 4));
    for y in 0..4 {
        for x in 0..5 {
            let under = a.weight(Position::new(x, y));
            let over = if x >= 2 && x < 5 && y >= 1 && y < 3 {
                b.weight(Position::new(x - 2, y - 1))
            } else {
                0
            };
            assert_eq!(sum.weight(Position::new(x, y)), under + over);
        }
    }
    // 0 + 1, 1 + 0, 1 + 1
    assert_eq!(sum.weight(Position::new(2, 1)), 1);
    assert_eq!(sum.weight(Position::new(4, 1)), 2);
    assert_eq!(sum.weight(Position::new(3, 2)), 1);
    assert_eq!(sum.weight(Position::new(0, 0)), 1);
    assert_eq!(sum.weight(Position::new(1, 0)), 0);
}

#[test]
fn overlap_leaves_the_grids_as_they_were() {
    let a = striped(Size::new(5, 4));
    let b = Weight::new(Size::new(1, 1), vec![1]);
    let _ = a.overlap(&Position::new(0, 0), b);
    assert_eq!(a, striped(Size::new(5, 4)));
}

#[test]
fn add_weight_changes_one_cell() {
    let mut a = Weight::new(Size::new(3, 2), vec![0, 1, 0, 1, 0, 1]);
    a.add_weight(Position::new(2, 1), 1);
    assert_eq!(a, Weight::new(Size::new(3, 2), vec![0, 1, 0, 1, 0, 2]));
    a.add_weight(Position::new(0, 0), 1);
    assert_eq!(a, Weight::new(Size::new(3, 2), vec![1, 1, 0, 1, 0, 2]));
}

#[test]
fn valid_means_no_cell_above_one() {
    assert_eq!(Weight::new(Size::new(2, 2), vec![0, 1, 1, 0]).valid(), true);
    assert_eq!(Weight::new(Size::new(2, 2), vec![1, 1, 1, 1]).valid(), true);
    assert_eq!(Weight::new(Size::new(2, 2), vec![0, 0, 0, 2]).valid(), false);
    assert_eq!(Weight::new(Size::new(2, 2), vec![2, 0, 0, 0]).valid(), false);
    assert_eq!(Weight::new(Size::new(0, 0), vec![]).valid(), true);
}

#[test]
fn can_change_is_overlap_and_valid() {
    let mut board = Board::new();
    for x in 0..10 {
        if x % 2 == 0 {
            board = board.set_state(&Position::new(x, 10), State::Block(Tetromino::T));
        }
    }
    let blocks = [
        Block::new_i(),
        Block::new_o(),
        Block::new_t(),
        Block::new_j(),
        Block::new_l(),
        Block::new_s(),
        Block::new_z(),
        Block::new_t().rotate(RotateDirection::Left),
        Block::new_j().rotate(RotateDirection::Right),
    ];
    for block in &blocks {
        for y in 0..22 {
            for x in 0..12 {
                let p = Position::new(x, y);
                let expected = match board.weight().overlap(&p, block.weight()) {
                    Ok(sum) => sum.valid(),
                    Err(()) => false,
                };
                assert_eq!(board.can_change(&p, block), expected);
                let mut free = p.x + block.size.x <= 10 && p.y + block.size.y <= 20;
                for by in 0..block.size.y {
                    for bx in 0..block.size.x {
                        let on_board = board.state(&Position::new(x + bx, y + by));
                        let on_block = block.state(&Position::new(bx, by));
                        if on_board != State::Empty && on_block != State::Empty {
                            free = false;
                        }
                    }
                }
                assert_eq!(board.can_change(&p, block), free);
            }
        }
    }
}

#[test]
fn can_change_beside_and_on_a_locked_cell() {
    let board = Board::new().set_state(&Position::new(1, 1), State::Block(Tetromino::I));
    // the T has an empty cell at its lower left corner
    assert_eq!(board.can_change(&Position::new(1, 0), &Block::new_t()), true);
    assert_eq!(board.can_change(&Position::new(0, 0), &Block::new_t()), false);
    assert_eq!(board.can_change(&Position::new(0, 1), &Block::new_t()), false);
    assert_eq!(board.can_change(&Position::new(2, 1), &Block::new_t()), true);
}
