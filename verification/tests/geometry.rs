use tetris::geometry::{MoveDirection, Position, RotateDirection, Size};

#[test]
fn size_new() {
    let size = Size::new(10, 20);
    assert_eq!(size, Size { x: 10, y: 20 });
}

#[test]
fn size_on_inside() {
    let size = Size::new(3, 2);
    assert_eq!(size.on_inside(&Position::new(2, 1)), true);
    assert_eq!(size.on_inside(&Position::new(3, 1)), false);
    assert_eq!(size.on_inside(&Position::new(2, 2)), false);
}

#[test]
fn size_len() {
    assert_eq!(Size::new(3, 2).len(), 6);
}

#[test]
fn size_rotate_swaps_columns_and_rows() {
    assert_eq!(Size::new(3, 2).rotate(), Size { x: 2, y: 3 });
    assert_eq!(Size::new(3, 2).rotate().rotate(), Size::new(3, 2));
}

#[test]
fn position_new() {
    let p = Position::new(2, 3);
    assert_eq!(p, Position { x: 2, y: 3 });
}

#[test]
fn position_move() {
    let p = Position::new(3, 3);
    assert_eq!(p.moved(&MoveDirection::Left), Position::new(2, 3));
    assert_eq!(p.moved(&MoveDirection::Right), Position::new(4, 3));
    assert_eq!(p.moved(&MoveDirection::Bottom), Position::new(3, 4));
}

#[test]
fn position_move_up() {
    let p = Position::new(3, 3);
    assert_eq!(p.moved(&MoveDirection::Top), Position::new(3, 2));
}

#[test]
fn position_move_stops_at_the_origin() {
    let p = Position::new(0, 0);
    assert_eq!(p.moved(&MoveDirection::Left), Position::new(0, 0));
    assert_eq!(p.moved(&MoveDirection::Top), Position::new(0, 0));
    assert_eq!(p.move_x(&MoveDirection::Left), 0);
    assert_eq!(p.move_y(&MoveDirection::Top), 0);
    assert_eq!(p.move_x(&MoveDirection::Right), 1);
    assert_eq!(p.move_y(&MoveDirection::Bottom), 1);
    assert_eq!(p.move_x(&MoveDirection::Bottom), 0);
    assert_eq!(p.move_y(&MoveDirection::Right), 0);
}

#[test]
fn position_rotate() {}

#[test]
fn position_rotate_by_the_formulas() {
    let size = Size::new(2, 3);
    let p = Position::new(1, 2);
    // left: (row, width - column - 1)
    assert_eq!(p.rotate(&size, &RotateDirection::Left), Position::new(2, 0));
    // right: (height - row - 1, column)
    assert_eq!(p.rotate(&size, &RotateDirection::Right), Position::new(0, 1));
}

#[test]
fn position_rotate_there_and_back() {
    let size = Size::new(2, 3);
    for y in 0..3 {
        for x in 0..2 {
            let p = Position::new(x, y);
            let left = p.rotate(&size, &RotateDirection::Left);
            assert_eq!(left.rotate(&size.rotate(), &RotateDirection::Right), p);
            let right = p.rotate(&size, &RotateDirection::Right);
            assert_eq!(right.rotate(&size.rotate(), &RotateDirection::Left), p);
        }
    }
}

#[test]
fn position_index() {
    let index = Position::new(2, 3).index(&Size::new(10, 10));
    assert_eq!(index, 32);
}

#[test]
fn position_sub() {
    let p = Position::new(2, 3).sub(&Position::new(1, 2));
    assert_eq!(p, Position::new(1, 1));
}
