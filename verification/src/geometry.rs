//! Extents, coordinates and the moves and quarter turns of a coordinate.

use vstd::prelude::*;

verus! {

/// The extent of a grid: `x` columns by `y` rows.
#[derive(Debug, PartialEq, Eq, Structural, Clone, Copy)]
pub struct Size {
    pub x: usize,
    pub y: usize,
}

/// The four unit steps.
#[derive(Debug, PartialEq, Eq, Structural, Clone, Copy)]
pub enum MoveDirection {
    Left,
    Right,
    Top,
    Bottom,
}

/// The two quarter turns.
#[derive(Debug, PartialEq, Eq, Structural, Clone, Copy)]
pub enum RotateDirection {
    Left,
    Right,
}

/// A cell of a grid: column `x`, row `y`, counted from the top left corner.
#[derive(Debug, PartialEq, Eq, Structural, Clone, Copy)]
pub struct Position {
    pub x: usize,
    pub y: usize,
}

impl RotateDirection {
    /// The turn that undoes this one.
    pub open spec fn opposite(self) -> RotateDirection {
        match self {
            RotateDirection::Left => RotateDirection::Right,
            RotateDirection::Right => RotateDirection::Left,
        }
    }
}

impl Size {
    /// The number of cells.
    pub open spec fn area(self) -> int {
        self.x * self.y
    }

    /// The extent with columns and rows exchanged.
    pub open spec fn transposed(self) -> Size {
        Size { x: self.y, y: self.x }
    }

    /// Whether `p` lies inside: its column and its row are both in range.
    pub open spec fn contains(self, p: Position) -> bool {
        p.x < self.x && p.y < self.y
    }

    /// The extent of `x` columns by `y` rows.
    pub fn new(x: usize, y: usize) -> (size: Self)
        ensures
            size == (Size { x, y }),
    {
        Size { x, y }
    }

    /// The extent of a shape after a quarter turn.
    pub fn rotate(&self) -> (size: Self)
        ensures
            size == self.transposed(),
    {
        Self::new(self.y, self.x)
    }

    /// Whether `p` lies inside: its column and its row are both in range.
    pub fn on_inside(&self, p: &Position) -> (inside: bool)
        ensures
            inside == self.contains(*p),
    {
        p.x < self.x && p.y < self.y
    }

    /// The number of cells.
    pub fn len(&self) -> (n: usize)
        requires
            self.area() <= usize::MAX,
        ensures
            n == self.area(),
    {
        self.x * self.y
    }
}

/// A cell inside an extent has a linear index inside the extent's area.
pub proof fn lemma_index_in_area(width: int, height: int, x: int, y: int)
    requires
        0 <= x < width,
        0 <= y < height,
    ensures
        0 <= width * y + x < width * height,
        width * y + x < width * (y + 1) <= width * height,
{
    assert(width * (y + 1) == width * y + width) by (nonlinear_arith);
    assert(width * (y + 1) <= width * height) by (nonlinear_arith)
        requires
            y + 1 <= height,
            0 <= width,
    ;
    assert(0 <= width * y) by (nonlinear_arith)
        requires
            0 <= y,
            0 <= width,
    ;
}

/// Two cells inside an extent with the same linear index are the same cell.
pub proof fn lemma_index_injective(width: int, x1: int, y1: int, x2: int, y2: int)
    requires
        0 <= x1 < width,
        0 <= x2 < width,
        width * y1 + x1 == width * y2 + x2,
    ensures
        x1 == x2,
        y1 == y2,
{
    if y1 < y2 {
        assert(width * (y1 + 1) <= width * y2) by (nonlinear_arith)
            requires
                y1 + 1 <= y2,
                0 <= width,
        ;
        assert(width * (y1 + 1) == width * y1 + width) by (nonlinear_arith);
    } else if y2 < y1 {
        assert(width * (y2 + 1) <= width * y1) by (nonlinear_arith)
            requires
                y2 + 1 <= y1,
                0 <= width,
        ;
        assert(width * (y2 + 1) == width * y2 + width) by (nonlinear_arith);
    }
}

impl Position {
    /// The column after one step: a step to the left stops at column 0.
    pub open spec fn moved_x(self, direction: MoveDirection) -> int {
        match direction {
            MoveDirection::Left => if self.x > 0 {
                self.x - 1
            } else {
                0
            },
            MoveDirection::Right => self.x + 1,
            _ => self.x as int,
        }
    }

    /// The row after one step: a step up stops at row 0.
    pub open spec fn moved_y(self, direction: MoveDirection) -> int {
        match direction {
            MoveDirection::Top => if self.y > 0 {
                self.y - 1
            } else {
                0
            },
            MoveDirection::Bottom => self.y + 1,
            _ => self.y as int,
        }
    }

    /// Whether one step in `direction` stays within the machine's integers.
    pub open spec fn can_step(self, direction: MoveDirection) -> bool {
        self.moved_x(direction) <= usize::MAX && self.moved_y(direction) <= usize::MAX
    }

    /// The cell one step away.
    pub open spec fn stepped(self, direction: MoveDirection) -> Position {
        Position { x: self.moved_x(direction) as usize, y: self.moved_y(direction) as usize }
    }

    /// Where a quarter turn of a shape of extent `size` takes this cell, in
    /// the coordinates of the turned shape.
    pub open spec fn turned(self, size: Size, direction: RotateDirection) -> Position {
        match direction {
            RotateDirection::Left => Position { x: self.y, y: (size.x - self.x - 1) as usize },
            RotateDirection::Right => Position { x: (size.y - self.y - 1) as usize, y: self.x },
        }
    }

    /// The linear index of the cell in a row-major grid of extent `size`.
    pub open spec fn offset(self, size: Size) -> int {
        size.x * self.y + self.x
    }

    /// The cell in column `x`, row `y`.
    pub fn new(x: usize, y: usize) -> (p: Self)
        ensures
            p == (Position { x, y }),
    {
        Self { x, y }
    }

    /// The column after one step: a step to the left stops at column 0.
    pub fn move_x(&self, direction: &MoveDirection) -> (x: usize)
        requires
            self.moved_x(*direction) <= usize::MAX,
        ensures
            x == self.moved_x(*direction),
    {
        match direction {
            MoveDirection::Left => {
                if self.x > 0 {
                    self.x - 1
                } else {
                    self.x
                }
            },
            MoveDirection::Right => self.x + 1,
            _ => self.x,
        }
    }

    /// The row after one step: a step up stops at row 0.
    pub fn move_y(&self, direction: &MoveDirection) -> (y: usize)
        requires
            self.moved_y(*direction) <= usize::MAX,
        ensures
            y == self.moved_y(*direction),
    {
        match direction {
            MoveDirection::Top => {
                if self.y > 0 {
                    self.y - 1
                } else {
                    self.y
                }
            },
            MoveDirection::Bottom => self.y + 1,
            _ => self.y,
        }
    }

    /// One step in `direction`. Steps to the left and up stop at 0; steps to
    /// the right and down are not held back here.
    pub fn moved(&self, direction: &MoveDirection) -> (p: Self)
        requires
            self.can_step(*direction),
        ensures
            p == self.stepped(*direction),
    {
        Self::new(self.move_x(direction), self.move_y(direction))
    }

    /// Where a quarter turn of a shape of extent `size` takes this cell: to the
    /// left to column `y`, row `width - x - 1`; to the right to column
    /// `height - y - 1`, row `x`.
    pub fn rotate(&self, size: &Size, direction: &RotateDirection) -> (p: Position)
        requires
            size.contains(*self),
        ensures
            p == self.turned(*size, *direction),
            size.transposed().contains(p),
    {
        match direction {
            RotateDirection::Left => Position::new(self.y, size.x - self.x - 1),
            RotateDirection::Right => Position::new(size.y - self.y - 1, self.x),
        }
    }

    /// The linear index of the cell in a row-major grid of extent `size`:
    /// `width * y + x`.
    pub fn index(&self, size: &Size) -> (i: usize)
        requires
            self.offset(*size) <= usize::MAX,
        ensures
            i == self.offset(*size),
    {
        assert(size.x * self.y <= self.offset(*size));
        size.x * self.y + self.x
    }

    /// The cell `self` as seen from `other`: the difference in columns and in
    /// rows.
    pub fn sub(&self, other: &Self) -> (p: Self)
        requires
            other.x <= self.x,
            other.y <= self.y,
        ensures
            p.x == self.x - other.x,
            p.y == self.y - other.y,
    {
        Self::new(self.x - other.x, self.y - other.y)
    }
}

/// Turning a cell one way and then the other way brings it back.
pub proof fn lemma_cell_turn_back(p: Position, size: Size, direction: RotateDirection)
    requires
        size.contains(p),
    ensures
        p.turned(size, direction).turned(size.transposed(), direction.opposite()) == p,
{
}

} // verus!
