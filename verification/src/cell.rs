//! What one cell of a grid holds.

use vstd::prelude::*;
use vstd::string::*;

verus! {

/// The seven four-cell shapes. A cell keeps the shape it came from for
/// colouring only; no rule ever looks at it.
#[derive(Debug, Clone, Copy, PartialEq, Eq, Structural)]
pub enum Tetromino {
    /// A column of four cells.
    I,
    /// A square of two by two cells.
    O,
    /// A row of three cells with one cell below its middle.
    T,
    /// A column of three cells with one cell to the left of its foot.
    J,
    /// A column of three cells with one cell to the right of its foot.
    L,
    /// Two cells on top, shifted right over two cells below.
    S,
    /// Two cells on top, shifted left over two cells below.
    Z,
}

/// The state of one cell.
#[derive(Debug, Clone, Copy, PartialEq, Eq, Structural)]
pub enum State {
    Empty,
    Block(Tetromino),
}

impl Tetromino {
    /// The shape with the given number: 0 to 5 are I, O, T, J, L and S, and
    /// every other number is Z.
    pub open spec fn of_index(index: int) -> Tetromino {
        if index == 0 {
            Tetromino::I
        } else if index == 1 {
            Tetromino::O
        } else if index == 2 {
            Tetromino::T
        } else if index == 3 {
            Tetromino::J
        } else if index == 4 {
            Tetromino::L
        } else if index == 5 {
            Tetromino::S
        } else {
            Tetromino::Z
        }
    }

    /// Picks a shape by number, so that a number drawn evenly from 0 to 6
    /// gives each shape equally often.
    pub fn from_index(index: usize) -> (shape: Tetromino)
        ensures
            shape == Self::of_index(index as int),
    {
        match index {
            0 => Tetromino::I,
            1 => Tetromino::O,
            2 => Tetromino::T,
            3 => Tetromino::J,
            4 => Tetromino::L,
            5 => Tetromino::S,
            _ => Tetromino::Z,
        }
    }
}

impl State {
    /// Whether the cell is occupied.
    pub open spec fn filled(self) -> bool {
        self is Block
    }

    /// The occupancy weight of the cell: 1 when occupied, else 0.
    pub open spec fn weight(self) -> int {
        if self.filled() {
            1
        } else {
            0
        }
    }

    /// The two characters a cell is drawn with.
    pub open spec fn text(self) -> Seq<char> {
        if self.filled() {
            "[]"@
        } else {
            " ."@
        }
    }

    /// Whether the cell is occupied.
    pub fn is_block(&self) -> (b: bool)
        ensures
            b == self.filled(),
    {
        match self {
            State::Empty => false,
            State::Block(_) => true,
        }
    }

    /// The occupancy weight of the cell.
    pub fn to_weight(&self) -> (w: u8)
        ensures
            w == self.weight(),
    {
        match self {
            State::Empty => 0,
            State::Block(_) => 1,
        }
    }

    /// Draws the cell: `" ."` when empty, `"[]"` when occupied.
    pub fn to_string(&self) -> (s: String)
        ensures
            s@ == self.text(),
    {
        match self {
            State::Empty => String::from_str(" ."),
            State::Block(_) => String::from_str("[]"),
        }
    }
}

/// A copy of a run of cells.
pub fn copy_cells(cells: &Vec<State>) -> (copy: Vec<State>)
    ensures
        copy@ == cells@,
{
    let mut copy: Vec<State> = Vec::new();
    for i in 0..cells.len()
        invariant
            copy@.len() == i,
            forall|j: int| 0 <= j < i ==> copy@[j] == cells@[j],
    {
        copy.push(cells[i]);
    }
    assert(copy@ =~= cells@);
    copy
}

} // verus!
