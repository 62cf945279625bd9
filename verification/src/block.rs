//! The pieces: the seven tetrominoes, each a small grid of cells, with their
//! quarter turns.

use vstd::prelude::*;
use vstd::string::*;
use rand::Rng;
use crate::cell::{copy_cells, State, Tetromino};
use crate::geometry::{
    lemma_index_in_area,
    lemma_index_injective,
    Position,
    RotateDirection,
    Size,
};
use crate::grid::{cells_text, lines_text, Grid};
use crate::weight::Weight;

verus! {

/// A piece in one of its orientations: the cells of its bounding box, row by
/// row.
#[derive(Debug, PartialEq)]
pub struct Block {
    pub size: Size,
    pub source: Vec<State>,
}

impl View for Block {
    type V = Grid;

    open spec fn view(&self) -> Grid {
        Grid { size: self.size, cells: self.source@ }
    }
}

impl Clone for Block {
    fn clone(&self) -> (block: Self)
        ensures
            block@ == self@,
    {
        Self { size: self.size, source: copy_cells(&self.source) }
    }
}

/// Draws a number below `bound` from the thread's random number generator.
///
/// This is `rand::Rng::gen_range` on `rand::thread_rng()` with the range
/// `0..bound`. The range must not be empty. All that is claimed of the
/// number is that it lies in the range; which one it is differs from call to
/// call.
#[verifier::external_body]
fn random_below(bound: usize) -> (n: usize)
    requires
        bound > 0,
    ensures
        n < bound,
{
    rand::thread_rng().gen_range(0..bound)
}

/// The column and row of the cell that a quarter turn of a piece of extent
/// `size` brings to column `x`, row `y`.
spec fn turned_from(size: Size, direction: RotateDirection, x: int, y: int) -> (int, int) {
    match direction {
        RotateDirection::Left => (size.x - 1 - y, x),
        RotateDirection::Right => (y, size.y - 1 - x),
    }
}

impl Block {
    /// There is one cell for each cell of the bounding box.
    pub open spec fn wf(&self) -> bool {
        self@.wf()
    }

    /// The bounding box is at most four cells wide and four cells high, and
    /// exactly four cells are occupied.
    pub open spec fn is_piece(&self) -> bool {
        self@.is_piece()
    }

    /// A piece of a shape drawn at random, as it is first made.
    pub fn new() -> (block: Self)
        ensures
            block.is_piece(),
            exists|shape: Tetromino| block@ == Grid::canonical(shape),
    {
        let shape = Tetromino::from_index(random_below(7));
        Self::from_tetromino(shape)
    }

    /// The piece of the given shape, as it is first made.
    pub fn from_tetromino(shape: Tetromino) -> (block: Self)
        ensures
            block.is_piece(),
            block@ == Grid::canonical(shape),
    {
        match shape {
            Tetromino::I => Block::new_i(),
            Tetromino::O => Block::new_o(),
            Tetromino::T => Block::new_t(),
            Tetromino::J => Block::new_j(),
            Tetromino::L => Block::new_l(),
            Tetromino::S => Block::new_s(),
            Tetromino::Z => Block::new_z(),
        }
    }

    /// The I: a column of four cells.
    pub fn new_i() -> (block: Self)
        ensures
            block.is_piece(),
            block@ == Grid::canonical(Tetromino::I),
    {
        proof {
            Grid::lemma_canonical_piece(Tetromino::I);
        }
        let size = Size::new(1, 4);
        let source = vec![
            State::Block(Tetromino::I),
            State::Block(Tetromino::I),
            State::Block(Tetromino::I),
            State::Block(Tetromino::I),
        ];
        assert(source@ =~= Grid::canonical_cells(Tetromino::I));
        Self { size, source }
    }

    /// The O: a square of two by two cells.
    pub fn new_o() -> (block: Self)
        ensures
            block.is_piece(),
            block@ == Grid::canonical(Tetromino::O),
    {
        proof {
            Grid::lemma_canonical_piece(Tetromino::O);
        }
        let size = Size::new(2, 2);
        let source = vec![
            State::Block(Tetromino::O),
            State::Block(Tetromino::O),
            State::Block(Tetromino::O),
            State::Block(Tetromino::O),
        ];
        assert(source@ =~= Grid::canonical_cells(Tetromino::O));
        Self { size, source }
    }

    /// The T: a row of three cells with one cell below its middle.
    pub fn new_t() -> (block: Self)
        ensures
            block.is_piece(),
            block@ == Grid::canonical(Tetromino::T),
    {
        proof {
            Grid::lemma_canonical_piece(Tetromino::T);
        }
        let size = Size::new(3, 2);
        let source = vec![
            State::Block(Tetromino::T),
            State::Block(Tetromino::T),
            State::Block(Tetromino::T),
            State::Empty,
            State::Block(Tetromino::T),
            State::Empty,
        ];
        assert(source@ =~= Grid::canonical_cells(Tetromino::T));
        Self { size, source }
    }

    /// The J: a column of three cells with one cell to the left of its foot.
    pub fn new_j() -> (block: Self)
        ensures
            block.is_piece(),
            block@ == Grid::canonical(Tetromino::J),
    {
        proof {
            Grid::lemma_canonical_piece(Tetromino::J);
        }
        let size = Size::new(2, 3);
        let source = vec![
            State::Empty,
            State::Block(Tetromino::J),
            State::Empty,
            State::Block(Tetromino::J),
            State::Block(Tetromino::J),
            State::Block(Tetromino::J),
        ];
        assert(source@ =~= Grid::canonical_cells(Tetromino::J));
        Self { size, source }
    }

    /// The L: a column of three cells with one cell to the right of its foot.
    pub fn new_l() -> (block: Self)
        ensures
            block.is_piece(),
            block@ == Grid::canonical(Tetromino::L),
    {
        proof {
            Grid::lemma_canonical_piece(Tetromino::L);
        }
        let size = Size::new(2, 3);
        let source = vec![
            State::Block(Tetromino::L),
            State::Empty,
            State::Block(Tetromino::L),
            State::Empty,
            State::Block(Tetromino::L),
            State::Block(Tetromino::L),
        ];
        assert(source@ =~= Grid::canonical_cells(Tetromino::L));
        Self { size, source }
    }

    /// The S: two cells on top, shifted right over two cells below.
    pub fn new_s() -> (block: Self)
        ensures
            block.is_piece(),
            block@ == Grid::canonical(Tetromino::S),
    {
        proof {
            Grid::lemma_canonical_piece(Tetromino::S);
        }
        let size = Size::new(3, 2);
        let source = vec![
            State::Empty,
            State::Block(Tetromino::S),
            State::Block(Tetromino::S),
            State::Block(Tetromino::S),
            State::Block(Tetromino::S),
            State::Empty,
        ];
        assert(source@ =~= Grid::canonical_cells(Tetromino::S));
        Self { size, source }
    }

    /// The Z: two cells on top, shifted left over two cells below.
    pub fn new_z() -> (block: Self)
        ensures
            block.is_piece(),
            block@ == Grid::canonical(Tetromino::Z),
    {
        proof {
            Grid::lemma_canonical_piece(Tetromino::Z);
        }
        let size = Size::new(3, 2);
        let source = vec![
            State::Block(Tetromino::Z),
            State::Block(Tetromino::Z),
            State::Empty,
            State::Empty,
            State::Block(Tetromino::Z),
            State::Block(Tetromino::Z),
        ];
        assert(source@ =~= Grid::canonical_cells(Tetromino::Z));
        Self { size, source }
    }

    /// The piece after a quarter turn: the bounding box is transposed and
    /// each cell goes where the turn takes it.
    pub fn rotate(self, direction: RotateDirection) -> (block: Self)
        requires
            self.wf(),
        ensures
            block.wf(),
            block@ == self@.turned(direction),
            self.is_piece() ==> block.is_piece(),
    {
        proof {
            if self.is_piece() {
                self@.lemma_turned_piece(direction);
            }
        }
        let size = self.size.rotate();
        assert(size.area() == self.size.area()) by (nonlinear_arith)
            requires
                size == self.size.transposed(),
        ;
        assert(self.source@.len() == self.source.len());
        let n = size.len();
        let mut source: Vec<State> = Vec::new();
        for i in 0..n
            invariant
                source@.len() == i,
                forall|j: int| 0 <= j < i ==> source@[j] == State::Empty,
        {
            source.push(State::Empty);
        }
        let width = self.size.x;
        let height = self.size.y;
        let ghost from = self@;
        assert forall|cx: int, cy: int| #[trigger]
            (Grid { size, cells: source@ }).at(cx, cy) == State::Empty by {
            if 0 <= cx < size.x && 0 <= cy < size.y {
                lemma_index_in_area(size.x as int, size.y as int, cx, cy);
            }
        }
        for y in 0..height
            invariant
                self.wf(),
                from == self@,
                width == self.size.x,
                height == self.size.y,
                size == self.size.transposed(),
                source@.len() == size.area(),
                size.area() <= usize::MAX,
                forall|cx: int, cy: int|
                    0 <= cx < size.x && 0 <= cy < size.y ==> #[trigger] (Grid {
                        size,
                        cells: source@,
                    }).at(cx, cy) == (if turned_from(self.size, direction, cx, cy).1 < y {
                        from.turned_at(direction, cx, cy)
                    } else {
                        State::Empty
                    }),
        {
            for x in 0..width
                invariant
                    self.wf(),
                    from == self@,
                    width == self.size.x,
                    height == self.size.y,
                    y < height,
                    size == self.size.transposed(),
                    source@.len() == size.area(),
                    size.area() <= usize::MAX,
                    forall|cx: int, cy: int|
                        0 <= cx < size.x && 0 <= cy < size.y ==> #[trigger] (Grid {
                            size,
                            cells: source@,
                        }).at(cx, cy) == (if turned_from(self.size, direction, cx, cy).1 < y || (
                        turned_from(self.size, direction, cx, cy).1 == y && turned_from(
                            self.size,
                            direction,
                            cx,
                            cy,
                        ).0 < x) {
                            from.turned_at(direction, cx, cy)
                        } else {
                            State::Empty
                        }),
            {
                let p = Position::new(x, y);
                let q = p.rotate(&self.size, &direction);
                let state = self.state(&p);
                proof {
                    lemma_index_in_area(size.x as int, size.y as int, q.x as int, q.y as int);
                }
                let i = q.index(&size);
                let ghost before = Grid { size, cells: source@ };
                source.set(i, state);
                proof {
                    assert forall|cx: int, cy: int|
                        0 <= cx < size.x && 0 <= cy < size.y implies #[trigger] (Grid {
                        size,
                        cells: source@,
                    }).at(cx, cy) == (if turned_from(self.size, direction, cx, cy).1 < y || (
                    turned_from(self.size, direction, cx, cy).1 == y && turned_from(
                        self.size,
                        direction,
                        cx,
                        cy,
                    ).0 < x + 1) {
                        from.turned_at(direction, cx, cy)
                    } else {
                        State::Empty
                    }) by {
                        lemma_index_in_area(size.x as int, size.y as int, cx, cy);
                        assert(before.at(cx, cy) == before.cells[size.x * cy + cx]);
                        if size.x * cy + cx == i {
                            lemma_index_injective(size.x as int, cx, cy, q.x as int, q.y as int);
                        }
                    }
                }
            }
        }
        let block = Self { size, source };
        proof {
            from.lemma_turned(direction);
            block@.lemma_equal(from.turned(direction));
        }
        block
    }

    /// The occupancy weights of the piece: 1 for an occupied cell, else 0.
    pub fn weight(&self) -> (weight: Weight)
        ensures
            weight.size == self.size,
            weight.source@ == self@.weights(),
    {
        let mut source: Vec<u8> = Vec::new();
        for i in 0..self.source.len()
            invariant
                source@.len() == i,
                forall|j: int| 0 <= j < i ==> source@[j] == self@.weights()[j],
        {
            source.push(self.source[i].to_weight());
        }
        assert(source@ =~= self@.weights());
        Weight::new(self.size, source)
    }

    /// The cell at `p`; outside the bounding box it is empty.
    pub fn state(&self, p: &Position) -> (state: State)
        requires
            self.wf(),
        ensures
            state == self@.at(p.x as int, p.y as int),
    {
        if self.size.on_inside(p) {
            proof {
                lemma_index_in_area(self.size.x as int, self.size.y as int, p.x as int, p.y as int);
                assert(self.source@.len() == self.source.len());
            }
            self.source[p.index(&self.size)]
        } else {
            State::Empty
        }
    }

    /// Draws the piece: its rows from top to bottom, each cell as `[]` or
    /// ` .`, with a line break between rows.
    pub fn to_string(&self) -> (text: String)
        requires
            self.wf(),
        ensures
            text@ == self@.lines(),
    {
        let mut text = String::new();
        for y in 0..self.size.y
            invariant
                self.wf(),
                text@ == lines_text(self@.cell_fn(), self.size.x as nat, y as nat),
        {
            if y > 0 {
                text.append("\n");
            }
            let ghost start = text@;
            for x in 0..self.size.x
                invariant
                    self.wf(),
                    text@ == start + cells_text(self@.cell_fn(), y as int, x as nat),
            {
                let state = self.state(&Position::new(x, y));
                text.append(state.to_string().as_str());
                assert(text@ =~= start + cells_text(self@.cell_fn(), y as int, (x + 1) as nat));
            }
            assert(text@ =~= lines_text(self@.cell_fn(), self.size.x as nat, (y + 1) as nat));
        }
        text
    }
}

} // verus!
