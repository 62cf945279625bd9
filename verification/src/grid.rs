//! The mathematical model of the board and of the pieces: a grid of cells
//! kept row by row, with the operations of the game stated on it.

use vstd::prelude::*;
use vstd::arithmetic::div_mod::{lemma_fundamental_div_mod, lemma_fundamental_div_mod_converse};
use vstd::relations::injective_on;
use vstd::set_lib::lemma_map_size;
use crate::cell::{State, Tetromino};
use crate::geometry::{lemma_index_in_area, Position, RotateDirection, Size};

verus! {

/// A grid of cells: an extent and the cells row by row from the top, each
/// row from the left.
pub struct Grid {
    pub size: Size,
    pub cells: Seq<State>,
}

impl Grid {
    /// There is one cell for each cell of the extent.
    pub open spec fn wf(self) -> bool {
        self.cells.len() == self.size.area()
    }

    /// The cell at column `x`, row `y`; outside the grid it is empty.
    pub open spec fn at(self, x: int, y: int) -> State {
        if 0 <= x < self.size.x && 0 <= y < self.size.y {
            self.cells[self.size.x * y + x]
        } else {
            State::Empty
        }
    }

    /// The cells as a function of column and row.
    pub open spec fn cell_fn(self) -> spec_fn(int, int) -> State {
        |x: int, y: int| self.at(x, y)
    }

    /// The grid of the given extent whose cell at column `x`, row `y` is
    /// `cell(x, y)`.
    pub open spec fn from_fn(size: Size, cell: spec_fn(int, int) -> State) -> Grid {
        Grid {
            size,
            cells: Seq::new(
                size.area() as nat,
                |i: int| cell(i % (size.x as int), i / (size.x as int)),
            ),
        }
    }

    /// The grid of the given extent with every cell empty.
    pub open spec fn empty(size: Size) -> Grid {
        Grid { size, cells: Seq::new(size.area() as nat, |i: int| State::Empty) }
    }

    /// The occupancy weights of the cells: 1 for an occupied cell, else 0.
    pub open spec fn weights(self) -> Seq<u8> {
        Seq::new(
            self.cells.len(),
            |i: int|
                if self.cells[i].filled() {
                    1u8
                } else {
                    0u8
                },
        )
    }

    /// The grid with the cell `p` replaced by `state`; outside the grid
    /// nothing changes.
    pub open spec fn put(self, p: Position, state: State) -> Grid {
        if self.size.contains(p) {
            Grid { size: self.size, cells: self.cells.update(p.offset(self.size), state) }
        } else {
            self
        }
    }

    /// The cell that a quarter turn brings to column `x`, row `y`.
    ///
    /// A turn to the left takes the cell in column `c`, row `r` to column
    /// `r`, row `width - c - 1`; a turn to the right takes it to column
    /// `height - r - 1`, row `c`.
    pub open spec fn turned_at(self, direction: RotateDirection, x: int, y: int) -> State {
        match direction {
            RotateDirection::Left => self.at(self.size.x - 1 - y, x),
            RotateDirection::Right => self.at(y, self.size.y - 1 - x),
        }
    }

    /// The grid after a quarter turn: the extent is transposed and each cell
    /// goes where the turn takes it.
    pub open spec fn turned(self, direction: RotateDirection) -> Grid {
        Grid::from_fn(self.size.transposed(), |x: int, y: int| self.turned_at(direction, x, y))
    }

    /// Whether `piece`, with its top left corner at `p`, lies inside this
    /// grid.
    pub open spec fn fits(self, p: Position, piece: Grid) -> bool {
        p.x + piece.size.x <= self.size.x && p.y + piece.size.y <= self.size.y
    }

    /// Whether no occupied cell of `piece`, placed at `p`, lies on an
    /// occupied cell of this grid.
    pub open spec fn clear_of(self, p: Position, piece: Grid) -> bool {
        forall|x: int, y: int|
            !(self.at(p.x + x, p.y + y).filled() && (#[trigger] piece.at(x, y)).filled())
    }

    /// Whether `piece` may lie at `p`: inside this grid and on empty cells
    /// only.
    pub open spec fn accepts(self, p: Position, piece: Grid) -> bool {
        self.fits(p, piece) && self.clear_of(p, piece)
    }

    /// Whether each occupied cell of `piece`, placed at `p`, lies inside
    /// this grid.
    pub open spec fn holds(self, p: Position, piece: Grid) -> bool {
        forall|x: int, y: int|
            (#[trigger] piece.at(x, y)).filled() ==> p.x + x < self.size.x && p.y + y
                < self.size.y
    }

    /// The cell at column `x`, row `y` once `piece` has been merged in at
    /// `p`: the cell of the piece where that is occupied, else the cell of
    /// this grid.
    pub open spec fn merged_at(self, p: Position, piece: Grid, x: int, y: int) -> State {
        if piece.at(x - p.x, y - p.y).filled() {
            piece.at(x - p.x, y - p.y)
        } else {
            self.at(x, y)
        }
    }

    /// The grid with the occupied cells of `piece` written into it at `p`.
    pub open spec fn merged(self, p: Position, piece: Grid) -> Grid {
        Grid::from_fn(self.size, |x: int, y: int| self.merged_at(p, piece, x, y))
    }

    /// Whether every cell of row `y` is occupied.
    pub open spec fn row_full(self, y: int) -> bool {
        forall|x: int| 0 <= x < self.size.x ==> (#[trigger] self.at(x, y)).filled()
    }

    /// The rows above row `n` that are not full, from the top down.
    pub open spec fn kept_rows(self, n: nat) -> Seq<int>
        decreases n,
    {
        if n == 0 {
            Seq::empty()
        } else if self.row_full(n - 1) {
            self.kept_rows((n - 1) as nat)
        } else {
            self.kept_rows((n - 1) as nat).push(n - 1)
        }
    }

    /// The number of full rows.
    pub open spec fn full_rows(self) -> int {
        self.size.y - self.kept_rows(self.size.y as nat).len()
    }

    /// The full rows above row `n`.
    pub open spec fn full_rows_above(self, n: nat) -> Set<int> {
        Set::new(|y: int| 0 <= y < n && self.row_full(y))
    }

    /// The full rows.
    pub open spec fn full_rows_set(self) -> Set<int> {
        Set::new(|y: int| 0 <= y < self.size.y && self.row_full(y))
    }

    /// The cell at column `x`, row `y` once the full rows are gone: the rows
    /// that are not full lie at the bottom in the order they had, and the
    /// rows above them are empty.
    pub open spec fn cleared_at(self, x: int, y: int) -> State {
        if self.full_rows() <= y < self.size.y {
            self.at(x, self.kept_rows(self.size.y as nat)[y - self.full_rows()])
        } else {
            State::Empty
        }
    }

    /// The grid with its full rows taken out.
    pub open spec fn cleared(self) -> Grid {
        Grid::from_fn(self.size, |x: int, y: int| self.cleared_at(x, y))
    }

    /// The cell at column `x`, row `y` once row `row` has been taken out:
    /// the rows above it have moved down by one and the top row is empty.
    pub open spec fn dropped_at(self, row: int, x: int, y: int) -> State {
        if 0 < y <= row {
            self.at(x, y - 1)
        } else if y == 0 {
            State::Empty
        } else {
            self.at(x, y)
        }
    }

    /// The grid with row `row` taken out.
    pub open spec fn dropped(self, row: int) -> Grid {
        Grid::from_fn(self.size, |x: int, y: int| self.dropped_at(row, x, y))
    }

    /// The bounding box of a shape as it is first made.
    pub open spec fn canonical_size(shape: Tetromino) -> Size {
        match shape {
            Tetromino::I => Size { x: 1, y: 4 },
            Tetromino::O => Size { x: 2, y: 2 },
            Tetromino::T => Size { x: 3, y: 2 },
            Tetromino::J => Size { x: 2, y: 3 },
            Tetromino::L => Size { x: 2, y: 3 },
            Tetromino::S => Size { x: 3, y: 2 },
            Tetromino::Z => Size { x: 3, y: 2 },
        }
    }

    /// The cells of a shape as it is first made, row by row.
    pub open spec fn canonical_cells(shape: Tetromino) -> Seq<State> {
        let b = State::Block(shape);
        let e = State::Empty;
        match shape {
            Tetromino::I => seq![b, b, b, b],
            Tetromino::O => seq![b, b, b, b],
            Tetromino::T => seq![b, b, b, e, b, e],
            Tetromino::J => seq![e, b, e, b, b, b],
            Tetromino::L => seq![b, e, b, e, b, b],
            Tetromino::S => seq![e, b, b, b, b, e],
            Tetromino::Z => seq![b, b, e, e, b, b],
        }
    }

    /// Whether the cell at column `x`, row `y` of a shape as it is first
    /// made is occupied.
    pub open spec fn canonical_filled(shape: Tetromino, x: int, y: int) -> bool {
        match shape {
            Tetromino::I => x == 0 && 0 <= y < 4,
            Tetromino::O => 0 <= x < 2 && 0 <= y < 2,
            Tetromino::T => (y == 0 && 0 <= x < 3) || (y == 1 && x == 1),
            Tetromino::J => (x == 1 && 0 <= y < 3) || (x == 0 && y == 2),
            Tetromino::L => (x == 0 && 0 <= y < 3) || (x == 1 && y == 2),
            Tetromino::S => (y == 0 && 1 <= x < 3) || (y == 1 && 0 <= x < 2),
            Tetromino::Z => (y == 0 && 0 <= x < 2) || (y == 1 && 1 <= x < 3),
        }
    }

    /// A shape as it is first made.
    pub open spec fn canonical(shape: Tetromino) -> Grid {
        Grid { size: Self::canonical_size(shape), cells: Self::canonical_cells(shape) }
    }

    /// The columns and rows of the occupied cells.
    pub open spec fn filled_cells(self) -> Set<(int, int)> {
        Set::new(|c: (int, int)| self.at(c.0, c.1).filled())
    }

    /// Whether this is a piece: a grid at most four cells wide and four
    /// cells high with exactly four occupied cells.
    pub open spec fn is_piece(self) -> bool {
        &&& self.wf()
        &&& self.size.x <= 4
        &&& self.size.y <= 4
        &&& self.filled_cells().finite()
        &&& self.filled_cells().len() == 4
    }

    /// The columns and rows of the occupied cells of a shape as it is first
    /// made.
    pub open spec fn canonical_filled_cells(shape: Tetromino) -> Set<(int, int)> {
        match shape {
            Tetromino::I => set![(0int, 0int), (0int, 1int), (0int, 2int), (0int, 3int)],
            Tetromino::O => set![(0int, 0int), (1int, 0int), (0int, 1int), (1int, 1int)],
            Tetromino::T => set![(0int, 0int), (1int, 0int), (2int, 0int), (1int, 1int)],
            Tetromino::J => set![(1int, 0int), (1int, 1int), (0int, 2int), (1int, 2int)],
            Tetromino::L => set![(0int, 0int), (0int, 1int), (0int, 2int), (1int, 2int)],
            Tetromino::S => set![(1int, 0int), (2int, 0int), (0int, 1int), (1int, 1int)],
            Tetromino::Z => set![(0int, 0int), (1int, 0int), (1int, 1int), (2int, 1int)],
        }
    }

    /// The text of a piece: its rows, each on a line of its own.
    pub open spec fn lines(self) -> Seq<char> {
        lines_text(self.cell_fn(), self.size.x as nat, self.size.y as nat)
    }

    /// The text of a board.
    pub open spec fn text(self) -> Seq<char> {
        frame_text(self.cell_fn(), self.size)
    }

    /// Each shape as it is first made is a grid.
    pub proof fn lemma_canonical(shape: Tetromino)
        ensures
            Grid::canonical(shape).wf(),
    {
        let size = Grid::canonical_size(shape);
        assert(size.x * size.y == Grid::canonical_cells(shape).len()) by (nonlinear_arith)
            requires
                size.x == 1 && size.y == 4 && Grid::canonical_cells(shape).len() == 4 || size.x == 2
                    && size.y == 2 && Grid::canonical_cells(shape).len() == 4 || size.x == 3
                    && size.y == 2 && Grid::canonical_cells(shape).len() == 6 || size.x == 2
                    && size.y == 3 && Grid::canonical_cells(shape).len() == 6,
        ;
    }

    /// Each shape as it is first made is a piece: four cells of it are
    /// occupied.
    pub proof fn lemma_canonical_piece(shape: Tetromino)
        ensures
            Grid::canonical(shape).is_piece(),
            Grid::canonical(shape).filled_cells() == Grid::canonical_filled_cells(shape),
    {
        Grid::lemma_canonical(shape);
        Grid::lemma_canonical_at(shape);
        assert(Grid::canonical(shape).filled_cells() =~= Grid::canonical_filled_cells(shape));
    }

    /// A quarter turn of a piece is a piece.
    pub proof fn lemma_turned_piece(self, direction: RotateDirection)
        requires
            self.is_piece(),
        ensures
            self.turned(direction).is_piece(),
    {
        self.lemma_turned(direction);
        let turned = self.turned(direction);
        let to = |c: (int, int)|
            match direction {
                RotateDirection::Left => (c.1, self.size.x - 1 - c.0),
                RotateDirection::Right => (self.size.y - 1 - c.1, c.0),
            };
        let cells = self.filled_cells();
        assert(injective_on(to, cells));
        assert forall|c: (int, int)| turned.filled_cells().contains(c) implies cells.map(
            to,
        ).contains(c) by {
            let from = match direction {
                RotateDirection::Left => (self.size.x - 1 - c.1, c.0),
                RotateDirection::Right => (c.1, self.size.y - 1 - c.0),
            };
            assert(turned.at(c.0, c.1) == self.turned_at(direction, c.0, c.1));
            assert(cells.contains(from));
            assert(to(from) == c);
        }
        assert forall|c: (int, int)| cells.map(to).contains(c) implies turned.filled_cells().contains(
            c,
        ) by {
            let from = choose|from: (int, int)| cells.contains(from) && c == to(from);
            assert(turned.at(c.0, c.1) == self.turned_at(direction, c.0, c.1));
        }
        assert(cells.map(to) =~= turned.filled_cells());
        lemma_map_size(cells, turned.filled_cells(), to);
    }

    /// The cells of a shape as it is first made, by column and row: the
    /// occupied ones carry the shape, the others are empty.
    pub proof fn lemma_canonical_at(shape: Tetromino)
        ensures
            forall|x: int, y: int|
                #[trigger] Grid::canonical(shape).at(x, y) == (if Grid::canonical_filled(
                    shape,
                    x,
                    y,
                ) {
                    State::Block(shape)
                } else {
                    State::Empty
                }),
    {
        let piece = Grid::canonical(shape);
        let cells = piece.cells;
        Grid::lemma_canonical(shape);
        piece.lemma_cells();
        assert(cells[0] == piece.cells[0] && cells[1] == piece.cells[1] && cells[2]
            == piece.cells[2] && cells[3] == piece.cells[3]);
        if cells.len() == 6 {
            assert(cells[4] == piece.cells[4] && cells[5] == piece.cells[5]);
        }
        assert forall|x: int, y: int|
            #[trigger] piece.at(x, y) == (if Grid::canonical_filled(shape, x, y) {
                State::Block(shape)
            } else {
                State::Empty
            }) by {
            if 0 <= x < piece.size.x && 0 <= y < piece.size.y {
                let i = piece.size.x * y + x;
                assert(piece.at(x, y) == cells[i]);
                assert(i == 0 || i == 1 || i == 2 || i == 3 || i == 4 || i == 5);
            }
        }
    }

    /// The cell at column `x`, row `y` inside the grid is the cell at the
    /// linear index `width * y + x`, which lies within the cells.
    pub proof fn lemma_cells(self)
        requires
            self.wf(),
        ensures
            forall|x: int, y: int|
                0 <= x < self.size.x && 0 <= y < self.size.y ==> 0 <= self.size.x * y + x
                    < self.cells.len() && #[trigger] self.at(x, y) == self.cells[self.size.x * y
                    + x],
    {
        assert forall|x: int, y: int| 0 <= x < self.size.x && 0 <= y < self.size.y implies 0
            <= self.size.x * y + x < self.cells.len() && #[trigger] self.at(x, y)
            == self.cells[self.size.x * y + x] by {
            lemma_index_in_area(self.size.x as int, self.size.y as int, x, y);
        }
    }

    /// The cells of `from_fn` are those of the function it was made from.
    pub proof fn lemma_from_fn(size: Size, cell: spec_fn(int, int) -> State)
        ensures
            Grid::from_fn(size, cell).wf(),
            Grid::from_fn(size, cell).size == size,
            forall|x: int, y: int|
                0 <= x < size.x && 0 <= y < size.y ==> #[trigger] Grid::from_fn(size, cell).at(x, y)
                    == cell(x, y),
    {
        let grid = Grid::from_fn(size, cell);
        assert forall|x: int, y: int| 0 <= x < size.x && 0 <= y < size.y implies #[trigger] grid.at(
            x,
            y,
        ) == cell(x, y) by {
            let w = size.x as int;
            lemma_index_in_area(w, size.y as int, x, y);
            assert(w * y + x == y * w + x) by (nonlinear_arith);
            lemma_fundamental_div_mod_converse(w * y + x, w, y, x);
        }
    }

    /// Two grids of one extent that agree cell by cell are the same grid.
    pub proof fn lemma_equal(self, other: Grid)
        requires
            self.wf(),
            other.wf(),
            self.size == other.size,
            forall|x: int, y: int|
                0 <= x < self.size.x && 0 <= y < self.size.y ==> self.at(x, y) == other.at(x, y),
        ensures
            self == other,
    {
        let w = self.size.x as int;
        assert forall|i: int| 0 <= i < self.cells.len() implies self.cells[i] == other.cells[i] by {
            if w == 0 {
                assert(self.size.x * self.size.y == 0) by (nonlinear_arith)
                    requires
                        self.size.x == 0,
                ;
            } else {
                let x = i % w;
                let y = i / w;
                lemma_fundamental_div_mod(i, w);
                assert(0 <= x < w);
                assert(0 <= y) by (nonlinear_arith)
                    requires
                        i == w * y + x,
                        x < w,
                        0 <= i,
                        w > 0,
                ;
                if y >= self.size.y {
                    assert(w * y >= w * self.size.y) by (nonlinear_arith)
                        requires
                            y >= self.size.y,
                            w > 0,
                    ;
                }
                assert(self.at(x, y) == other.at(x, y));
            }
        }
        assert(self.cells =~= other.cells);
    }

    /// Every cell of the empty grid is empty.
    pub proof fn lemma_empty(size: Size)
        ensures
            Grid::empty(size).wf(),
            Grid::empty(size).size == size,
            forall|x: int, y: int| #[trigger] Grid::empty(size).at(x, y) == State::Empty,
    {
        assert forall|x: int, y: int| #[trigger] Grid::empty(size).at(x, y) == State::Empty by {
            if 0 <= x < size.x && 0 <= y < size.y {
                lemma_index_in_area(size.x as int, size.y as int, x, y);
            }
        }
    }

    /// Putting a state into a cell changes that cell and no other.
    pub proof fn lemma_put(self, p: Position, state: State)
        requires
            self.wf(),
        ensures
            self.put(p, state).wf(),
            self.put(p, state).size == self.size,
            forall|x: int, y: int|
                #[trigger] self.put(p, state).at(x, y) == (if x == p.x && y == p.y
                    && self.size.contains(p) {
                    state
                } else {
                    self.at(x, y)
                }),
    {
        let after = self.put(p, state);
        if self.size.contains(p) {
            lemma_index_in_area(self.size.x as int, self.size.y as int, p.x as int, p.y as int);
        }
        assert forall|x: int, y: int|
            #[trigger] after.at(x, y) == (if x == p.x && y == p.y && self.size.contains(p) {
                state
            } else {
                self.at(x, y)
            }) by {
            if self.size.contains(p) && 0 <= x < self.size.x && 0 <= y < self.size.y {
                lemma_index_in_area(self.size.x as int, self.size.y as int, x, y);
                if self.size.x * y + x == p.offset(self.size) {
                    crate::geometry::lemma_index_injective(
                        self.size.x as int,
                        x,
                        y,
                        p.x as int,
                        p.y as int,
                    );
                }
            }
        }
    }

    /// The cells of a turned grid, for every column and row.
    pub proof fn lemma_turned(self, direction: RotateDirection)
        ensures
            self.turned(direction).wf(),
            self.turned(direction).size == self.size.transposed(),
            forall|x: int, y: int|
                #[trigger] self.turned(direction).at(x, y) == self.turned_at(direction, x, y),
    {
        Grid::lemma_from_fn(
            self.size.transposed(),
            |x: int, y: int| self.turned_at(direction, x, y),
        );
    }

    /// The cells of a grid that a piece was merged into.
    pub proof fn lemma_merged(self, p: Position, piece: Grid)
        ensures
            self.merged(p, piece).wf(),
            self.merged(p, piece).size == self.size,
            forall|x: int, y: int|
                0 <= x < self.size.x && 0 <= y < self.size.y ==> #[trigger] self.merged(
                    p,
                    piece,
                ).at(x, y) == self.merged_at(p, piece, x, y),
    {
        Grid::lemma_from_fn(self.size, |x: int, y: int| self.merged_at(p, piece, x, y));
    }

    /// The cells of a grid that a row was taken out of.
    pub proof fn lemma_dropped(self, row: int)
        requires
            row < self.size.y,
        ensures
            self.dropped(row).wf(),
            self.dropped(row).size == self.size,
            forall|x: int, y: int| #[trigger]
                self.dropped(row).at(x, y) == self.dropped_at(row, x, y),
    {
        Grid::lemma_from_fn(self.size, |x: int, y: int| self.dropped_at(row, x, y));
    }

    /// The rows that are kept are rows above `n` that are not full, in
    /// rising order, and no more than `n`.
    pub proof fn lemma_kept_rows(self, n: nat)
        ensures
            self.kept_rows(n).len() <= n,
            forall|i: int|
                0 <= i < self.kept_rows(n).len() ==> 0 <= #[trigger] self.kept_rows(n)[i] < n
                    && !self.row_full(self.kept_rows(n)[i]),
            forall|i: int, j: int|
                0 <= i < j < self.kept_rows(n).len() ==> self.kept_rows(n)[i] < self.kept_rows(
                    n,
                )[j],
        decreases n,
    {
        if n > 0 {
            self.lemma_kept_rows((n - 1) as nat);
        }
    }

    /// The cells of a grid that the full rows were taken out of.
    pub proof fn lemma_cleared(self)
        ensures
            self.cleared().wf(),
            self.cleared().size == self.size,
            0 <= self.full_rows() <= self.size.y,
            forall|x: int, y: int| #[trigger] self.cleared().at(x, y) == self.cleared_at(x, y),
    {
        Grid::lemma_from_fn(self.size, |x: int, y: int| self.cleared_at(x, y));
        self.lemma_kept_rows(self.size.y as nat);
        assert forall|x: int, y: int| #[trigger]
            self.cleared().at(x, y) == self.cleared_at(x, y) by {
            if !(0 <= x < self.size.x) && self.full_rows() <= y < self.size.y {
                let row = self.kept_rows(self.size.y as nat)[y - self.full_rows()];
                assert(self.at(x, row) == State::Empty);
            }
        }
    }

    /// Whether `current` is this grid with the full rows above row `done`
    /// taken out, `cleared` of them, and the rows from `done` on untouched.
    pub open spec fn cleared_above(self, current: Grid, done: nat, cleared: nat) -> bool {
        &&& done <= self.size.y
        &&& current.wf()
        &&& current.size == self.size
        &&& self.kept_rows(done).len() + cleared == done
        &&& forall|x: int, y: int|
            #[trigger] current.at(x, y) == (if done <= y {
                self.at(x, y)
            } else if cleared <= y {
                self.at(x, self.kept_rows(done)[y - cleared])
            } else {
                State::Empty
            })
    }

    /// Rows that are not full are passed over: the grid stays as it is.
    pub proof fn lemma_pass_rows(self, current: Grid, done: nat, cleared: nat, upto: nat)
        requires
            self.cleared_above(current, done, cleared),
            done <= upto <= self.size.y,
            forall|y: int| done <= y < upto ==> !self.row_full(y),
        ensures
            self.cleared_above(current, upto, cleared),
        decreases upto - done,
    {
        if done < upto {
            self.lemma_kept_rows(done);
            let next = (done + 1) as nat;
            assert(self.kept_rows(next) == self.kept_rows(done).push(done as int));
            assert forall|x: int, y: int|
                #[trigger] current.at(x, y) == (if next <= y {
                    self.at(x, y)
                } else if cleared <= y {
                    self.at(x, self.kept_rows(next)[y - cleared])
                } else {
                    State::Empty
                }) by {
                assert(current.at(x, y) == (if done <= y {
                    self.at(x, y)
                } else if cleared <= y {
                    self.at(x, self.kept_rows(done)[y - cleared])
                } else {
                    State::Empty
                }));
            }
            self.lemma_pass_rows(current, next, cleared, upto);
        }
    }

    /// Taking out a full row clears one row more.
    pub proof fn lemma_drop_row(self, current: Grid, done: nat, cleared: nat)
        requires
            self.cleared_above(current, done, cleared),
            done < self.size.y,
            self.row_full(done as int),
        ensures
            self.cleared_above(current.dropped(done as int), (done + 1) as nat, (cleared + 1) as nat),
    {
        self.lemma_kept_rows(done);
        current.lemma_dropped(done as int);
        let next = current.dropped(done as int);
        let after = (done + 1) as nat;
        assert(self.kept_rows(after) == self.kept_rows(done));
        assert forall|x: int, y: int|
            #[trigger] next.at(x, y) == (if after <= y {
                self.at(x, y)
            } else if cleared + 1 <= y {
                self.at(x, self.kept_rows(after)[y - (cleared + 1)])
            } else {
                State::Empty
            }) by {
            assert(next.at(x, y) == current.dropped_at(done as int, x, y));
            if 0 < y <= done {
                assert(current.at(x, y - 1) == (if done <= y - 1 {
                    self.at(x, y - 1)
                } else if cleared <= y - 1 {
                    self.at(x, self.kept_rows(done)[y - 1 - cleared])
                } else {
                    State::Empty
                }));
            } else if y > done {
                assert(current.at(x, y) == self.at(x, y));
            } else if y < 0 {
                assert(current.at(x, y) == State::Empty);
            }
        }
    }

    /// Once every row has been passed, what is left is the cleared grid.
    pub proof fn lemma_cleared_all(self, current: Grid, cleared: nat)
        requires
            self.wf(),
            self.cleared_above(current, self.size.y as nat, cleared),
        ensures
            current == self.cleared(),
            cleared == self.full_rows(),
    {
        self.lemma_cleared();
        current.lemma_equal(self.cleared());
    }
}

/// The first `n` cells of row `y`, drawn one after the other.
pub open spec fn cells_text(cell: spec_fn(int, int) -> State, y: int, n: nat) -> Seq<char>
    decreases n,
{
    if n == 0 {
        Seq::empty()
    } else {
        cells_text(cell, y, (n - 1) as nat) + cell(n - 1, y).text()
    }
}

/// The first `n` rows of a grid `width` cells wide, each drawn on a line of
/// its own with nothing around it; the last line is not ended.
pub open spec fn lines_text(cell: spec_fn(int, int) -> State, width: nat, n: nat) -> Seq<char>
    decreases n,
{
    if n == 0 {
        Seq::empty()
    } else if n == 1 {
        cells_text(cell, 0, width)
    } else {
        lines_text(cell, width, (n - 1) as nat) + "\n"@ + cells_text(cell, n - 1, width)
    }
}

/// The first `n` rows of a grid `width` cells wide, each between `<!` and
/// `!>` on a line of its own.
pub open spec fn rows_text(cell: spec_fn(int, int) -> State, width: nat, n: nat) -> Seq<char>
    decreases n,
{
    if n == 0 {
        Seq::empty()
    } else {
        rows_text(cell, width, (n - 1) as nat) + "<!"@ + cells_text(cell, n - 1, width) + "!>\n"@
    }
}

/// `n` copies of `s`, one after the other.
pub open spec fn repeated(s: Seq<char>, n: nat) -> Seq<char>
    decreases n,
{
    if n == 0 {
        Seq::empty()
    } else {
        repeated(s, (n - 1) as nat) + s
    }
}

/// The floor below the rows of a grid `width` cells wide: a line of `==`
/// pairs between `<!` and `!>`, and below it, two spaces in, a line of `\/`
/// pairs, one pair for each column.
pub open spec fn floor_text(width: nat) -> Seq<char> {
    "<!"@ + repeated("=="@, width) + "!>\n"@ + "  "@ + repeated("\\/"@, width)
}

/// The picture of a whole grid: its rows between `<!` and `!>`, and the
/// floor below them.
pub open spec fn frame_text(cell: spec_fn(int, int) -> State, size: Size) -> Seq<char> {
    rows_text(cell, size.x as nat, size.y as nat) + floor_text(size.x as nat)
}

} // verus!
