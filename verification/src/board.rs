//! The board: the cells that pieces have been locked into, the test whether
//! a piece may lie somewhere, and the clearing of full rows.

use vstd::prelude::*;
use vstd::string::*;
use crate::block::Block;
use crate::cell::{copy_cells, State};
use crate::geometry::{lemma_index_in_area, Position, Size};
use crate::grid::{cells_text, floor_text, repeated, rows_text, Grid};
use crate::weight::Weight;

verus! {

/// The locked cells of a match, row by row from the top.
#[derive(Debug, PartialEq)]
pub struct Board {
    pub size: Size,
    pub source: Vec<State>,
}

impl View for Board {
    type V = Grid;

    open spec fn view(&self) -> Grid {
        Grid { size: self.size, cells: self.source@ }
    }
}

impl Clone for Board {
    fn clone(&self) -> (board: Self)
        ensures
            board@ == self@,
    {
        Self { size: self.size, source: copy_cells(&self.source) }
    }
}

/// Appends `count` copies of `piece` to `text`.
pub fn append_repeated(text: &mut String, piece: &str, count: usize)
    ensures
        final(text)@ == old(text)@ + repeated(piece@, count as nat),
{
    let ghost start = text@;
    assert(text@ =~= start + repeated(piece@, 0));
    for i in 0..count
        invariant
            text@ == start + repeated(piece@, i as nat),
    {
        text.append(piece);
        assert(text@ =~= start + repeated(piece@, (i + 1) as nat));
    }
}

/// Appends the floor of a grid `width` cells wide to `text`.
pub fn append_floor(text: &mut String, width: usize)
    ensures
        final(text)@ == old(text)@ + floor_text(width as nat),
{
    let ghost start = text@;
    text.append("<!");
    append_repeated(text, "==", width);
    text.append("!>\n");
    text.append("  ");
    append_repeated(text, "\\/", width);
    assert(text@ =~= start + floor_text(width as nat));
}

impl Board {
    /// There is one cell for each cell of the extent.
    pub open spec fn wf(&self) -> bool {
        self@.wf()
    }

    /// An empty board of ten columns and twenty rows.
    pub fn new() -> (board: Self)
        ensures
            board.wf(),
            board@ == Grid::empty(Size { x: 10, y: 20 }),
    {
        let size = Size::new(10, 20);
        assert(size.x * size.y == 200) by (nonlinear_arith)
            requires
                size.x == 10,
                size.y == 20,
        ;
        let n = size.len();
        let mut source: Vec<State> = Vec::new();
        for i in 0..n
            invariant
                source@.len() == i,
                forall|j: int| 0 <= j < i ==> source@[j] == State::Empty,
        {
            source.push(State::Empty);
        }
        assert(source@ =~= Grid::empty(size).cells);
        Self { size, source }
    }

    /// The cell at `p`; outside the board it is empty.
    pub fn state(&self, p: &Position) -> (state: State)
        requires
            self.wf(),
        ensures
            state == self@.at(p.x as int, p.y as int),
    {
        if self.size.on_inside(p) {
            proof {
                lemma_index_in_area(self.size.x as int, self.size.y as int, p.x as int, p.y as int);
                assert(self.source@.len() == self.source.len());
            }
            self.source[p.index(&self.size)]
        } else {
            State::Empty
        }
    }

    /// The occupancy weights of the board: 1 for an occupied cell, else 0.
    pub fn weight(&self) -> (weight: Weight)
        ensures
            weight.size == self.size,
            weight.source@ == self@.weights(),
    {
        let mut source: Vec<u8> = Vec::new();
        for i in 0..self.source.len()
            invariant
                source@.len() == i,
                forall|j: int| 0 <= j < i ==> source@[j] == self@.weights()[j],
        {
            source.push(self.source[i].to_weight());
        }
        assert(source@ =~= self@.weights());
        Weight::new(self.size, source)
    }

    /// Whether `block` may lie with its top left corner at `p`: its bounding
    /// box is inside the board and none of its occupied cells lies on an
    /// occupied cell of the board.
    pub fn can_change(&self, p: &Position, block: &Block) -> (can: bool)
        requires
            self.wf(),
            block.wf(),
        ensures
            can == self@.accepts(*p, block@),
    {
        let ours = self.weight();
        let theirs = block.weight();
        proof {
            ours.lemma_weighs(self@);
            theirs.lemma_weighs(block@);
            assert forall|x: int, y: int|
                0 <= x < theirs.size.x && 0 <= y < theirs.size.y implies ours.at(p.x + x, p.y + y)
                + #[trigger] theirs.at(x, y) <= u8::MAX by {
                assert(ours.at(p.x + x, p.y + y) == self@.at(p.x + x, p.y + y).weight());
            }
        }
        match ours.overlap(p, theirs) {
            Ok(sum) => {
                proof {
                    sum.lemma_valid_by_cells();
                    if sum.is_valid() {
                        assert forall|x: int, y: int|
                            !(self@.at(p.x + x, p.y + y).filled() && (#[trigger] block@.at(
                                x,
                                y,
                            )).filled()) by {
                            assert(sum.at(p.x + x, p.y + y) <= 1);
                            assert(ours.at(p.x + x, p.y + y) == self@.at(
                                p.x + x,
                                p.y + y,
                            ).weight());
                            assert(theirs.at(x, y) == block@.at(x, y).weight());
                        }
                    }
                    if self@.clear_of(*p, block@) {
                        assert forall|x: int, y: int| #[trigger] sum.at(x, y) <= 1 by {
                            assert(ours.at(x, y) == self@.at(x, y).weight());
                            assert(theirs.at(x - p.x, y - p.y) == block@.at(
                                x - p.x,
                                y - p.y,
                            ).weight());
                            assert(!(self@.at(p.x + (x - p.x), p.y + (y - p.y)).filled()
                                && block@.at(x - p.x, y - p.y).filled()));
                        }
                    }
                }
                sum.valid()
            },
            Err(()) => false,
        }
    }

    /// Puts `state` into the cell `p`; outside the board nothing changes.
    pub fn set_state(self, p: &Position, state: State) -> (board: Self)
        requires
            self.wf(),
        ensures
            board.wf(),
            board@ == self@.put(*p, state),
    {
        let mut board = self;
        if board.size.on_inside(p) {
            proof {
                lemma_index_in_area(
                    board.size.x as int,
                    board.size.y as int,
                    p.x as int,
                    p.y as int,
                );
                assert(board.source@.len() == board.source.len());
            }
            let i = p.index(&board.size);
            board.source.set(i, state);
        }
        board
    }

    /// Merges `block` into the board with its top left corner at `p`. Only
    /// the occupied cells of the piece are written: its empty cells leave
    /// the board as it is.
    pub fn set_block(self, p: &Position, block: Block) -> (board: Self)
        requires
            self.wf(),
            block.wf(),
            self@.holds(*p, block@),
        ensures
            board.wf(),
            board@ == self@.merged(*p, block@),
    {
        let mut board = self;
        let ghost from = self@;
        let ghost piece = block@;
        for y in 0..block.size.y
            invariant
                from.wf(),
                block.wf(),
                piece == block@,
                from.holds(*p, piece),
                board.wf(),
                board.size == from.size,
                forall|cx: int, cy: int|
                    #[trigger] board@.at(cx, cy) == (if cy - p.y < y {
                        from.merged_at(*p, piece, cx, cy)
                    } else {
                        from.at(cx, cy)
                    }),
        {
            for x in 0..block.size.x
                invariant
                    from.wf(),
                    block.wf(),
                    piece == block@,
                    from.holds(*p, piece),
                    y < block.size.y,
                    board.wf(),
                    board.size == from.size,
                    forall|cx: int, cy: int|
                        #[trigger] board@.at(cx, cy) == (if cy - p.y < y || (cy - p.y == y && cx
                            - p.x < x) {
                            from.merged_at(*p, piece, cx, cy)
                        } else {
                            from.at(cx, cy)
                        }),
            {
                let state = block.state(&Position::new(x, y));
                if let State::Block(shape) = state {
                    assert(piece.at(x as int, y as int).filled());
                    let target = Position::new(p.x + x, p.y + y);
                    proof {
                        board@.lemma_put(target, State::Block(shape));
                    }
                    board = board.set_state(&target, State::Block(shape));
                }
            }
        }
        proof {
            from.lemma_merged(*p, piece);
            board@.lemma_equal(from.merged(*p, piece));
        }
        board
    }

    /// Whether every cell of row `y` is occupied.
    pub fn row_is_full(&self, y: usize) -> (full: bool)
        requires
            self.wf(),
        ensures
            full == self@.row_full(y as int),
    {
        for x in 0..self.size.x
            invariant
                self.wf(),
                forall|cx: int| 0 <= cx < x ==> (#[trigger] self@.at(cx, y as int)).filled(),
        {
            if !self.state(&Position::new(x, y)).is_block() {
                assert(!self@.at(x as int, y as int).filled());
                return false;
            }
        }
        true
    }

    /// Takes row `row` out of the board: column by column, from that row up
    /// to the second row, each cell takes what the cell above it held, and
    /// the cell in the top row becomes empty.
    pub fn drop_row(self, row: usize) -> (board: Self)
        requires
            self.wf(),
            row < self.size.y,
        ensures
            board.wf(),
            board@ == self@.dropped(row as int),
    {
        let width = self.size.x;
        let ghost from = self@;
        let mut board = self;
        for x in 0..width
            invariant
                from.wf(),
                width == from.size.x,
                row < from.size.y,
                board.wf(),
                board.size == from.size,
                forall|cx: int, cy: int|
                    #[trigger] board@.at(cx, cy) == (if 0 <= cx < x {
                        from.dropped_at(row as int, cx, cy)
                    } else {
                        from.at(cx, cy)
                    }),
        {
            let mut y = row;
            while y > 0
                invariant
                    from.wf(),
                    width == from.size.x,
                    row < from.size.y,
                    x < width,
                    y <= row,
                    board.wf(),
                    board.size == from.size,
                    forall|cx: int, cy: int|
                        #[trigger] board@.at(cx, cy) == (if 0 <= cx < x || (cx == x && y < cy) {
                            from.dropped_at(row as int, cx, cy)
                        } else {
                            from.at(cx, cy)
                        }),
                decreases y,
            {
                let above = board.state(&Position::new(x, y - 1));
                proof {
                    board@.lemma_put(Position { x, y }, above);
                }
                board = board.set_state(&Position::new(x, y), above);
                y = y - 1;
            }
            proof {
                board@.lemma_put(Position { x, y: 0 }, State::Empty);
            }
            board = board.set_state(&Position::new(x, 0), State::Empty);
        }
        proof {
            from.lemma_dropped(row as int);
            board@.lemma_equal(from.dropped(row as int));
        }
        board
    }

    /// Clears the full rows: the rows are scanned from the top and the full
    /// ones noted, then each noted row is taken out, from the top down, so
    /// that what lay above it moves down by one row. Returns the board and
    /// the number of rows cleared.
    pub fn remove_valid_rows(self) -> (result: (Self, usize))
        requires
            self.wf(),
        ensures
            result.0.wf(),
            result.0@ == self@.cleared(),
            result.1 == self@.full_rows(),
    {
        proof {
            self@.lemma_cleared();
        }
        let ghost from = self@;
        let mut remove_rows: Vec<usize> = Vec::new();
        for y in 0..self.size.y
            invariant
                self.wf(),
                from == self@,
                remove_rows@.len() + from.kept_rows(y as nat).len() == y,
                forall|i: int|
                    0 <= i < remove_rows@.len() ==> #[trigger] remove_rows@[i] < y && from.row_full(
                        remove_rows@[i] as int,
                    ),
                forall|i: int, j: int|
                    0 <= i < j < remove_rows@.len() ==> remove_rows@[i] < remove_rows@[j],
                forall|r: int|
                    0 <= r < y && #[trigger] from.row_full(r) ==> exists|i: int|
                        0 <= i < remove_rows@.len() && remove_rows@[i] == r,
        {
            let ghost before = remove_rows@;
            if self.row_is_full(y) {
                remove_rows.push(y);
                proof {
                    assert forall|r: int| 0 <= r < y + 1 && #[trigger] from.row_full(r) implies exists|
                        i: int,
                    | 0 <= i < remove_rows@.len() && remove_rows@[i] == r by {
                        if r < y {
                            let i = choose|i: int| 0 <= i < before.len() && before[i] == r;
                            assert(remove_rows@[i] == r);
                        } else {
                            assert(remove_rows@[before.len() as int] == r);
                        }
                    }
                }
            }
        }
        let mut board = self;
        let ghost mut done: nat = 0;
        for i in 0..remove_rows.len()
            invariant
                from.wf(),
                remove_rows@.len() + from.kept_rows(from.size.y as nat).len() == from.size.y,
                forall|i: int|
                    0 <= i < remove_rows@.len() ==> #[trigger] remove_rows@[i] < from.size.y
                        && from.row_full(remove_rows@[i] as int),
                forall|i: int, j: int|
                    0 <= i < j < remove_rows@.len() ==> remove_rows@[i] < remove_rows@[j],
                forall|r: int|
                    0 <= r < from.size.y && #[trigger] from.row_full(r) ==> exists|i: int|
                        0 <= i < remove_rows@.len() && remove_rows@[i] == r,
                i == 0 ==> done == 0,
                i > 0 ==> done == remove_rows@[i - 1] + 1,
                from.cleared_above(board@, done, i as nat),
        {
            let y = remove_rows[i];
            proof {
                assert forall|r: int| done <= r < y implies !from.row_full(r) by {
                    if from.row_full(r) {
                        let j = choose|j: int| 0 <= j < remove_rows@.len() && remove_rows@[j] == r;
                        if j < i {
                            if j < i - 1 {
                                assert(remove_rows@[j] < remove_rows@[i - 1]);
                            }
                        } else if j > i {
                            assert(remove_rows@[i as int] < remove_rows@[j]);
                        }
                    }
                }
                if i > 0 {
                    assert(remove_rows@[i - 1] < remove_rows@[i as int]);
                }
                from.lemma_pass_rows(board@, done, i as nat, y as nat);
                from.lemma_drop_row(board@, y as nat, i as nat);
                done = (y + 1) as nat;
            }
            board = board.drop_row(y);
        }
        proof {
            assert forall|r: int| done <= r < from.size.y implies !from.row_full(r) by {
                if from.row_full(r) {
                    let j = choose|j: int| 0 <= j < remove_rows@.len() && remove_rows@[j] == r;
                    let last = remove_rows@.len() - 1;
                    if j < last {
                        assert(remove_rows@[j] < remove_rows@[last]);
                    }
                }
            }
            if remove_rows@.len() > 0 {
                assert(remove_rows@[remove_rows@.len() - 1] < from.size.y);
            }
            from.lemma_pass_rows(board@, done, remove_rows@.len(), from.size.y as nat);
            from.lemma_cleared_all(board@, remove_rows@.len());
        }
        (board, remove_rows.len())
    }

    /// Draws the board: each row between `<!` and `!>` with its cells as
    /// `[]` or ` .`, then the floor.
    pub fn to_string(&self) -> (text: String)
        requires
            self.wf(),
        ensures
            text@ == self@.text(),
    {
        let mut text = String::new();
        for y in 0..self.size.y
            invariant
                self.wf(),
                text@ == rows_text(self@.cell_fn(), self.size.x as nat, y as nat),
        {
            let ghost above = text@;
            text.append("<!");
            for x in 0..self.size.x
                invariant
                    self.wf(),
                    text@ == above + "<!"@ + cells_text(self@.cell_fn(), y as int, x as nat),
            {
                let state = self.state(&Position::new(x, y));
                text.append(state.to_string().as_str());
                assert(text@ =~= above + "<!"@ + cells_text(
                    self@.cell_fn(),
                    y as int,
                    (x + 1) as nat,
                ));
            }
            text.append("!>\n");
        }
        append_floor(&mut text, self.size.x);
        text
    }
}

} // verus!
