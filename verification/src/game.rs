//! A match: the board with the piece that is falling, and the commands that
//! drive it - moving, turning and the tick.

use vstd::prelude::*;
use vstd::string::*;
use crate::block::Block;
use crate::board::{append_floor, Board};
use crate::cell::{State, Tetromino};
use crate::geometry::{MoveDirection, Position, RotateDirection, Size};
use crate::grid::{cells_text, frame_text, rows_text, Grid};
use crate::laws::{lemma_moved_legal, lemma_tick_legal, lemma_tick_settles, lemma_turned_legal};

verus! {

/// The directions in which a piece can be moved by a command.
#[derive(Debug, PartialEq, Eq, Structural, Clone, Copy)]
pub enum InputMoveDirection {
    Left,
    Right,
    Bottom,
}

/// A command to move the falling piece `amount` cells in `direction`.
#[derive(Debug, PartialEq)]
pub struct InputMove {
    pub direction: InputMoveDirection,
    pub amount: usize,
}

/// The directions in which a piece can be turned by a command.
#[derive(Debug, PartialEq, Eq, Structural, Clone, Copy)]
pub enum InputRotateDirection {
    Left,
    Right,
}

/// A command to turn the falling piece `amount` quarter turns in
/// `direction`.
#[derive(Debug, PartialEq)]
pub struct InputRotate {
    pub direction: InputRotateDirection,
    pub amount: usize,
}

/// A command to the falling piece.
pub enum Input {
    Move(InputMove),
    Rotate(InputRotate),
}

/// The falling piece: a piece and where the top left corner of its bounding
/// box lies on the board.
#[derive(Debug, PartialEq)]
pub struct ActiveBlock {
    pub position: Position,
    pub block: Block,
}

/// A match: the board and, while one is falling, the falling piece.
#[derive(Debug, PartialEq)]
pub struct Game {
    board: Board,
    block: Option<ActiveBlock>,
}

/// The model of a falling piece.
pub struct Falling {
    pub position: Position,
    pub piece: Grid,
}

/// The model of a match.
pub struct Match {
    pub board: Grid,
    pub active: Option<Falling>,
}

/// The extent of the board of a match: ten columns, twenty rows.
pub open spec fn standard_size() -> Size {
    Size { x: 10, y: 20 }
}

/// Where a new piece appears: column 3 of the top row.
pub open spec fn spawn_position() -> Position {
    Position { x: 3, y: 0 }
}

/// The cell `steps` steps from `position` in `direction`.
pub open spec fn shifted(position: Position, direction: InputMoveDirection, steps: nat) -> Position
    decreases steps,
{
    if steps == 0 {
        position
    } else {
        shifted(position, direction, (steps - 1) as nat).stepped(direction.forth())
    }
}

impl InputMoveDirection {
    /// The step that the command asks for.
    pub open spec fn forth(self) -> MoveDirection {
        match self {
            InputMoveDirection::Left => MoveDirection::Left,
            InputMoveDirection::Right => MoveDirection::Right,
            InputMoveDirection::Bottom => MoveDirection::Bottom,
        }
    }

    /// The step that takes a step of the command back.
    pub open spec fn back(self) -> MoveDirection {
        match self {
            InputMoveDirection::Left => MoveDirection::Right,
            InputMoveDirection::Right => MoveDirection::Left,
            InputMoveDirection::Bottom => MoveDirection::Top,
        }
    }
}

impl InputRotateDirection {
    /// The turn that the command asks for.
    pub open spec fn forth(self) -> RotateDirection {
        match self {
            InputRotateDirection::Left => RotateDirection::Left,
            InputRotateDirection::Right => RotateDirection::Right,
        }
    }

    /// The turn that takes a turn of the command back.
    pub open spec fn back(self) -> RotateDirection {
        match self {
            InputRotateDirection::Left => RotateDirection::Right,
            InputRotateDirection::Right => RotateDirection::Left,
        }
    }
}

impl Falling {
    /// The cell of the piece that lies on column `x`, row `y` of the board;
    /// where the piece does not reach, it is empty.
    pub open spec fn cell_at(self, x: int, y: int) -> State {
        self.piece.at(x - self.position.x, y - self.position.y)
    }

    /// The piece one step further in `direction`.
    pub open spec fn stepped(self, direction: MoveDirection) -> Falling {
        Falling { position: self.position.stepped(direction), piece: self.piece }
    }

    /// The piece after a quarter turn in `direction`, its corner where it was.
    pub open spec fn turned(self, direction: RotateDirection) -> Falling {
        Falling { position: self.position, piece: self.piece.turned(direction) }
    }
}

impl Match {
    /// The board is a grid of the standard extent, and the falling piece, if
    /// there is one, is a piece whose bounding box lies inside the board.
    pub open spec fn wf(self) -> bool {
        &&& self.board.wf()
        &&& self.board.size == standard_size()
        &&& self.active matches Some(falling) ==> falling.piece.is_piece() && self.board.fits(
            falling.position,
            falling.piece,
        )
    }

    /// Whether the falling piece, if there is one, lies on empty cells of
    /// the board only.
    pub open spec fn legal(self) -> bool {
        self.active matches Some(falling) ==> self.board.accepts(falling.position, falling.piece)
    }

    /// What is seen at column `x`, row `y`: the cell of the falling piece
    /// where that is occupied, else the cell of the board.
    pub open spec fn cell_at(self, x: int, y: int) -> State {
        match self.active {
            Some(falling) => if falling.cell_at(x, y).filled() {
                falling.cell_at(x, y)
            } else {
                self.board.at(x, y)
            },
            None => self.board.at(x, y),
        }
    }

    /// What is seen, as a function of column and row.
    pub open spec fn cell_fn(self) -> spec_fn(int, int) -> State {
        |x: int, y: int| self.cell_at(x, y)
    }

    /// The text of the match: the board with the falling piece drawn over
    /// it.
    pub open spec fn text(self) -> Seq<char> {
        frame_text(self.cell_fn(), self.board.size)
    }

    /// The match with `falling` as its falling piece.
    pub open spec fn with(self, falling: Falling) -> Match {
        Match { board: self.board, active: Some(falling) }
    }

    /// Whether the falling piece may take one step in `direction`.
    pub open spec fn can_move(self, direction: InputMoveDirection) -> bool {
        self.active matches Some(falling) && self.board.accepts(
            falling.stepped(direction.forth()).position,
            falling.piece,
        )
    }

    /// The match after one step of the falling piece in `direction`. A step
    /// onto a place where the piece may not lie is taken back at once.
    pub open spec fn move_once(self, direction: InputMoveDirection) -> Match {
        match self.active {
            Some(falling) => if self.can_move(direction) {
                self.with(falling.stepped(direction.forth()))
            } else {
                self.with(falling.stepped(direction.forth()).stepped(direction.back()))
            },
            None => self,
        }
    }

    /// The match after a command to move `amount` cells in `direction`: one
    /// step after the other, until the steps are used up or one had to be
    /// taken back. Without a falling piece nothing happens.
    pub open spec fn moved(self, direction: InputMoveDirection, amount: nat) -> Match
        decreases amount,
    {
        if self.active is None || amount == 0 {
            self
        } else if self.can_move(direction) {
            self.move_once(direction).moved(direction, (amount - 1) as nat)
        } else {
            self.move_once(direction)
        }
    }

    /// How many steps of a command to move `amount` cells in `direction`
    /// are kept.
    pub open spec fn steps_taken(self, direction: InputMoveDirection, amount: nat) -> nat
        decreases amount,
    {
        if self.active is None || amount == 0 || !self.can_move(direction) {
            0
        } else {
            1 + self.move_once(direction).steps_taken(direction, (amount - 1) as nat)
        }
    }

    /// Whether the falling piece may take one quarter turn in `direction`.
    pub open spec fn can_turn(self, direction: InputRotateDirection) -> bool {
        self.active matches Some(falling) && self.board.accepts(
            falling.position,
            falling.piece.turned(direction.forth()),
        )
    }

    /// The match after one quarter turn of the falling piece in `direction`.
    /// A turn into a place where the piece may not lie is taken back at
    /// once.
    pub open spec fn turn_once(self, direction: InputRotateDirection) -> Match {
        match self.active {
            Some(falling) => if self.can_turn(direction) {
                self.with(falling.turned(direction.forth()))
            } else {
                self.with(falling.turned(direction.forth()).turned(direction.back()))
            },
            None => self,
        }
    }

    /// The match after a command to turn `amount` quarter turns in
    /// `direction`: one turn after the other, until the turns are used up or
    /// one had to be taken back. Without a falling piece nothing happens.
    pub open spec fn turned(self, direction: InputRotateDirection, amount: nat) -> Match
        decreases amount,
    {
        if self.active is None || amount == 0 {
            self
        } else if self.can_turn(direction) {
            self.turn_once(direction).turned(direction, (amount - 1) as nat)
        } else {
            self.turn_once(direction)
        }
    }

    /// Whether no row of the board is full.
    pub open spec fn settled(self) -> bool {
        forall|y: int| 0 <= y < self.board.size.y ==> !self.board.row_full(y)
    }

    /// The match with `piece` as its new falling piece, at the place where
    /// pieces appear. Whether the piece may lie there is not asked.
    pub open spec fn spawned(self, piece: Grid) -> Match {
        self.with(Falling { position: spawn_position(), piece })
    }

    /// Whether the falling piece may fall by one row.
    pub open spec fn can_fall(self) -> bool {
        self.can_move(InputMoveDirection::Bottom)
    }

    /// The match after the falling piece fell by one row or, where it could
    /// not, was locked into the board where it lay.
    pub open spec fn fallen(self) -> Match {
        match self.active {
            Some(falling) => if self.can_fall() {
                self.with(falling.stepped(MoveDirection::Bottom))
            } else {
                Match { board: self.board.merged(falling.position, falling.piece), active: None }
            },
            None => self,
        }
    }

    /// The match with the full rows of its board cleared.
    pub open spec fn swept(self) -> Match {
        Match { board: self.board.cleared(), active: self.active }
    }

    /// The match after a tick before its rows are cleared: without a falling
    /// piece, `piece` appears; with one, it falls or is locked.
    pub open spec fn advanced(self, piece: Grid) -> Match {
        if self.active is None {
            self.spawned(piece)
        } else {
            self.fallen()
        }
    }
}

impl InputMove {
    /// A command to move `amount` cells in `direction`.
    pub fn new(direction: InputMoveDirection, amount: usize) -> (input: Self)
        ensures
            input.direction == direction,
            input.amount == amount,
    {
        Self { direction, amount }
    }

    /// Whether a step is left.
    pub fn can_move(&self) -> (can: bool)
        ensures
            can == (self.amount > 0),
    {
        self.amount > 0
    }

    /// The command with one step used up.
    pub fn moved(self) -> (input: Self)
        requires
            self.amount > 0,
        ensures
            input.direction == self.direction,
            input.amount == self.amount - 1,
    {
        let mut input = self;
        input.amount -= 1;
        input
    }
}

impl InputRotate {
    /// A command to turn `amount` quarter turns in `direction`.
    pub fn new(direction: InputRotateDirection, amount: usize) -> (input: Self)
        ensures
            input.direction == direction,
            input.amount == amount,
    {
        Self { direction, amount }
    }

    /// Whether a turn is left.
    pub fn can_rotate(&self) -> (can: bool)
        ensures
            can == (self.amount > 0),
    {
        self.amount > 0
    }

    /// The command with one turn used up.
    pub fn rotate(self) -> (input: Self)
        requires
            self.amount > 0,
        ensures
            input.direction == self.direction,
            input.amount == self.amount - 1,
    {
        let mut input = self;
        input.amount -= 1;
        input
    }
}

impl View for ActiveBlock {
    type V = Falling;

    open spec fn view(&self) -> Falling {
        Falling { position: self.position, piece: self.block@ }
    }
}

impl Clone for ActiveBlock {
    fn clone(&self) -> (active: Self)
        ensures
            active@ == self@,
    {
        Self { position: self.position, block: self.block.clone() }
    }
}

impl ActiveBlock {
    /// The model of a falling piece that may be absent.
    pub open spec fn view_of(block: Option<ActiveBlock>) -> Option<Falling> {
        match block {
            Some(block) => Some(block@),
            None => None,
        }
    }

    /// The piece `block` with the top left corner of its bounding box at
    /// `position`.
    pub fn new(position: Position, block: Block) -> (active: Self)
        ensures
            active.position == position,
            active.block == block,
    {
        Self { block, position }
    }

    /// Whether `p` lies inside the bounding box of the piece.
    pub fn on_inside(&self, p: &Position) -> (inside: bool)
        ensures
            inside == (self.position.x <= p.x < self.position.x + self.block.size.x
                && self.position.y <= p.y < self.position.y + self.block.size.y),
    {
        p.x >= self.position.x && p.x - self.position.x < self.block.size.x && p.y
            >= self.position.y && p.y - self.position.y < self.block.size.y
    }

    /// The cell of the piece that lies on the cell `p` of the board; where
    /// the piece does not reach, it is empty.
    pub fn state(&self, p: &Position) -> (state: State)
        requires
            self.block.wf(),
        ensures
            state == self@.cell_at(p.x as int, p.y as int),
    {
        if self.on_inside(p) {
            self.block.state(&p.sub(&self.position))
        } else {
            State::Empty
        }
    }

    /// Whether the piece may lie where it is on `board`.
    pub fn can_change(&self, board: &Board) -> (can: bool)
        requires
            self.block.wf(),
            board.wf(),
        ensures
            can == board@.accepts(self.position, self.block@),
    {
        board.can_change(&self.position, &self.block)
    }

    /// Takes one step of a move command back.
    pub fn reverse_move(self, direction: &InputMoveDirection) -> (active: Self)
        requires
            self.position.can_step(direction.back()),
        ensures
            active@ == self@.stepped(direction.back()),
    {
        let direction = match direction {
            InputMoveDirection::Left => MoveDirection::Right,
            InputMoveDirection::Right => MoveDirection::Left,
            InputMoveDirection::Bottom => MoveDirection::Top,
        };
        let mut active = self;
        active.position = active.position.moved(&direction);
        active
    }

    /// Takes one step of a move command.
    pub fn moved(self, direction: &InputMoveDirection) -> (active: Self)
        requires
            self.position.can_step(direction.forth()),
        ensures
            active@ == self@.stepped(direction.forth()),
    {
        let direction = match direction {
            InputMoveDirection::Left => MoveDirection::Left,
            InputMoveDirection::Right => MoveDirection::Right,
            InputMoveDirection::Bottom => MoveDirection::Bottom,
        };
        let mut active = self;
        active.position = active.position.moved(&direction);
        active
    }

    /// Takes one turn of a turn command back.
    pub fn reverse_rotate(self, direction: &InputRotateDirection) -> (active: Self)
        requires
            self.block.wf(),
        ensures
            active@ == self@.turned(direction.back()),
    {
        let direction = match direction {
            InputRotateDirection::Left => RotateDirection::Right,
            InputRotateDirection::Right => RotateDirection::Left,
        };
        let ActiveBlock { position, block } = self;
        ActiveBlock { position, block: block.rotate(direction) }
    }

    /// Takes one turn of a turn command.
    pub fn rotate(self, direction: &InputRotateDirection) -> (active: Self)
        requires
            self.block.wf(),
        ensures
            active@ == self@.turned(direction.forth()),
    {
        let direction = match direction {
            InputRotateDirection::Left => RotateDirection::Left,
            InputRotateDirection::Right => RotateDirection::Right,
        };
        let ActiveBlock { position, block } = self;
        ActiveBlock { position, block: block.rotate(direction) }
    }
}

impl View for Game {
    type V = Match;

    closed spec fn view(&self) -> Match {
        Match { board: self.board@, active: ActiveBlock::view_of(self.block) }
    }
}

impl Match {
    /// A step keeps a match well formed, whether it is kept or taken back.
    pub proof fn lemma_move_once(self, direction: InputMoveDirection)
        requires
            self.wf(),
        ensures
            self.move_once(direction).wf(),
            self.move_once(direction).board == self.board,
            self.can_move(direction) ==> self.move_once(direction).legal(),
    {
    }

    /// A turn keeps a match well formed, whether it is kept or taken back.
    pub proof fn lemma_turn_once(self, direction: InputRotateDirection)
        requires
            self.wf(),
        ensures
            self.turn_once(direction).wf(),
            self.turn_once(direction).board == self.board,
            self.can_turn(direction) ==> self.turn_once(direction).legal(),
    {
        if let Some(falling) = self.active {
            falling.piece.lemma_turned(direction.forth());
            falling.piece.turned(direction.forth()).lemma_turned(direction.back());
            falling.piece.lemma_turned_piece(direction.forth());
            falling.piece.turned(direction.forth()).lemma_turned_piece(direction.back());
        }
    }

    /// A new piece as it is first made lies inside the board.
    pub proof fn lemma_spawned(self, shape: Tetromino)
        requires
            self.wf(),
        ensures
            self.spawned(Grid::canonical(shape)).wf(),
    {
        Grid::lemma_canonical_piece(shape);
    }

    /// Falling or locking keeps a match well formed.
    pub proof fn lemma_fallen(self)
        requires
            self.wf(),
        ensures
            self.fallen().wf(),
    {
        if let Some(falling) = self.active {
            self.board.lemma_merged(falling.position, falling.piece);
        }
    }
}

impl Clone for Game {
    fn clone(&self) -> (game: Self)
        ensures
            game@ == self@,
    {
        proof {
            use_type_invariant(self);
        }
        let block = match &self.block {
            Some(active) => Some(active.clone()),
            None => None,
        };
        Self { board: self.board.clone(), block }
    }
}

impl Game {
    /// The board is of the standard extent, and the falling piece, if there
    /// is one, is a piece whose bounding box lies inside the board. This
    /// holds of every match.
    pub open spec fn wf(&self) -> bool {
        self@.wf()
    }

    #[verifier::type_invariant]
    spec fn valid(&self) -> bool {
        self@.wf()
    }

    /// A match with an empty board and no falling piece.
    pub fn new() -> (game: Self)
        ensures
            game.wf(),
            game@ == (Match { board: Grid::empty(standard_size()), active: None }),
    {
        let board = Board::new();
        let block = None;
        Self { board, block }
    }

    /// The match with the given board and falling piece.
    pub fn from_parts(board: Board, block: Option<ActiveBlock>) -> (game: Self)
        requires
            (Match { board: board@, active: ActiveBlock::view_of(block) }).wf(),
        ensures
            game.wf(),
            game@ == (Match { board: board@, active: ActiveBlock::view_of(block) }),
    {
        Self { board, block }
    }

    /// The board of the match.
    pub fn board(&self) -> (board: &Board)
        ensures
            board@ == self@.board,
    {
        &self.board
    }

    /// The falling piece of the match, if there is one.
    pub fn block(&self) -> (block: &Option<ActiveBlock>)
        ensures
            ActiveBlock::view_of(*block) == self@.active,
    {
        &self.block
    }

    /// Carries out a command on the falling piece.
    pub fn input(self, input: Input) -> (game: Self)
        ensures
            game.wf(),
            game@ == (match input {
                Input::Move(input) => self@.moved(input.direction, input.amount as nat),
                Input::Rotate(input) => self@.turned(input.direction, input.amount as nat),
            }),
{
        proof {
            use_type_invariant(&self);
        }
        match input {
            Input::Move(input) => self.input_move(input),
            Input::Rotate(input) => self.input_rotate(input),
        }
    }

    /// Moves the falling piece step by step, as far as the command asks and
    /// the board allows. The first step that had to be taken back ends the
    /// command.
    pub fn input_move(self, input: InputMove) -> (game: Self)
        ensures
            game.wf(),
            game@ == self@.moved(input.direction, input.amount as nat),
{
        proof {
            use_type_invariant(&self);
        }
        let Game { board, block } = self;
        match block {
            None => Game { board, block: None },
            Some(first) => {
                let mut active = first;
                let mut rest = input;
                while rest.can_move()
                    invariant
                        rest.direction == input.direction,
                        (Match { board: board@, active: Some(active@) }).wf(),
                        (Match { board: board@, active: Some(active@) }).moved(
                            input.direction,
                            rest.amount as nat,
                        ) == self@.moved(input.direction, input.amount as nat),
                    decreases rest.amount,
                {
                    proof {
                        (Match { board: board@, active: Some(active@) }).lemma_move_once(
                            input.direction,
                        );
                    }
                    let tried = active.moved(&rest.direction);
                    if !tried.can_change(&board) {
                        let back = tried.reverse_move(&rest.direction);
                        return Game { board, block: Some(back) };
                    }
                    active = tried;
                    rest = rest.moved();
                }
                Game { board, block: Some(active) }
            },
        }
    }

    /// Turns the falling piece quarter turn by quarter turn, as often as the
    /// command asks and the board allows. The first turn that had to be
    /// taken back ends the command.
    pub fn input_rotate(self, input: InputRotate) -> (game: Self)
        ensures
            game.wf(),
            game@ == self@.turned(input.direction, input.amount as nat),
{
        proof {
            use_type_invariant(&self);
        }
        let Game { board, block } = self;
        match block {
            None => Game { board, block: None },
            Some(first) => {
                let mut active = first;
                let mut rest = input;
                while rest.can_rotate()
                    invariant
                        rest.direction == input.direction,
                        (Match { board: board@, active: Some(active@) }).wf(),
                        (Match { board: board@, active: Some(active@) }).turned(
                            input.direction,
                            rest.amount as nat,
                        ) == self@.turned(input.direction, input.amount as nat),
                    decreases rest.amount,
                {
                    proof {
                        (Match { board: board@, active: Some(active@) }).lemma_turn_once(
                            input.direction,
                        );
                        active@.piece.lemma_turned(input.direction.forth());
                    }
                    let tried = active.rotate(&rest.direction);
                    if !tried.can_change(&board) {
                        let back = tried.reverse_rotate(&rest.direction);
                        return Game { board, block: Some(back) };
                    }
                    active = tried;
                    rest = rest.rotate();
                }
                Game { board, block: Some(active) }
            },
        }
    }

    /// Lets `piece` appear as the new falling piece, at column 3 of the top
    /// row, whatever lies there.
    pub fn spawn(self, piece: Block) -> (game: Self)
        requires
            piece.is_piece(),
        ensures
            game.wf(),
            game@ == self@.spawned(piece@),
    {
        proof {
            use_type_invariant(&self);
        }
        let Game { board, block: _ } = self;
        Game { board, block: Some(ActiveBlock::new(Position::new(3, 0), piece)) }
    }

    /// Lets the falling piece fall by one row; where it cannot, locks it
    /// into the board where it lies. Without a falling piece nothing
    /// happens.
    pub fn fall(self) -> (game: Self)
        ensures
            game.wf(),
            game@ == self@.fallen(),
{
        proof {
            use_type_invariant(&self);
        }
        proof {
            self@.lemma_fallen();
        }
        let Game { board, block } = self;
        match block {
            None => Game { board, block: None },
            Some(active) => {
                let direction = InputMoveDirection::Bottom;
                let tried = active.moved(&direction);
                if tried.can_change(&board) {
                    Game { board, block: Some(tried) }
                } else {
                    let back = tried.reverse_move(&direction);
                    let ActiveBlock { position, block } = back;
                    let board = board.set_block(&position, block);
                    Game { board, block: None }
                }
            },
        }
    }

    /// Clears the full rows of the board. Returns the match and the number
    /// of rows cleared.
    pub fn sweep(self) -> (result: (Self, usize))
        ensures
            result.0.wf(),
            result.0@ == self@.swept(),
            result.1 == self@.board.full_rows(),
{
        proof {
            use_type_invariant(&self);
        }
        proof {
            self@.board.lemma_cleared();
        }
        let Game { board, block } = self;
        let (board, count) = board.remove_valid_rows();
        (Game { board, block }, count)
    }

    /// One tick. Without a falling piece, a piece of a shape drawn at random
    /// appears. With one, it falls by one row or, where it cannot, is locked
    /// into the board. Then the full rows are cleared. Returns the match and
    /// the number of rows cleared.
    pub fn deside(self) -> (result: (Self, usize))
        ensures
            result.0.wf(),
            exists|shape: Tetromino|
                {
                    &&& result.0@ == #[trigger] self@.advanced(Grid::canonical(shape)).swept()
                    &&& result.1 == self@.advanced(Grid::canonical(shape)).board.full_rows()
                },
{
        proof {
            use_type_invariant(&self);
        }
        let game = if self.block.is_none() {
            let piece = Block::new();
            proof {
                let shape = choose|shape: Tetromino| piece@ == Grid::canonical(shape);
                self@.lemma_spawned(shape);
                assert(self@.spawned(piece@) == self@.spawned(Grid::canonical(shape)));
            }
            self.spawn(piece)
        } else {
            self.fall()
        };
        let result = game.sweep();
        proof {
            if self@.active is None {
                let shape = choose|shape: Tetromino| game@ == self@.spawned(Grid::canonical(shape));
                assert(result.0@ == self@.advanced(Grid::canonical(shape)).swept());
            } else {
                assert(result.0@ == self@.advanced(Grid::canonical(Tetromino::I)).swept());
            }
        }
        result
    }

    /// The extent of the board.
    pub fn size(&self) -> (size: Size)
        ensures
            size == self@.board.size,
    {
        self.board.size
    }

    /// What is seen at `p`: the cell of the falling piece where that is
    /// occupied, else the cell of the board.
    pub fn state(&self, p: Position) -> (state: State)
        ensures
            state == self@.cell_at(p.x as int, p.y as int),
            self@.active matches Some(falling) ==> (falling.cell_at(p.x as int, p.y as int).filled()
                ==> state == falling.cell_at(p.x as int, p.y as int)),
{
        proof {
            use_type_invariant(self);
        }
        if let Some(block) = &self.block {
            if let State::Block(shape) = block.state(&p) {
                return State::Block(shape);
            }
        }
        self.board.state(&p)
    }

    /// What is seen, row by row.
    pub fn table(&self) -> (table: Vec<Vec<State>>)
        ensures
            table@.len() == self@.board.size.y,
            forall|y: int| 0 <= y < table@.len() ==> (#[trigger] table@[y])@.len() == self@.board.size.x,
            forall|x: int, y: int|
                0 <= x < self@.board.size.x && 0 <= y < self@.board.size.y ==> table@[y]@[x]
                    == #[trigger] self@.cell_at(x, y),
{
        proof {
            use_type_invariant(self);
        }
        let mut table: Vec<Vec<State>> = Vec::new();
        for y in 0..self.board.size.y
            invariant
                self.wf(),
                table@.len() == y,
                forall|cy: int| 0 <= cy < y ==> (#[trigger] table@[cy])@.len() == self@.board.size.x,
                forall|cx: int, cy: int|
                    0 <= cx < self@.board.size.x && 0 <= cy < y ==> table@[cy]@[cx]
                        == #[trigger] self@.cell_at(cx, cy),
        {
            let mut row: Vec<State> = Vec::new();
            for x in 0..self.board.size.x
                invariant
                    self.wf(),
                    row@.len() == x,
                    forall|cx: int| 0 <= cx < x ==> row@[cx] == #[trigger] self@.cell_at(cx, y as int),
            {
                row.push(self.state(Position::new(x, y)));
            }
            table.push(row);
        }
        table
    }

    /// Draws the match: the board with the falling piece over it, each row
    /// between `<!` and `!>` with its cells as `[]` or ` .`, then the floor.
    pub fn to_string(&self) -> (text: String)
        ensures
            text@ == self@.text(),
{
        proof {
            use_type_invariant(self);
        }
        let mut text = String::new();
        for y in 0..self.board.size.y
            invariant
                self.wf(),
                text@ == rows_text(self@.cell_fn(), self@.board.size.x as nat, y as nat),
        {
            let ghost above = text@;
            text.append("<!");
            for x in 0..self.board.size.x
                invariant
                    self.wf(),
                    text@ == above + "<!"@ + cells_text(self@.cell_fn(), y as int, x as nat),
            {
                let state = self.state(Position::new(x, y));
                text.append(state.to_string().as_str());
                assert(text@ =~= above + "<!"@ + cells_text(
                    self@.cell_fn(),
                    y as int,
                    (x + 1) as nat,
                ));
            }
            text.append("!>\n");
        }
        append_floor(&mut text, self.board.size.x);
        text
    }
}

} // verus!
