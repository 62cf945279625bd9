//! What holds of turning pieces, of clearing rows and of the commands of a
//! match, whatever the grid and the match.

use vstd::prelude::*;
use crate::cell::{State, Tetromino};
use crate::game::{
    shifted,
    standard_size,
    Falling,
    InputMoveDirection,
    InputRotateDirection,
    Match,
};
use crate::geometry::{Position, RotateDirection};
use crate::grid::Grid;

verus! {

/// A quarter turn one way and then a quarter turn the other way gives the
/// grid back as it was.
pub proof fn lemma_turn_back(grid: Grid, direction: RotateDirection)
    requires
        grid.wf(),
    ensures
        grid.turned(direction).turned(direction.opposite()) == grid,
{
    let once = grid.turned(direction);
    let twice = once.turned(direction.opposite());
    grid.lemma_turned(direction);
    once.lemma_turned(direction.opposite());
    assert forall|x: int, y: int| 0 <= x < grid.size.x && 0 <= y < grid.size.y implies twice.at(
        x,
        y,
    ) == grid.at(x, y) by {
        assert(twice.at(x, y) == once.turned_at(direction.opposite(), x, y));
        match direction {
            RotateDirection::Left => {
                assert(once.at(y, once.size.y - 1 - x) == grid.turned_at(
                    direction,
                    y,
                    once.size.y - 1 - x,
                ));
            },
            RotateDirection::Right => {
                assert(once.at(once.size.x - 1 - y, x) == grid.turned_at(
                    direction,
                    once.size.x - 1 - y,
                    x,
                ));
            },
        }
    }
    twice.lemma_equal(grid);
}

/// A quarter turn takes each cell where the turn of its column and row
/// leads: to the left, the cell in column `c`, row `r` goes to column `r`,
/// row `width - c - 1`; to the right, to column `height - r - 1`, row `c`.
pub proof fn lemma_turned_cell(grid: Grid, direction: RotateDirection, p: Position)
    requires
        grid.wf(),
        grid.size.contains(p),
    ensures
        grid.size.transposed().contains(p.turned(grid.size, direction)),
        grid.turned(direction).at(
            p.turned(grid.size, direction).x as int,
            p.turned(grid.size, direction).y as int,
        ) == grid.at(p.x as int, p.y as int),
{
    grid.lemma_turned(direction);
}

/// The square has one orientation: a quarter turn leaves it as it is.
pub proof fn lemma_square_turned(direction: RotateDirection)
    ensures
        Grid::canonical(Tetromino::O).turned(direction) == Grid::canonical(Tetromino::O),
{
    let square = Grid::canonical(Tetromino::O);
    let turned = square.turned(direction);
    Grid::lemma_canonical(Tetromino::O);
    Grid::lemma_canonical_at(Tetromino::O);
    square.lemma_turned(direction);
    turned.lemma_equal(square);
}

/// The shapes I, S and Z have two orientations: a quarter turn to the left
/// and a quarter turn to the right give the same piece.
pub proof fn lemma_two_orientations(shape: Tetromino)
    requires
        shape == Tetromino::I || shape == Tetromino::S || shape == Tetromino::Z,
    ensures
        Grid::canonical(shape).turned(RotateDirection::Left) == Grid::canonical(shape).turned(
            RotateDirection::Right,
        ),
{
    let piece = Grid::canonical(shape);
    let left = piece.turned(RotateDirection::Left);
    let right = piece.turned(RotateDirection::Right);
    Grid::lemma_canonical(shape);
    Grid::lemma_canonical_at(shape);
    piece.lemma_turned(RotateDirection::Left);
    piece.lemma_turned(RotateDirection::Right);
    assert forall|x: int, y: int| 0 <= x < left.size.x && 0 <= y < left.size.y implies left.at(x, y)
        == right.at(x, y) by {
        assert(left.at(x, y) == piece.at(piece.size.x - 1 - y, x));
        assert(right.at(x, y) == piece.at(y, piece.size.y - 1 - x));
    }
    left.lemma_equal(right);
}

/// A grid without a full row is left as it is, and no row is counted.
pub proof fn lemma_cleared_none(grid: Grid)
    requires
        grid.wf(),
        forall|y: int| 0 <= y < grid.size.y ==> !grid.row_full(y),
    ensures
        grid.cleared() == grid,
        grid.full_rows() == 0,
{
    assert(grid.kept_rows(0).len() == 0);
    assert(grid.cleared_above(grid, 0, 0));
    grid.lemma_pass_rows(grid, 0, 0, grid.size.y as nat);
    grid.lemma_cleared_all(grid, 0);
}

/// Where exactly one row is full, clearing takes out that row: the rows
/// above it move down by one, the top row becomes empty, the rows below it
/// stay, and one row is counted.
pub proof fn lemma_cleared_one(grid: Grid, row: int)
    requires
        grid.wf(),
        0 <= row < grid.size.y,
        forall|y: int| 0 <= y < grid.size.y ==> (grid.row_full(y) <==> y == row),
    ensures
        grid.cleared() == grid.dropped(row),
        grid.full_rows() == 1,
        forall|x: int, y: int| #[trigger]
            grid.cleared().at(x, y) == (if 0 < y <= row {
                grid.at(x, y - 1)
            } else if y == 0 {
                State::Empty
            } else {
                grid.at(x, y)
            }),
{
    assert(grid.kept_rows(0).len() == 0);
    assert(grid.cleared_above(grid, 0, 0));
    grid.lemma_pass_rows(grid, 0, 0, row as nat);
    grid.lemma_drop_row(grid, row as nat, 0);
    grid.lemma_pass_rows(grid.dropped(row), (row + 1) as nat, 1, grid.size.y as nat);
    grid.lemma_cleared_all(grid.dropped(row), 1);
    grid.lemma_dropped(row);
}

/// The number of rows that clearing counts is the number of full rows.
pub proof fn lemma_full_rows(grid: Grid)
    ensures
        grid.full_rows_set().finite(),
        grid.full_rows() == grid.full_rows_set().len(),
{
    lemma_full_rows_above(grid, grid.size.y as nat);
    assert(grid.full_rows_above(grid.size.y as nat) =~= grid.full_rows_set());
}

/// Of the rows above row `n`, those that are not kept are the full ones.
proof fn lemma_full_rows_above(grid: Grid, n: nat)
    ensures
        grid.full_rows_above(n).finite(),
        grid.full_rows_above(n).len() + grid.kept_rows(n).len() == n,
    decreases n,
{
    if n == 0 {
        assert(grid.full_rows_above(0) =~= Set::empty());
    } else {
        let below = (n - 1) as nat;
        lemma_full_rows_above(grid, below);
        if grid.row_full(n - 1) {
            assert(grid.full_rows_above(n) =~= grid.full_rows_above(below).insert(n - 1));
        } else {
            assert(grid.full_rows_above(n) =~= grid.full_rows_above(below));
        }
    }
}

/// After clearing, no row of a grid that has columns is full, and the rows
/// that were cleared are empty rows at the top.
pub proof fn lemma_cleared_settled(grid: Grid)
    requires
        grid.wf(),
        grid.size.x > 0,
    ensures
        forall|y: int| 0 <= y < grid.size.y ==> !grid.cleared().row_full(y),
        forall|x: int, y: int| y < grid.full_rows() ==> #[trigger] grid.cleared().at(x, y)
            == State::Empty,
{
    grid.lemma_cleared();
    grid.lemma_kept_rows(grid.size.y as nat);
    let cleared = grid.cleared();
    assert forall|y: int| 0 <= y < grid.size.y implies !cleared.row_full(y) by {
        if y < grid.full_rows() {
            assert(!cleared.at(0, y).filled());
        } else {
            let from = grid.kept_rows(grid.size.y as nat)[y - grid.full_rows()];
            assert(!grid.row_full(from));
            let x = choose|x: int| 0 <= x < grid.size.x && !(#[trigger] grid.at(x, from)).filled();
            assert(cleared.at(x, y) == grid.at(x, from));
        }
    }
}

/// Where a number of steps lead, as long as they stay within the machine's
/// integers: to the left down to column 0 and no further, to the right and
/// down without end.
pub proof fn lemma_shifted(position: Position, direction: InputMoveDirection, steps: nat)
    requires
        direction == InputMoveDirection::Right ==> position.x + steps <= usize::MAX,
        direction == InputMoveDirection::Bottom ==> position.y + steps <= usize::MAX,
    ensures
        shifted(position, direction, steps) == (match direction {
            InputMoveDirection::Left => Position {
                x: if position.x >= steps {
                    (position.x - steps) as usize
                } else {
                    0
                },
                y: position.y,
            },
            InputMoveDirection::Right => Position {
                x: (position.x + steps) as usize,
                y: position.y,
            },
            InputMoveDirection::Bottom => Position {
                x: position.x,
                y: (position.y + steps) as usize,
            },
        }),
    decreases steps,
{
    if steps > 0 {
        lemma_shifted(position, direction, (steps - 1) as nat);
    }
}

/// One step and then `steps` more lead where `steps + 1` steps lead.
pub proof fn lemma_shifted_first(position: Position, direction: InputMoveDirection, steps: nat)
    ensures
        shifted(position.stepped(direction.forth()), direction, steps) == shifted(
            position,
            direction,
            steps + 1,
        ),
    decreases steps,
{
    if steps > 0 {
        lemma_shifted_first(position, direction, (steps - 1) as nat);
    } else {
        assert(shifted(position, direction, 1) == shifted(position, direction, 0).stepped(
            direction.forth(),
        ));
    }
}

/// A command to move leaves the board as it is and keeps the piece; the
/// match stays well formed.
pub proof fn lemma_moved_wf(game: Match, direction: InputMoveDirection, amount: nat)
    requires
        game.wf(),
    ensures
        game.moved(direction, amount).wf(),
        game.moved(direction, amount).board == game.board,
        game.active is Some <==> game.moved(direction, amount).active is Some,
        game.active is Some ==> game.moved(direction, amount).active->0.piece
            == game.active->0.piece,
    decreases amount,
{
    game.lemma_move_once(direction);
    if game.active is Some && amount > 0 && game.can_move(direction) {
        lemma_moved_wf(game.move_once(direction), direction, (amount - 1) as nat);
    }
}

/// Where the falling piece lies on empty cells and cannot take a step, a
/// command to move leaves the match as it is, however many steps it asks
/// for.
pub proof fn lemma_blocked_stays(game: Match, direction: InputMoveDirection, amount: nat)
    requires
        game.wf(),
        game.legal(),
        !game.can_move(direction),
    ensures
        game.moved(direction, amount) == game,
{
}

/// What a command to move does to a falling piece that lies on empty cells:
/// it takes the piece as many steps as are kept, each of them to a place
/// where the piece may lie, and it ends early only where the next step is
/// to a place where the piece may not lie.
pub proof fn lemma_moved(game: Match, direction: InputMoveDirection, amount: nat)
    requires
        game.wf(),
        game.legal(),
        game.active is Some,
    ensures
        game.steps_taken(direction, amount) <= amount,
        game.moved(direction, amount) == game.with(
            Falling {
                position: shifted(
                    game.active->0.position,
                    direction,
                    game.steps_taken(direction, amount),
                ),
                piece: game.active->0.piece,
            },
        ),
        game.moved(direction, amount).legal(),
        forall|steps: nat|
            steps <= game.steps_taken(direction, amount) ==> game.board.accepts(
                #[trigger] shifted(game.active->0.position, direction, steps),
                game.active->0.piece,
            ),
        game.steps_taken(direction, amount) < amount ==> !game.board.accepts(
            shifted(
                game.active->0.position,
                direction,
                game.steps_taken(direction, amount) + 1,
            ),
            game.active->0.piece,
        ),
    decreases amount,
{
    let falling = game.active->0;
    let taken = game.steps_taken(direction, amount);
    assert(shifted(falling.position, direction, 1) == shifted(
        falling.position,
        direction,
        0,
    ).stepped(direction.forth()));
    if amount > 0 && game.can_move(direction) {
        let next = game.move_once(direction);
        let rest = (amount - 1) as nat;
        game.lemma_move_once(direction);
        lemma_moved(next, direction, rest);
        let more = next.steps_taken(direction, rest);
        lemma_shifted_first(falling.position, direction, more);
        lemma_shifted_first(falling.position, direction, more + 1);
        assert forall|steps: nat| steps <= taken implies game.board.accepts(
            #[trigger] shifted(falling.position, direction, steps),
            falling.piece,
        ) by {
            if steps > 0 {
                lemma_shifted_first(falling.position, direction, (steps - 1) as nat);
                assert(game.board.accepts(
                    shifted(next.active->0.position, direction, (steps - 1) as nat),
                    falling.piece,
                ));
            }
        }
    }
}

/// A command to move that was stopped short leaves nothing for a second
/// command in the same direction to do.
pub proof fn lemma_moved_again(
    game: Match,
    direction: InputMoveDirection,
    amount: nat,
    again: nat,
)
    requires
        game.wf(),
        game.legal(),
        game.active is Some,
        game.steps_taken(direction, amount) < amount,
    ensures
        game.moved(direction, amount).moved(direction, again) == game.moved(direction, amount),
{
    lemma_moved(game, direction, amount);
    lemma_moved_wf(game, direction, amount);
    lemma_blocked_stays(game.moved(direction, amount), direction, again);
}

/// On an empty board a command to move with enough steps takes the falling
/// piece to the wall: to column 0 on the left, to the last column that holds
/// its bounding box on the right, to the last such row at the bottom.
pub proof fn lemma_moved_to_wall(game: Match, direction: InputMoveDirection, amount: nat)
    requires
        game.wf(),
        game.board == Grid::empty(standard_size()),
        game.active is Some,
        amount >= 20,
    ensures
        game.moved(direction, amount).board == game.board,
        game.moved(direction, amount).active == Some(
            Falling {
                position: match direction {
                    InputMoveDirection::Left => Position { x: 0, y: game.active->0.position.y },
                    InputMoveDirection::Right => Position {
                        x: (10 - game.active->0.piece.size.x) as usize,
                        y: game.active->0.position.y,
                    },
                    InputMoveDirection::Bottom => Position {
                        x: game.active->0.position.x,
                        y: (20 - game.active->0.piece.size.y) as usize,
                    },
                },
                piece: game.active->0.piece,
            },
        ),
{
    let falling = game.active->0;
    Grid::lemma_empty(standard_size());
    lemma_moved(game, direction, amount);
    let taken = game.steps_taken(direction, amount);
    if direction != InputMoveDirection::Left && taken > 20 {
        lemma_shifted(falling.position, direction, 21);
        assert(game.board.accepts(shifted(falling.position, direction, 21), falling.piece));
    }
    lemma_shifted(falling.position, direction, taken);
    lemma_shifted(falling.position, direction, taken + 1);
    assert(game.board.accepts(shifted(falling.position, direction, taken), falling.piece));
    let beyond = shifted(falling.position, direction, taken + 1);
    assert(game.board.clear_of(beyond, falling.piece));
}

/// A command to move keeps a falling piece that lies on empty cells on
/// empty cells.
pub proof fn lemma_moved_legal(game: Match, direction: InputMoveDirection, amount: nat)
    requires
        game.wf(),
        game.legal(),
    ensures
        game.moved(direction, amount).legal(),
{
    if game.active is Some {
        lemma_moved(game, direction, amount);
    }
}

/// A command to turn leaves the board as it is, keeps the match well formed
/// and keeps a falling piece that lies on empty cells on empty cells.
pub proof fn lemma_turned_legal(game: Match, direction: InputRotateDirection, amount: nat)
    requires
        game.wf(),
    ensures
        game.turned(direction, amount).wf(),
        game.turned(direction, amount).board == game.board,
        game.legal() ==> game.turned(direction, amount).legal(),
    decreases amount,
{
    game.lemma_turn_once(direction);
    if game.active is Some && amount > 0 {
        if game.can_turn(direction) {
            lemma_turned_legal(game.turn_once(direction), direction, (amount - 1) as nat);
        } else {
            lemma_turn_back(game.active->0.piece, direction.forth());
        }
    }
}

/// A turn that had to be taken back leaves the match as it was, and so does
/// the whole command.
pub proof fn lemma_turn_blocked_stays(game: Match, direction: InputRotateDirection, amount: nat)
    requires
        game.wf(),
        !game.can_turn(direction),
    ensures
        game.turned(direction, amount) == game,
{
    if game.active is Some {
        lemma_turn_back(game.active->0.piece, direction.forth());
    }
}

/// A match that starts has an empty board without a full row and no falling
/// piece; it is well formed.
pub proof fn lemma_fresh_match()
    ensures
        (Match { board: Grid::empty(standard_size()), active: None }).wf(),
        (Match { board: Grid::empty(standard_size()), active: None }).legal(),
        (Match { board: Grid::empty(standard_size()), active: None }).settled(),
{
    Grid::lemma_empty(standard_size());
    let board = Grid::empty(standard_size());
    assert forall|y: int| 0 <= y < board.size.y implies !board.row_full(y) by {
        assert(!board.at(0, y).filled());
    }
}

/// After a tick no row of the board is full.
pub proof fn lemma_tick_settles(game: Match, piece: Grid)
    requires
        game.wf(),
    ensures
        game.advanced(piece).swept().settled(),
{
    game.lemma_fallen();
    lemma_cleared_settled(game.advanced(piece).board);
    game.advanced(piece).board.lemma_cleared();
}

/// A tick keeps a falling piece that lies on empty cells on empty cells, as
/// long as no row of the board was full before it.
pub proof fn lemma_tick_legal(game: Match, piece: Grid)
    requires
        game.wf(),
        game.legal(),
        game.settled(),
        game.active is Some,
    ensures
        game.advanced(piece).swept().legal(),
{
    if game.can_fall() {
        lemma_cleared_none(game.board);
    }
}

/// Where no row of the board is full, a tick that lets a piece appear or
/// fall leaves the board as it is and clears no row.
pub proof fn lemma_tick_keeps_board(game: Match, piece: Grid)
    requires
        game.wf(),
        game.settled(),
        game.active is None || game.can_fall(),
    ensures
        game.advanced(piece).swept() == game.advanced(piece),
        game.advanced(piece).board == game.board,
        game.advanced(piece).board.full_rows() == 0,
{
    lemma_cleared_none(game.board);
}

} // verus!
