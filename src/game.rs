//! One tick of the game, and the per-cell picture of the board.
use vstd::prelude::*;

use crate::land::{board_full, is_free, Land};
use crate::point::{valid_dim, Point};
use crate::snake::{body_contains, Direction, Snake};

verus! {

/// A key press, as far as the game tells keys apart.
#[derive(Clone, Copy, Debug, PartialEq, Eq, Structural)]
pub enum Key {
    Char(char),
    Up,
    Down,
    Left,
    Right,
    Other,
}

/// What a key asks of the game.
#[derive(Clone, Copy, Debug, PartialEq, Eq, Structural)]
pub enum Command {
    Go(Direction),
    Quit,
    Idle,
}

/// How the game stands after a tick.
#[derive(Clone, Copy, Debug, PartialEq, Eq, Structural)]
pub enum Signal {
    Running,
    Collided,
    Quit,
    BoardFull,
}

/// The arrow keys and `w`, `a`, `s`, `d` steer; `q` quits; any other key
/// leaves the snake where it is.
pub open spec fn command_of(key: Key) -> Command {
    match key {
        Key::Up | Key::Char('w') => Command::Go(Direction::Up),
        Key::Down | Key::Char('s') => Command::Go(Direction::Down),
        Key::Left | Key::Char('a') => Command::Go(Direction::Left),
        Key::Right | Key::Char('d') => Command::Go(Direction::Right),
        Key::Char('q') => Command::Quit,
        _ => Command::Idle,
    }
}

/// The command that `key` gives.
pub fn command(key: Key) -> (r: Command)
    ensures
        r == command_of(key),
{
    match key {
        Key::Up | Key::Char('w') => Command::Go(Direction::Up),
        Key::Down | Key::Char('s') => Command::Go(Direction::Down),
        Key::Left | Key::Char('a') => Command::Go(Direction::Left),
        Key::Right | Key::Char('d') => Command::Go(Direction::Right),
        Key::Char('q') => Command::Quit,
        _ => Command::Idle,
    }
}

/// The code of cell `(x, y)`: 2 for the food, 1 for the body, 0 for empty.
pub open spec fn cell_code(body: Seq<Point>, food: Point, x: int, y: int) -> i8 {
    if food == Point(x as i16, y as i16) {
        2
    } else if body.contains(Point(x as i16, y as i16)) {
        1
    } else {
        0
    }
}

/// Plays one tick on `key`. A quit key ends the game; a steering key moves
/// the snake, and where the head then stands on the food the snake grows and
/// the food moves to a free cell. A move into the body ends the game and
/// changes nothing; so does a board with no cell left for the food.
pub fn tick(snake: &mut Snake, land: &mut Land, key: Key) -> (r: Signal)
    requires
        old(snake)@.wf(),
        valid_dim(old(land).cols as int),
        valid_dim(old(land).rows as int),
    ensures
        final(snake)@.wf(),
        final(land).cols == old(land).cols,
        final(land).rows == old(land).rows,
        match command_of(key) {
            Command::Quit => {
                &&& r == Signal::Quit
                &&& final(snake)@ == old(snake)@
                &&& final(land).food == old(land).food
            },
            Command::Idle => {
                &&& r == Signal::Running
                &&& final(snake)@ == old(snake)@
                &&& final(land).food == old(land).food
            },
            Command::Go(d) => {
                let s = old(snake)@;
                let c = s.candidate(d);
                let cols = old(land).cols as int;
                let rows = old(land).rows as int;
                let food = old(land).food.pos;
                if s.body.contains(c) {
                    &&& r == Signal::Collided
                    &&& final(snake)@ == s
                    &&& final(land).food == old(land).food
                } else if c == food {
                    &&& final(snake)@ == s.stepped(d).grown()
                    &&& final(snake)@.body.len() == s.body.len() + 1
                    &&& r == Signal::Running || r == Signal::BoardFull
                    &&& r == Signal::Running ==> is_free(final(land).food.pos, cols, rows, final(snake)@.body, food)
                    &&& r == Signal::BoardFull ==> final(land).food == old(land).food
                    &&& r == Signal::BoardFull ==> board_full(cols, rows, final(snake)@.body, food)
                } else {
                    &&& r == Signal::Running
                    &&& final(snake)@ == s.stepped(d)
                    &&& final(land).food == old(land).food
                }
            },
        },
{
    let collided = match command(key) {
        Command::Quit => {
            return Signal::Quit;
        },
        Command::Idle => {
            return Signal::Running;
        },
        Command::Go(Direction::Up) => snake.move_up(),
        Command::Go(Direction::Down) => snake.move_down(),
        Command::Go(Direction::Left) => snake.move_left(),
        Command::Go(Direction::Right) => snake.move_right(),
    };
    if collided {
        return Signal::Collided;
    }
    if snake.body[0] == land.food.pos {
        snake.eat();
        if land.refood(&snake.body) {
            Signal::Running
        } else {
            Signal::BoardFull
        }
    } else {
        Signal::Running
    }
}

/// Fills `world` with the picture of the board: one row per board row, one
/// code per cell (see `cell_code`).
pub fn make_world(world: &mut Vec<Vec<i8>>, land: &Land, snake: &Snake)
    requires
        valid_dim(land.cols as int),
        valid_dim(land.rows as int),
    ensures
        final(world)@.len() == land.rows,
        forall|y: int|
            0 <= y < land.rows ==> (#[trigger] final(world)@[y])@.len() == land.cols,
        forall|y: int, x: int|
            0 <= y < land.rows && 0 <= x < land.cols ==> (#[trigger] final(world)@[y]@[x])
                == cell_code(snake.body@, land.food.pos, x, y),
{
    let mut grid: Vec<Vec<i8>> = Vec::new();
    let mut y: u16 = 0;
    while y < land.rows
        invariant
            valid_dim(land.cols as int),
            valid_dim(land.rows as int),
            y <= land.rows,
            grid@.len() == y,
            forall|j: int| 0 <= j < y ==> (#[trigger] grid@[j])@.len() == land.cols,
            forall|j: int, x: int|
                0 <= j < y && 0 <= x < land.cols ==> (#[trigger] grid@[j]@[x]) == cell_code(
                    snake.body@,
                    land.food.pos,
                    x,
                    j,
                ),
        decreases land.rows - y,
    {
        let mut row: Vec<i8> = Vec::new();
        let mut x: u16 = 0;
        while x < land.cols
            invariant
                valid_dim(land.cols as int),
                valid_dim(land.rows as int),
                y < land.rows,
                x <= land.cols,
                row@.len() == x,
                forall|i: int|
                    0 <= i < x ==> #[trigger] row@[i] == cell_code(
                        snake.body@,
                        land.food.pos,
                        i,
                        y as int,
                    ),
            decreases land.cols - x,
        {
            let p = Point(x as i16, y as i16);
            let code: i8 = if p == land.food.pos {
                2
            } else if body_contains(&snake.body, p) {
                1
            } else {
                0
            };
            row.push(code);
            x += 1;
        }
        grid.push(row);
        y += 1;
    }
    *world = grid;
}

} // verus!
