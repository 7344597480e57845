//! The board and the food on it, and where new food goes.
use std::collections::VecDeque;
use rand::Rng;
use vstd::prelude::*;

use crate::point::{on_board, valid_dim, Point};
use crate::snake::body_contains;

verus! {

#[verifier::external_type_specification]
#[verifier::external_body]
pub struct ExThreadRng(rand::rngs::ThreadRng);

/// Relies on rand::thread_rng: it hands out the thread's generator; nothing is
/// stated of it.
pub assume_specification[ rand::thread_rng ]() -> rand::rngs::ThreadRng;

/// Relies on rand::Rng::gen_range: on a range `0..n` it returns a value of the
/// range, and it panics where the range is empty.
#[verifier::external_body]
fn draw_below(rng: &mut rand::rngs::ThreadRng, n: i16) -> (r: i16)
    requires
        n > 0,
    ensures
        0 <= r < n,
{
    rng.gen_range(0..n)
}

/// How many random draws food placement makes before it looks for a free
/// cell in order.
pub const FOOD_DRAWS: u32 = 1000;

/// A cell where new food may go: on the board, off the body, and not where
/// the food was.
pub open spec fn is_free(p: Point, cols: int, rows: int, body: Seq<Point>, prev: Point) -> bool {
    on_board(p, cols, rows) && !body.contains(p) && p != prev
}

/// Every cell of the board is on the body or is the old food cell.
pub open spec fn board_full(cols: int, rows: int, body: Seq<Point>, prev: Point) -> bool {
    forall|p: Point| #[trigger] on_board(p, cols, rows) ==> body.contains(p) || p == prev
}

/// The single food item.
pub struct Food {
    pub pos: Point,
}

/// The square board and its food.
pub struct Land {
    pub cols: u16,
    pub rows: u16,
    pub food: Food,
}

/// The first free cell in row order, or `None` where the board is full.
fn first_free_cell(cols: u16, rows: u16, food_pos: &Point, snake: &VecDeque<Point>) -> (r: Option<
    Point,
>)
    requires
        valid_dim(cols as int),
        valid_dim(rows as int),
    ensures
        match r {
            Some(p) => is_free(p, cols as int, rows as int, snake@, *food_pos),
            None => board_full(cols as int, rows as int, snake@, *food_pos),
        },
{
    let mut y: i16 = 0;
    while y < rows as i16
        invariant
            valid_dim(cols as int),
            valid_dim(rows as int),
            0 <= y <= rows,
            forall|p: Point|
                #[trigger] on_board(p, cols as int, rows as int) && p.1 < y ==> snake@.contains(p)
                    || p == *food_pos,
        decreases rows - y,
    {
        let mut x: i16 = 0;
        while x < cols as i16
            invariant
                valid_dim(cols as int),
                valid_dim(rows as int),
                0 <= y < rows,
                0 <= x <= cols,
                forall|p: Point|
                    #[trigger] on_board(p, cols as int, rows as int) && (p.1 < y || (p.1 == y
                        && p.0 < x)) ==> snake@.contains(p) || p == *food_pos,
            decreases cols - x,
        {
            let p = Point(x, y);
            if !body_contains(snake, p) && p != *food_pos {
                return Some(p);
            }
            x += 1;
        }
        y += 1;
    }
    None
}

/// A new food cell: on the board, off the snake's body, and not the old food
/// cell. Cells are drawn at random, up to `FOOD_DRAWS` times; after that the
/// first free cell in row order is taken. `None` only where no cell is free.
pub fn random_point(cols: u16, rows: u16, food_pos: &Point, snake: &VecDeque<Point>) -> (r: Option<
    Point,
>)
    requires
        valid_dim(cols as int),
        valid_dim(rows as int),
    ensures
        match r {
            Some(p) => is_free(p, cols as int, rows as int, snake@, *food_pos),
            None => board_full(cols as int, rows as int, snake@, *food_pos),
        },
{
    let mut rng = rand::thread_rng();
    let mut tries: u32 = 0;
    while tries < FOOD_DRAWS
        invariant
            valid_dim(cols as int),
            valid_dim(rows as int),
        decreases FOOD_DRAWS - tries,
    {
        let p = Point(draw_below(&mut rng, cols as i16), draw_below(&mut rng, rows as i16));
        if !body_contains(snake, p) && p != *food_pos {
            return Some(p);
        }
        tries += 1;
    }
    first_free_cell(cols, rows, food_pos, snake)
}

impl Land {
    /// A square board whose side is the smaller of `cols` and `rows`, with the
    /// food at `(5, 5)`.
    pub fn new(cols: u16, rows: u16) -> (r: Land)
        ensures
            r.cols == r.rows,
            r.cols == if cols <= rows {
                cols
            } else {
                rows
            },
            r.food.pos == Point(5, 5),
    {
        let min = if cols <= rows {
            cols
        } else {
            rows
        };
        Land { cols: min, rows: min, food: Food { pos: Point(5, 5) } }
    }

    /// Moves the food to a new cell off `snake_body` and off its old cell.
    /// Returns `false`, with the food left where it was, only where no cell
    /// is free.
    pub fn refood(&mut self, snake_body: &VecDeque<Point>) -> (placed: bool)
        requires
            valid_dim(old(self).cols as int),
            valid_dim(old(self).rows as int),
        ensures
            final(self).cols == old(self).cols,
            final(self).rows == old(self).rows,
            placed ==> is_free(
                final(self).food.pos,
                old(self).cols as int,
                old(self).rows as int,
                snake_body@,
                old(self).food.pos,
            ),
            !placed ==> final(self).food.pos == old(self).food.pos && board_full(
                old(self).cols as int,
                old(self).rows as int,
                snake_body@,
                old(self).food.pos,
            ),
    {
        match random_point(self.cols, self.rows, &self.food.pos, snake_body) {
            Some(p) => {
                self.food.pos = p;
                true
            },
            None => false,
        }
    }
}

} // verus!
