//! Cells of the board and the wrap-around arithmetic on them.
use vstd::prelude::*;

verus! {

/// A cell of the board: column, then row.
#[derive(Clone, Copy, Debug, PartialEq, Eq, Structural)]
pub struct Point(pub i16, pub i16);

/// The Euclidean remainder of `v` by a positive `n`: always in `[0, n)`.
pub open spec fn wrap(v: int, n: int) -> int {
    v % n
}

/// The cell that `(x, y)` lands on, on a board of `cols` columns and `rows` rows.
pub open spec fn wrapped(x: int, y: int, cols: int, rows: int) -> Point {
    Point(wrap(x, cols) as i16, wrap(y, rows) as i16)
}

/// Whether `p` lies on a board of `cols` columns and `rows` rows.
pub open spec fn on_board(p: Point, cols: int, rows: int) -> bool {
    0 <= p.0 < cols && 0 <= p.1 < rows
}

/// A usable board dimension: at least one cell, and a count that `i16` holds.
pub open spec fn valid_dim(n: int) -> bool {
    1 <= n <= i16::MAX
}

/// Maps `p` onto the board of `cols` columns and `rows` rows, wrapping each
/// coordinate around with a non-negative remainder.
pub fn normalize(p: Point, cols: u16, rows: u16) -> (r: Point)
    requires
        valid_dim(cols as int),
        valid_dim(rows as int),
    ensures
        r == wrapped(p.0 as int, p.1 as int, cols as int, rows as int),
        on_board(r, cols as int, rows as int),
{
    let x = match p.0.checked_rem_euclid(cols as i16) {
        Some(v) => v,
        None => 0,
    };
    let y = match p.1.checked_rem_euclid(rows as i16) {
        Some(v) => v,
        None => 0,
    };
    Point(x, y)
}

/// Moving a coordinate by a full board width (or height) lands on the same cell.
pub proof fn lemma_wrap_full_turn(x: int, y: int, n: int)
    requires
        n >= 1,
    ensures
        wrapped(x - n, y, n, n) == wrapped(x, y, n, n),
        wrapped(x, y - n, n, n) == wrapped(x, y, n, n),
{
    vstd::arithmetic::div_mod::lemma_mod_sub_multiples_vanish(x, n);
    vstd::arithmetic::div_mod::lemma_mod_sub_multiples_vanish(y, n);
}

} // verus!
