//! The snake: its body on the board, its moves, and its growth.
use std::collections::VecDeque;
use vstd::prelude::*;

use crate::point::{normalize, valid_dim, wrapped, Point};

verus! {

/// One of the four directions a move can take.
#[derive(Clone, Copy, Debug, PartialEq, Eq, Structural)]
pub enum Direction {
    Up,
    Down,
    Left,
    Right,
}

/// The unit step of a direction: rows grow downwards.
pub open spec fn delta(d: Direction) -> (int, int) {
    match d {
        Direction::Up => (0, -1),
        Direction::Down => (0, 1),
        Direction::Left => (-1, 0),
        Direction::Right => (1, 0),
    }
}

/// Both coordinates are far enough from the ends of `i16` that a unit step
/// in any direction stays representable.
pub open spec fn in_span(p: Point) -> bool {
    0 <= p.0 < i16::MAX && 0 <= p.1 < i16::MAX
}

/// The abstract state of a snake: its body from head to tail, the tail cell
/// that the last move removed (kept until growth puts it back), and the board.
pub struct SnakeModel {
    pub body: Seq<Point>,
    pub pending: Option<Point>,
    pub cols: int,
    pub rows: int,
}

impl SnakeModel {
    /// A snake that can be moved: a usable board, at least one segment, no
    /// two segments on one cell, and a pending tail cell off the body.
    pub open spec fn wf(self) -> bool {
        &&& valid_dim(self.cols)
        &&& valid_dim(self.rows)
        &&& self.body.len() >= 1
        &&& self.body.no_duplicates()
        &&& forall|i: int| 0 <= i < self.body.len() ==> #[trigger] in_span(self.body[i])
        &&& match self.pending {
            Some(p) => !self.body.contains(p) && in_span(p),
            None => true,
        }
    }

    pub open spec fn head(self) -> Point {
        self.body[0]
    }

    /// The cell that the head would enter when moved in direction `d`.
    pub open spec fn candidate(self, d: Direction) -> Point {
        wrapped(
            self.head().0 + delta(d).0,
            self.head().1 + delta(d).1,
            self.cols,
            self.rows,
        )
    }

    /// The state after the head enters `p` and the tail leaves.
    pub open spec fn advanced(self, p: Point) -> SnakeModel {
        SnakeModel {
            body: seq![p] + self.body.drop_last(),
            pending: Some(self.body.last()),
            ..self
        }
    }

    /// A move into `p`: refused, with nothing changed, where `p` is on the body.
    pub open spec fn moved_to(self, p: Point) -> SnakeModel {
        if self.body.contains(p) {
            self
        } else {
            self.advanced(p)
        }
    }

    /// A move in direction `d`.
    pub open spec fn stepped(self, d: Direction) -> SnakeModel {
        self.moved_to(self.candidate(d))
    }

    /// Growth: the pending tail cell goes back on the tail, once.
    pub open spec fn grown(self) -> SnakeModel {
        match self.pending {
            Some(p) => SnakeModel { body: self.body.push(p), pending: None, ..self },
            None => self,
        }
    }
}

/// A snake on a board of `cols` columns and `rows` rows.
pub struct Snake {
    pub body: VecDeque<Point>,
    pub rows: u16,
    pub cols: u16,
    pub poped: Option<Point>,
}

impl View for Snake {
    type V = SnakeModel;

    open spec fn view(&self) -> SnakeModel {
        SnakeModel {
            body: self.body@,
            pending: self.poped,
            cols: self.cols as int,
            rows: self.rows as int,
        }
    }
}

/// Whether `p` is one of the cells of `body`.
pub fn body_contains(body: &VecDeque<Point>, p: Point) -> (r: bool)
    ensures
        r == body@.contains(p),
{
    let n = body.len();
    let mut i: usize = 0;
    while i < n
        invariant
            n == body@.len(),
            i <= n,
            forall|j: int| 0 <= j < i ==> body@[j] != p,
        decreases n - i,
    {
        if body[i] == p {
            return true;
        }
        i += 1;
    }
    false
}

/// Moving into a free cell keeps the snake well formed and its length.
proof fn lemma_advanced_wf(s: SnakeModel, p: Point)
    requires
        s.wf(),
        !s.body.contains(p),
        in_span(p),
    ensures
        s.advanced(p).wf(),
        s.advanced(p).body.len() == s.body.len(),
{
    let b = s.body;
    let nb = seq![p] + b.drop_last();
    assert(s.advanced(p).body == nb);
    assert forall|i: int, j: int| 0 <= i < nb.len() && 0 <= j < nb.len() && i != j implies nb[i]
        != nb[j] by {
        if i > 0 {
            assert(nb[i] == b[i - 1]);
        } else {
            assert(b.contains(nb[j]));
        }
        if j > 0 {
            assert(nb[j] == b[j - 1]);
        } else {
            assert(b.contains(nb[i]));
        }
    }
    assert forall|i: int| 0 <= i < nb.len() implies #[trigger] in_span(nb[i]) by {
        if i > 0 {
            assert(nb[i] == b[i - 1]);
        }
    }
    let t = b.last();
    assert(b[b.len() - 1] == t);
    if nb.contains(t) {
        let k = choose|k: int| 0 <= k < nb.len() && nb[k] == t;
        if k == 0 {
            assert(b.contains(p));
        } else {
            assert(nb[k] == b[k - 1]);
        }
    }
}

/// Growth keeps the snake well formed.
proof fn lemma_grown_wf(s: SnakeModel)
    requires
        s.wf(),
    ensures
        s.grown().wf(),
{
    if let Some(p) = s.pending {
        let b = s.body;
        let nb = b.push(p);
        assert forall|i: int, j: int| 0 <= i < nb.len() && 0 <= j < nb.len() && i != j implies nb[i]
            != nb[j] by {
            if i == b.len() {
                assert(b.contains(nb[j]));
            } else if j == b.len() {
                assert(b.contains(nb[i]));
            }
        }
        assert forall|i: int| 0 <= i < nb.len() implies #[trigger] in_span(nb[i]) by {
            if i < b.len() {
                assert(nb[i] == b[i]);
            }
        }
    }
}

/// One thing that can happen to a snake between two looks at it.
#[derive(Clone, Copy, Debug, PartialEq, Eq, Structural)]
pub enum Action {
    Step(Direction),
    Grow,
}

pub open spec fn apply(s: SnakeModel, a: Action) -> SnakeModel {
    match a {
        Action::Step(d) => s.stepped(d),
        Action::Grow => s.grown(),
    }
}

/// The state after the actions of `acts`, in order.
pub open spec fn run(s: SnakeModel, acts: Seq<Action>) -> SnakeModel
    decreases acts.len(),
{
    if acts.len() == 0 {
        s
    } else {
        apply(run(s, acts.drop_last()), acts.last())
    }
}

/// No step of `acts` runs into the body.
pub open spec fn all_continue(s: SnakeModel, acts: Seq<Action>) -> bool
    decreases acts.len(),
{
    if acts.len() == 0 {
        true
    } else {
        &&& all_continue(s, acts.drop_last())
        &&& match acts.last() {
            Action::Step(d) => {
                let t = run(s, acts.drop_last());
                !t.body.contains(t.candidate(d))
            },
            Action::Grow => true,
        }
    }
}

/// Each growth in `acts` comes right after a step: it is an eat event.
pub open spec fn grows_follow_steps(acts: Seq<Action>) -> bool {
    forall|i: int|
        0 <= i < acts.len() && #[trigger] acts[i] == Action::Grow ==> i > 0 && acts[i - 1]
            is Step
}

/// The number of growths in `acts`.
pub open spec fn grow_count(acts: Seq<Action>) -> nat
    decreases acts.len(),
{
    if acts.len() == 0 {
        0
    } else {
        grow_count(acts.drop_last()) + if acts.last() == Action::Grow {
            1nat
        } else {
            0nat
        }
    }
}

/// A move keeps the snake well formed, and its length.
pub proof fn lemma_stepped_wf(s: SnakeModel, d: Direction)
    requires
        s.wf(),
    ensures
        s.stepped(d).wf(),
        s.stepped(d).body.len() == s.body.len(),
{
    let c = s.candidate(d);
    if !s.body.contains(c) {
        vstd::arithmetic::div_mod::lemma_mod_bound(s.head().0 + delta(d).0, s.cols);
        vstd::arithmetic::div_mod::lemma_mod_bound(s.head().1 + delta(d).1, s.rows);
        lemma_advanced_wf(s, c);
    }
}

/// However a well-formed snake is moved and grown, no two of its segments
/// share a cell, and the pending tail cell is never on the body.
pub proof fn lemma_run_no_overlap(s: SnakeModel, acts: Seq<Action>)
    requires
        s.wf(),
    ensures
        run(s, acts).wf(),
        run(s, acts).body.no_duplicates(),
    decreases acts.len(),
{
    if acts.len() > 0 {
        lemma_run_no_overlap(s, acts.drop_last());
        let t = run(s, acts.drop_last());
        match acts.last() {
            Action::Step(d) => lemma_stepped_wf(t, d),
            Action::Grow => lemma_grown_wf(t),
        }
    }
}

/// A move into a cell of the body is refused and leaves the snake as it was.
pub proof fn lemma_collision_rejected(s: SnakeModel, d: Direction)
    requires
        s.body.contains(s.candidate(d)),
    ensures
        s.stepped(d) == s,
{
}

/// Growth applied twice with no move between grows the body at most once:
/// the second application changes nothing.
pub proof fn lemma_grow_twice(s: SnakeModel)
    ensures
        s.grown().grown() == s.grown(),
        s.grown().body.len() <= s.body.len() + 1,
{
}

/// With no growth among the actions, the growth count is zero.
proof fn lemma_no_grow_count(acts: Seq<Action>)
    requires
        forall|i: int| 0 <= i < acts.len() ==> acts[i] is Step,
    ensures
        grow_count(acts) == 0,
    decreases acts.len(),
{
    if acts.len() > 0 {
        let prev = acts.drop_last();
        assert(acts[acts.len() - 1] is Step);
        assert forall|i: int| 0 <= i < prev.len() implies prev[i] is Step by {
            assert(acts[i] == prev[i]);
        }
        lemma_no_grow_count(prev);
    }
}

/// The length part of the run law, with the pending cell that a last step leaves.
proof fn lemma_run_length_count(s: SnakeModel, acts: Seq<Action>)
    requires
        s.body.len() >= 1,
        all_continue(s, acts),
        grows_follow_steps(acts),
    ensures
        run(s, acts).body.len() == s.body.len() + grow_count(acts),
        acts.len() > 0 && acts.last() is Step ==> run(s, acts).pending is Some,
    decreases acts.len(),
{
    if acts.len() > 0 {
        let prev = acts.drop_last();
        assert forall|i: int| 0 <= i < prev.len() && #[trigger] prev[i] == Action::Grow implies i
            > 0 && prev[i - 1] is Step by {
            assert(acts[i] == prev[i]);
            assert(acts[i - 1] == prev[i - 1]);
        }
        lemma_run_length_count(s, prev);
        if acts.last() == Action::Grow {
            assert(acts[acts.len() - 1] == Action::Grow);
            assert(prev[prev.len() - 1] == acts[acts.len() - 2]);
        }
    }
}

/// Moves that do not run into the body keep the length; each eat event (a
/// growth right after such a move) adds one segment. So the length after
/// `acts` is the starting length plus the number of eat events, and with no
/// eat event the length is unchanged.
pub proof fn lemma_run_length(s: SnakeModel, acts: Seq<Action>)
    requires
        s.wf(),
        all_continue(s, acts),
        grows_follow_steps(acts),
    ensures
        run(s, acts).body.len() == s.body.len() + grow_count(acts),
        (forall|i: int| 0 <= i < acts.len() ==> acts[i] is Step) ==> run(s, acts).body.len()
            == s.body.len(),
{
    lemma_run_length_count(s, acts);
    if forall|i: int| 0 <= i < acts.len() ==> acts[i] is Step {
        lemma_no_grow_count(acts);
    }
}

impl Snake {
    /// A snake of one segment at `(10, 10)`, with nothing pending.
    pub fn new(rows: u16, cols: u16) -> (r: Snake)
        ensures
            r@ == (SnakeModel {
                body: seq![Point(10, 10)],
                pending: None,
                cols: cols as int,
                rows: rows as int,
            }),
            valid_dim(cols as int) && valid_dim(rows as int) ==> r@.wf(),
    {
        let mut body = VecDeque::new();
        body.push_back(Point(10, 10));
        assert(body@ =~= seq![Point(10, 10)]);
        Snake { body, rows, cols, poped: None }
    }

    /// Tries to move the head into the board cell that `new_pos` wraps onto.
    /// Returns `true` where that cell is already on the body: the move is then
    /// refused and nothing changes. Otherwise the cell becomes the head, the
    /// tail cell leaves the body and is kept as the pending one.
    pub fn _move(&mut self, new_pos: Point) -> (r: bool)
        requires
            old(self)@.wf(),
        ensures
            final(self)@.wf(),
            r == old(self)@.body.contains(
                wrapped(new_pos.0 as int, new_pos.1 as int, old(self)@.cols, old(self)@.rows),
            ),
            final(self)@ == old(self)@.moved_to(
                wrapped(new_pos.0 as int, new_pos.1 as int, old(self)@.cols, old(self)@.rows),
            ),
    {
        let p = normalize(new_pos, self.cols, self.rows);
        if body_contains(&self.body, p) {
            return true;
        }
        proof {
            lemma_advanced_wf(self@, p);
        }
        let ghost before = self.body@;
        self.body.push_front(p);
        self.poped = self.body.pop_back();
        assert(self.body@ =~= seq![p] + before.drop_last());
        false
    }

    /// Puts the pending tail cell back on the tail; does nothing where none is
    /// pending.
    pub fn eat(&mut self)
        requires
            old(self)@.wf(),
        ensures
            final(self)@.wf(),
            final(self)@ == old(self)@.grown(),
    {
        proof {
            lemma_grown_wf(self@);
        }
        if let Some(p) = self.poped.take() {
            self.body.push_back(p);
        }
    }

    /// Moves the head one cell right (see `_move`); `true` on a collision.
    pub fn move_right(&mut self) -> (r: bool)
        requires
            old(self)@.wf(),
        ensures
            final(self)@.wf(),
            r == old(self)@.body.contains(old(self)@.candidate(Direction::Right)),
            final(self)@ == old(self)@.stepped(Direction::Right),
    {
        assert(in_span(self.body@[0]));
        self._move(Point(self.body[0].0 + 1, self.body[0].1))
    }

    /// Moves the head one cell left (see `_move`); `true` on a collision.
    pub fn move_left(&mut self) -> (r: bool)
        requires
            old(self)@.wf(),
        ensures
            final(self)@.wf(),
            r == old(self)@.body.contains(old(self)@.candidate(Direction::Left)),
            final(self)@ == old(self)@.stepped(Direction::Left),
    {
        assert(in_span(self.body@[0]));
        self._move(Point(self.body[0].0 - 1, self.body[0].1))
    }

    /// Moves the head one cell down (see `_move`); `true` on a collision.
    pub fn move_down(&mut self) -> (r: bool)
        requires
            old(self)@.wf(),
        ensures
            final(self)@.wf(),
            r == old(self)@.body.contains(old(self)@.candidate(Direction::Down)),
            final(self)@ == old(self)@.stepped(Direction::Down),
    {
        assert(in_span(self.body@[0]));
        self._move(Point(self.body[0].0, self.body[0].1 + 1))
    }

    /// Moves the head one cell up (see `_move`); `true` on a collision.
    pub fn move_up(&mut self) -> (r: bool)
        requires
            old(self)@.wf(),
        ensures
            final(self)@.wf(),
            r == old(self)@.body.contains(old(self)@.candidate(Direction::Up)),
            final(self)@ == old(self)@.stepped(Direction::Up),
    {
        assert(in_span(self.body@[0]));
        self._move(Point(self.body[0].0, self.body[0].1 - 1))
    }
}

} // verus!
