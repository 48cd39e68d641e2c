//! The snake itself: an ordered sequence of body cells plus a heading.
//!
//! The snake is purely geometric; it knows nothing of arena bounds, food or
//! the game-over state.  Those live in [`crate::game`].

use vstd::assert_by_contradiction;
use vstd::prelude::*;

verus! {

/// A moving direction on the grid.  `y` grows downward, so `Up` decreases `y`.
#[derive(Copy, Clone, PartialEq, Eq, Structural, Debug)]
pub enum Direction {
    Up,
    Down,
    Left,
    Right,
}

impl Direction {
    /// The reverse of a direction: `Up` and `Down` swap, `Left` and `Right` swap.
    pub open spec fn spec_opposite(&self) -> Direction {
        match *self {
            Direction::Up => Direction::Down,
            Direction::Down => Direction::Up,
            Direction::Left => Direction::Right,
            Direction::Right => Direction::Left,
        }
    }

    #[verifier::when_used_as_spec(spec_opposite)]
    pub fn opposite(&self) -> (r: Direction)
        ensures
            r == self.spec_opposite(),
    {
        match *self {
            Direction::Up => Direction::Down,
            Direction::Down => Direction::Up,
            Direction::Left => Direction::Right,
            Direction::Right => Direction::Left,
        }
    }
}

/// Reversing a direction twice gives the direction back.
pub proof fn lemma_opposite_involution(d: Direction)
    ensures
        d.spec_opposite().spec_opposite() == d,
{
}

/// One grid cell of the snake's body, identified by its coordinates alone.
#[derive(Copy, Clone, PartialEq, Eq, Structural, Debug)]
pub struct Block {
    pub x: i32,
    pub y: i32,
}

/// The mathematical value of a [`Snake`]: its heading, its body cells from
/// head to tail, and the cell most recently dropped from the tail (kept for
/// one step so growth can restore it).
#[verifier::ext_equal]
pub ghost struct SnakeModel {
    pub heading: Direction,
    pub cells: Seq<Block>,
    pub pending: Option<Block>,
}

impl SnakeModel {
    /// The body never becomes empty.
    pub open spec fn wf(self) -> bool {
        self.cells.len() >= 1
    }

    /// The direction a step would take: an explicit `dir` wins, otherwise the
    /// current heading continues.
    pub open spec fn eff_dir(self, dir: Option<Direction>) -> Direction {
        match dir {
            Some(d) => d,
            None => self.heading,
        }
    }

    /// Coordinates of the cell the head would occupy after one step.
    pub open spec fn next_xy(self, dir: Option<Direction>) -> (int, int) {
        let h = self.cells[0];
        match self.eff_dir(dir) {
            Direction::Up => (h.x as int, h.y - 1),
            Direction::Down => (h.x as int, h.y + 1),
            Direction::Left => (h.x - 1, h.y as int),
            Direction::Right => (h.x + 1, h.y as int),
        }
    }

    /// The stepped head coordinates stay representable as `i32`.
    pub open spec fn can_step(self, dir: Option<Direction>) -> bool {
        let (nx, ny) = self.next_xy(dir);
        i32::MIN <= nx <= i32::MAX && i32::MIN <= ny <= i32::MAX
    }

    /// The snake after one forward step: the new head cell is pushed in
    /// front, the tail cell is dropped and remembered in `pending`.
    pub open spec fn stepped(self, dir: Option<Direction>) -> SnakeModel {
        let (nx, ny) = self.next_xy(dir);
        SnakeModel {
            heading: self.eff_dir(dir),
            cells: seq![(Block { x: nx as i32, y: ny as i32 })] + self.cells.drop_last(),
            pending: Some(self.cells.last()),
        }
    }

    /// The snake after growth: the pending tail cell is appended again.
    pub open spec fn grown(self) -> SnakeModel {
        SnakeModel { cells: self.cells.push(self.pending->Some_0), ..self }
    }

    /// Whether `(x, y)` coincides with any body cell at all.
    pub open spec fn occupies(self, x: int, y: int) -> bool {
        exists|i: int|
            0 <= i < self.cells.len() && self.cells[i].x as int == x && self.cells[i].y as int == y
    }

    /// Whether `(x, y)` coincides with a body cell other than the current
    /// tail.  The tail is exempt because it vacates its cell on the very step
    /// being examined.
    pub open spec fn hits_except_tail(self, x: int, y: int) -> bool {
        exists|i: int|
            0 <= i < self.cells.len() - 1 && self.cells[i].x as int == x && self.cells[i].y as int
                == y
    }
}

/// The starting shape: three cells in a horizontal line with the head at
/// `(x + 2, y)`, heading right, nothing pending.
pub open spec fn initial_snake(x: int, y: int) -> SnakeModel {
    SnakeModel {
        heading: Direction::Right,
        cells: seq![
            (Block { x: (x + 2) as i32, y: y as i32 }),
            (Block { x: (x + 1) as i32, y: y as i32 }),
            (Block { x: x as i32, y: y as i32 }),
        ],
        pending: None,
    }
}

/// The snake: current heading, body cells from head (front) to tail (back),
/// and the most recently removed tail cell.
pub struct Snake {
    pub direction: Direction,
    pub body: Vec<Block>,
    pub tail: Option<Block>,
}

impl View for Snake {
    type V = SnakeModel;

    open spec fn view(&self) -> SnakeModel {
        SnakeModel { heading: self.direction, cells: self.body@, pending: self.tail }
    }
}

impl Snake {
    /// A new snake whose tail cell is `(x, y)` and whose head is two cells to
    /// the right, heading right.
    pub fn new(x: i32, y: i32) -> (s: Snake)
        requires
            x + 2 <= i32::MAX,
        ensures
            s@ == initial_snake(x as int, y as int),
    {
        let mut body: Vec<Block> = Vec::new();
        body.push(Block { x: x + 2, y });
        body.push(Block { x: x + 1, y });
        body.push(Block { x, y });
        let s = Snake { direction: Direction::Right, body, tail: None };
        proof {
            assert(s@.cells =~= initial_snake(x as int, y as int).cells);
            assert(s@ =~= initial_snake(x as int, y as int));
        }
        s
    }

    /// Coordinates of the head cell, the front of the body.
    pub fn head_position(&self) -> (r: (i32, i32))
        requires
            self@.wf(),
        ensures
            r.0 == self@.cells[0].x,
            r.1 == self@.cells[0].y,
    {
        let head_block = &self.body[0];
        (head_block.x, head_block.y)
    }

    /// The current heading.
    pub fn head_direction(&self) -> (r: Direction)
        ensures
            r == self@.heading,
    {
        self.direction
    }

    /// The cell the head would occupy after one step in `dir` (or in the
    /// current heading when `dir` is `None`), without moving.
    pub fn next_head(&self, dir: Option<Direction>) -> (r: (i32, i32))
        requires
            self@.wf(),
            self@.can_step(dir),
        ensures
            r.0 as int == self@.next_xy(dir).0,
            r.1 as int == self@.next_xy(dir).1,
    {
        let (head_x, head_y) = self.head_position();
        let moving_dir = match dir {
            Some(d) => d,
            None => self.direction,
        };
        match moving_dir {
            Direction::Up => (head_x, head_y - 1),
            Direction::Down => (head_x, head_y + 1),
            Direction::Left => (head_x - 1, head_y),
            Direction::Right => (head_x + 1, head_y),
        }
    }

    /// One forward step: update the heading if `dir` is given, push the new
    /// head cell to the front, drop the tail cell and remember it.
    pub fn move_forward(&mut self, dir: Option<Direction>)
        requires
            old(self)@.wf(),
            old(self)@.can_step(dir),
        ensures
            final(self)@ == old(self)@.stepped(dir),
    {
        match dir {
            Some(d) => self.direction = d,
            None => (),
        }
        let (next_x, next_y) = self.next_head(None);
        let new_block = Block { x: next_x, y: next_y };
        self.body.insert(0, new_block);
        let removed_block = self.body.pop().unwrap();
        self.tail = Some(removed_block);
        proof {
            assert(self@.cells =~= old(self)@.stepped(dir).cells);
            assert(self@ =~= old(self)@.stepped(dir));
        }
    }

    /// Growth: append the pending tail cell to the back of the body again.
    /// Must only run right after `move_forward`, which is what records the
    /// pending cell.
    pub fn restore_tail(&mut self)
        requires
            old(self)@.pending is Some,
        ensures
            final(self)@ == old(self)@.grown(),
    {
        let blk = self.tail.unwrap();
        self.body.push(blk);
        proof {
            assert(self@ =~= old(self)@.grown());
        }
    }

    /// Whether `(x, y)` coincides with any body cell at all, the tail
    /// included.  Food placement uses this query: food must never appear on
    /// the snake.
    pub fn overlaps_body(&self, x: i32, y: i32) -> (r: bool)
        ensures
            r == self@.occupies(x as int, y as int),
    {
        let mut i: usize = 0;
        while i < self.body.len()
            invariant
                i <= self@.cells.len(),
                forall|j: int|
                    0 <= j < i ==> !(self@.cells[j].x == x && self@.cells[j].y == y),
            decreases self@.cells.len() - i,
        {
            let block = &self.body[i];
            if x == block.x && y == block.y {
                return true;
            }
            i += 1;
        }
        false
    }

    /// Whether `(x, y)` coincides with any body cell except the current tail
    /// cell.  The tail vacates on the next step, so a projected head position
    /// equal to it is not a collision; self-collision checks use this query.
    pub fn overlap_tail(&self, x: i32, y: i32) -> (r: bool)
        requires
            self@.wf(),
        ensures
            r == self@.hits_except_tail(x as int, y as int),
    {
        let mut i: usize = 0;
        while i < self.body.len() - 1
            invariant
                self@.wf(),
                i < self@.cells.len(),
                forall|j: int|
                    0 <= j < i ==> !(self@.cells[j].x == x && self@.cells[j].y == y),
            decreases self@.cells.len() - i,
        {
            let block = &self.body[i];
            if x == block.x && y == block.y {
                return true;
            }
            i += 1;
        }
        false
    }
}

/// A forward step never changes the body length: one cell is gained at the
/// head and one is dropped from the tail.
pub proof fn lemma_step_keeps_length(m: SnakeModel, dir: Option<Direction>)
    requires
        m.wf(),
    ensures
        m.stepped(dir).cells.len() == m.cells.len(),
{
}

/// A forward step followed at once by growth lengthens the body by exactly
/// one cell.
pub proof fn lemma_step_then_grow_adds_one(m: SnakeModel, dir: Option<Direction>)
    requires
        m.wf(),
    ensures
        m.stepped(dir).grown().cells.len() == m.cells.len() + 1,
{
}

/// The overlap query reports every body cell other than the tail.
pub proof fn lemma_overlap_reports_body(m: SnakeModel)
    requires
        m.wf(),
    ensures
        forall|i: int|
            0 <= i < m.cells.len() - 1 ==> m.hits_except_tail(
                #[trigger] m.cells[i].x as int,
                m.cells[i].y as int,
            ),
{
    assert forall|i: int|
        0 <= i < m.cells.len() - 1 implies m.hits_except_tail(
        m.cells[i].x as int,
        m.cells[i].y as int,
    ) by {
        assert(0 <= i < m.cells.len() - 1 && m.cells[i].x as int == m.cells[i].x as int
            && m.cells[i].y as int == m.cells[i].y as int);
    }
}

/// The overlap query never reports the tail's own coordinates, provided no
/// other body cell sits on the tail cell (the body is duplicate-free there).
pub proof fn lemma_overlap_exempts_tail(m: SnakeModel)
    requires
        m.wf(),
        forall|i: int| 0 <= i < m.cells.len() - 1 ==> m.cells[i] != m.cells.last(),
    ensures
        !m.hits_except_tail(m.cells.last().x as int, m.cells.last().y as int),
{
    let t = m.cells.last();
    assert_by_contradiction!(!m.hits_except_tail(t.x as int, t.y as int), {
        let i = choose|i: int|
            0 <= i < m.cells.len() - 1 && m.cells[i].x as int == t.x as int && m.cells[i].y as int
                == t.y as int;
        assert(m.cells[i] == t);
    });
}

} // verus!
