//! The game: arena bounds, food, the game-over/restart cycle, and per-tick
//! orchestration of the snake.
//!
//! A driving loop outside the library feeds in directional key events and
//! elapsed time in milliseconds; rendering reads the public fields as a
//! snapshot and never mutates them.

use crate::rng::{fresh_rng, gen_in_range};
use crate::snake::{initial_snake, Block, Direction, Snake, SnakeModel};
use vstd::prelude::*;

verus! {

/// How much time must accumulate before the snake takes a timer-driven step.
pub const MOVING_PERIOD_MS: u64 = 100;

/// How long the game-over screen lasts before the game restarts.
pub const RESTART_TIME_MS: u64 = 1000;

/// The mathematical value of a [`Game`]: the snake's model plus the plain
/// scalar state.
#[verifier::ext_equal]
pub ghost struct GameModel {
    pub snake: SnakeModel,
    pub food_exists: bool,
    pub food_x: i32,
    pub food_y: i32,
    pub width: i32,
    pub height: i32,
    pub game_over: bool,
    pub waiting_time: u64,
}

impl GameModel {
    /// The cell lies strictly inside the one-cell-thick border.
    pub open spec fn in_interior(self, c: Block) -> bool {
        1 <= c.x as int <= self.width - 2 && 1 <= c.y as int <= self.height - 2
    }

    /// Arena large enough for the initial snake and the preset food; every
    /// body cell, any pending tail cell, and the food (while it exists) lie
    /// strictly inside the border.
    pub open spec fn wf(self) -> bool {
        &&& self.width >= 8
        &&& self.height >= 6
        &&& self.snake.wf()
        &&& forall|i: int|
            0 <= i < self.snake.cells.len() ==> self.in_interior(#[trigger] self.snake.cells[i])
        &&& (self.snake.pending matches Some(c) ==> self.in_interior(c))
        &&& (self.food_exists ==> 1 <= self.food_x as int <= self.width - 2 && 1
            <= self.food_y as int <= self.height - 2)
    }

    /// Whether a step in `dir` keeps the snake alive: the projected head
    /// neither lands on the body (tail exempt) nor on or beyond the border.
    pub open spec fn alive_after(self, dir: Option<Direction>) -> bool {
        let (nx, ny) = self.snake.next_xy(dir);
        &&& !self.snake.hits_except_tail(nx, ny)
        &&& 0 < nx < self.width - 1
        &&& 0 < ny < self.height - 1
    }

    /// Whether a step in `dir` lands the head on existing food.
    pub open spec fn eats(self, dir: Option<Direction>) -> bool {
        let (nx, ny) = self.snake.next_xy(dir);
        &&& self.alive_after(dir)
        &&& self.food_exists
        &&& nx == self.food_x as int
        &&& ny == self.food_y as int
    }

    /// The game after one step attempt in `dir`: a live step moves the snake
    /// (growing it and consuming the food when it eats), a fatal one only
    /// sets `game_over`; the step timer restarts either way.
    pub open spec fn stepped(self, dir: Option<Direction>) -> GameModel {
        if self.alive_after(dir) {
            if self.eats(dir) {
                GameModel {
                    snake: self.snake.stepped(dir).grown(),
                    food_exists: false,
                    waiting_time: 0,
                    ..self
                }
            } else {
                GameModel { snake: self.snake.stepped(dir), waiting_time: 0, ..self }
            }
        } else {
            GameModel { game_over: true, waiting_time: 0, ..self }
        }
    }

    /// The game after a restart: a fresh snake at `(2, 1)`, the preset food,
    /// timers and flags cleared; the arena keeps its size.
    pub open spec fn restarted(self) -> GameModel {
        GameModel {
            snake: initial_snake(2, 1),
            food_exists: true,
            food_x: 6,
            food_y: 4,
            width: self.width,
            height: self.height,
            game_over: false,
            waiting_time: 0,
        }
    }

    /// Some interior cell is not covered by the snake, so food can be placed.
    pub open spec fn has_free_interior_cell(self) -> bool {
        exists|x: int, y: int|
            1 <= x <= self.width - 2 && 1 <= y <= self.height - 2 && !self.snake.occupies(x, y)
    }

    /// Relates the game to its state after a food-placement attempt: if any
    /// interior cell is free, food now exists on such a cell; otherwise
    /// nothing changed.  Everything except the food is untouched.
    pub open spec fn spawn_to(self, post: GameModel) -> bool {
        &&& post.snake == self.snake
        &&& post.width == self.width
        &&& post.height == self.height
        &&& post.game_over == self.game_over
        &&& post.waiting_time == self.waiting_time
        &&& if self.has_free_interior_cell() {
            &&& post.food_exists
            &&& 1 <= post.food_x as int <= self.width - 2
            &&& 1 <= post.food_y as int <= self.height - 2
            &&& !self.snake.occupies(post.food_x as int, post.food_y as int)
        } else {
            post == self
        }
    }
}

/// A step that eats consumes the food and lengthens the snake by exactly
/// one cell.
pub proof fn lemma_eating_grows(g: GameModel, dir: Option<Direction>)
    requires
        g.wf(),
        g.eats(dir),
    ensures
        !g.stepped(dir).food_exists,
        g.stepped(dir).snake.cells.len() == g.snake.cells.len() + 1,
{
}

/// A fatal step only raises `game_over`: the snake and the food stay as
/// they were, and the game stays over until a restart resets it.
pub proof fn lemma_fatal_step_freezes(g: GameModel, dir: Option<Direction>)
    requires
        g.wf(),
        !g.alive_after(dir),
    ensures
        g.stepped(dir).game_over,
        g.stepped(dir).snake == g.snake,
        g.stepped(dir).food_exists == g.food_exists,
{
}

/// The running game.  The fields are the rendering snapshot: body cells via
/// `snake`, the food, the arena bounds and the game-over flag.
pub struct Game {
    pub snake: Snake,
    pub food_exists: bool,
    pub food_x: i32,
    pub food_y: i32,
    pub width: i32,
    pub height: i32,
    pub game_over: bool,
    /// Milliseconds accumulated since the last step, or since game over.
    pub waiting_time: u64,
}

impl View for Game {
    type V = GameModel;

    open spec fn view(&self) -> GameModel {
        GameModel {
            snake: self.snake@,
            food_exists: self.food_exists,
            food_x: self.food_x,
            food_y: self.food_y,
            width: self.width,
            height: self.height,
            game_over: self.game_over,
            waiting_time: self.waiting_time,
        }
    }
}

impl Game {
    /// A fresh game on a `width` by `height` arena: the initial snake at
    /// `(2, 2)`, food preset at `(6, 4)`, running state.  The arena must be
    /// large enough to hold both strictly inside the border.
    pub fn new(width: i32, height: i32) -> (g: Game)
        requires
            width >= 8,
            height >= 6,
        ensures
            g@.wf(),
            g@.snake == initial_snake(2, 2),
            g@.food_exists,
            g@.food_x == 6,
            g@.food_y == 4,
            g@.width == width,
            g@.height == height,
            !g@.game_over,
            g@.waiting_time == 0,
    {
        let g = Game {
            snake: Snake::new(2, 2),
            waiting_time: 0,
            food_exists: true,
            food_x: 6,
            food_y: 4,
            width,
            height,
            game_over: false,
        };
        proof {
            assert(forall|i: int|
                0 <= i < g@.snake.cells.len() ==> g@.in_interior(#[trigger] g@.snake.cells[i]));
        }
        g
    }

    /// Whether one step in `dir` (or straight ahead) keeps the snake alive:
    /// the projected head must avoid the body (tail exempt) and stay
    /// strictly inside the border.
    fn check_if_snake_alive(&self, dir: Option<Direction>) -> (r: bool)
        requires
            self@.wf(),
        ensures
            r == self@.alive_after(dir),
    {
        proof {
            assert(self@.in_interior(self@.snake.cells[0]));
        }
        let (next_x, next_y) = self.snake.next_head(dir);
        if self.snake.overlap_tail(next_x, next_y) {
            return false;
        }
        next_x > 0 && next_y > 0 && next_x < self.width - 1 && next_y < self.height - 1
    }

    /// After a step, consume the food if the head landed on it: the food
    /// disappears and the snake grows by restoring the tail cell dropped on
    /// that same step.
    fn check_eating(&mut self)
        requires
            old(self)@.wf(),
            old(self)@.snake.pending is Some,
        ensures
            final(self)@.wf(),
            ({
                let pre = old(self)@;
                if pre.food_exists && pre.snake.cells[0].x == pre.food_x && pre.snake.cells[0].y
                    == pre.food_y {
                    final(self)@ == GameModel {
                        snake: pre.snake.grown(),
                        food_exists: false,
                        ..pre
                    }
                } else {
                    final(self)@ == pre
                }
            }),
    {
        let (head_x, head_y) = self.snake.head_position();
        if self.food_exists && self.food_x == head_x && self.food_y == head_y {
            self.food_exists = false;
            self.snake.restore_tail();
            proof {
                let pre = old(self)@;
                assert(self@ =~= GameModel { snake: pre.snake.grown(), food_exists: false, ..pre });
                assert forall|i: int|
                    0 <= i < self@.snake.cells.len() implies self@.in_interior(
                    #[trigger] self@.snake.cells[i],
                ) by {
                    if i < pre.snake.cells.len() {
                        assert(self@.snake.cells[i] == pre.snake.cells[i]);
                    } else {
                        assert(self@.snake.cells[i] == pre.snake.pending->Some_0);
                    }
                }
            }
        }
    }

    /// One step attempt in `dir`: move and possibly eat while alive,
    /// otherwise end the game; the step timer restarts either way.
    fn update_snake(&mut self, dir: Option<Direction>)
        requires
            old(self)@.wf(),
            !old(self)@.game_over,
        ensures
            final(self)@.wf(),
            final(self)@ == old(self)@.stepped(dir),
    {
        let ghost pre = self@;
        if self.check_if_snake_alive(dir) {
            proof {
                assert(pre.in_interior(pre.snake.cells[0]));
            }
            self.snake.move_forward(dir);
            proof {
                assert forall|i: int|
                    0 <= i < self@.snake.cells.len() implies self@.in_interior(
                    #[trigger] self@.snake.cells[i],
                ) by {
                    if i > 0 {
                        assert(self@.snake.cells[i] == pre.snake.cells[i - 1]);
                    }
                }
            }
            self.check_eating();
        } else {
            self.game_over = true;
        }
        self.waiting_time = 0;
        proof {
            assert(self@ =~= pre.stepped(dir));
        }
    }

    /// React to a directional key: ignored while the game is over, ignored
    /// when it is the exact reverse of the current heading (no instant
    /// self-reversal), otherwise the snake steps that way immediately.
    /// `None` stands for a key with no direction and does nothing.
    pub fn key_pressed(&mut self, key: Option<Direction>)
        requires
            old(self)@.wf(),
        ensures
            final(self)@.wf(),
            ({
                let pre = old(self)@;
                match key {
                    None => final(self)@ == pre,
                    Some(d) => if pre.game_over || d == pre.snake.heading.spec_opposite() {
                        final(self)@ == pre
                    } else {
                        final(self)@ == pre.stepped(Some(d))
                    },
                }
            }),
    {
        if self.game_over {
            return ;
        }
        let d = match key {
            Some(d) => d,
            None => {
                return ;
            },
        };
        if d == self.snake.head_direction().opposite() {
            return ;
        }
        self.update_snake(Some(d));
    }

    /// Place food on a random free interior cell.  Random candidates that
    /// land on the snake are redrawn a bounded number of times; if luck runs
    /// out, a sweep of the interior finds a free cell, so placement succeeds
    /// whenever any interior cell is free and terminates always.
    pub fn add_food(&mut self)
        requires
            old(self)@.wf(),
        ensures
            final(self)@.wf(),
            old(self)@.spawn_to(final(self)@),
    {
        let ghost pre = self@;
        let mut rng = fresh_rng();
        let mut tries: u8 = 0;
        while tries < 64
            invariant
                pre == old(self)@,
                self@ == pre,
                pre.wf(),
            decreases 64 - tries,
        {
            let new_x = gen_in_range(&mut rng, 1, self.width - 1);
            let new_y = gen_in_range(&mut rng, 1, self.height - 1);
            if !self.snake.overlaps_body(new_x, new_y) {
                self.food_x = new_x;
                self.food_y = new_y;
                self.food_exists = true;
                proof {
                    assert(1 <= new_x as int <= pre.width - 2 && 1 <= new_y as int <= pre.height
                        - 2 && !pre.snake.occupies(new_x as int, new_y as int));
                }
                return ;
            }
            tries += 1;
        }
        let mut cx: i32 = 1;
        while cx <= self.width - 2
            invariant
                pre == old(self)@,
                self@ == pre,
                pre.wf(),
                1 <= cx as int <= pre.width - 1,
                forall|x: int, y: int|
                    1 <= x < cx as int && 1 <= y <= pre.height - 2 ==> pre.snake.occupies(x, y),
            decreases pre.width - cx,
        {
            let mut cy: i32 = 1;
            while cy <= self.height - 2
                invariant
                    pre == old(self)@,
                    self@ == pre,
                    pre.wf(),
                    1 <= cx as int <= pre.width - 2,
                    1 <= cy as int <= pre.height - 1,
                    forall|x: int, y: int|
                        1 <= x < cx as int && 1 <= y <= pre.height - 2 ==> pre.snake.occupies(x, y),
                    forall|y: int| 1 <= y < cy as int ==> pre.snake.occupies(cx as int, y),
                decreases pre.height - cy,
            {
                if !self.snake.overlaps_body(cx, cy) {
                    self.food_x = cx;
                    self.food_y = cy;
                    self.food_exists = true;
                    proof {
                        assert(1 <= cx as int <= pre.width - 2 && 1 <= cy as int <= pre.height - 2
                            && !pre.snake.occupies(cx as int, cy as int));
                    }
                    return ;
                }
                cy += 1;
            }
            proof {
                assert forall|x: int, y: int|
                    1 <= x < cx as int + 1 && 1 <= y <= pre.height - 2 implies pre.snake.occupies(
                    x,
                    y,
                ) by {
                    if x == cx as int {
                        assert(y < cy as int);
                    }
                }
            }
            cx += 1;
        }
        proof {
            assert(!pre.has_free_interior_cell());
        }
    }

    /// Advance the simulation by `delta_ms` elapsed milliseconds.  While the
    /// game is over, only the restart timer runs, and the game restarts once
    /// it passes `RESTART_TIME_MS`.  While running, missing food is
    /// replaced, and once more than `MOVING_PERIOD_MS` has accumulated the
    /// snake takes an un-directed step.
    pub fn update(&mut self, delta_ms: u64)
        requires
            old(self)@.wf(),
            old(self)@.waiting_time + delta_ms <= u64::MAX,
        ensures
            final(self)@.wf(),
            ({
                let pre = old(self)@;
                let post = final(self)@;
                let w = (pre.waiting_time + delta_ms) as u64;
                let mid = GameModel { waiting_time: w, ..pre };
                if pre.game_over {
                    post == (if w > RESTART_TIME_MS {
                        pre.restarted()
                    } else {
                        mid
                    })
                } else if pre.food_exists || !pre.has_free_interior_cell() {
                    post == (if w > MOVING_PERIOD_MS {
                        mid.stepped(None)
                    } else {
                        mid
                    })
                } else {
                    exists|fx: i32, fy: i32|
                        #![trigger pre.snake.occupies(fx as int, fy as int)]
                        {
                            let spawned = GameModel {
                                food_exists: true,
                                food_x: fx,
                                food_y: fy,
                                ..mid
                            };
                            &&& 1 <= fx as int <= pre.width - 2
                            &&& 1 <= fy as int <= pre.height - 2
                            &&& !pre.snake.occupies(fx as int, fy as int)
                            &&& post == (if w > MOVING_PERIOD_MS {
                                spawned.stepped(None)
                            } else {
                                spawned
                            })
                        }
                }
            }),
    {
        let ghost pre = self@;
        self.waiting_time = self.waiting_time + delta_ms;
        if self.game_over {
            if self.waiting_time > RESTART_TIME_MS {
                self.restart();
            }
            return ;
        }
        if !self.food_exists {
            self.add_food();
        }
        let ghost mid = self@;
        if self.waiting_time > MOVING_PERIOD_MS {
            self.update_snake(None);
        }
        proof {
            if !pre.food_exists && pre.has_free_interior_cell() {
                let fx = mid.food_x;
                let fy = mid.food_y;
                assert(mid =~= GameModel {
                    food_exists: true,
                    food_x: fx,
                    food_y: fy,
                    ..GameModel { waiting_time: mid.waiting_time, ..pre }
                });
                assert(1 <= fx as int <= pre.width - 2 && 1 <= fy as int <= pre.height - 2
                    && !pre.snake.occupies(fx as int, fy as int));
            } else {
                assert(mid =~= GameModel { waiting_time: mid.waiting_time, ..pre });
            }
        }
    }

    /// Begin a new round on the same arena: fresh snake at `(2, 1)`, preset
    /// food, flags and timer cleared.
    fn restart(&mut self)
        requires
            old(self)@.wf(),
        ensures
            final(self)@.wf(),
            final(self)@ == old(self)@.restarted(),
    {
        self.snake = Snake::new(2, 1);
        self.waiting_time = 0;
        self.food_exists = true;
        self.food_x = 6;
        self.food_y = 4;
        self.game_over = false;
        proof {
            assert(self@ =~= old(self)@.restarted());
            assert(forall|i: int|
                0 <= i < self@.snake.cells.len() ==> self@.in_interior(
                    #[trigger] self@.snake.cells[i],
                ));
        }
    }
}

} // verus!
