//! The game state machine: one snake, at most one food cell, the board
//! dimensions, the game-over flag and the waiting-time accumulator. Time
//! is counted in whole milliseconds.

use vstd::prelude::*;
use rand::rngs::StdRng;
use crate::rng::{rng_from_seed, rand_range_u32};
use crate::snake::{Block, Direction, Snake, spec_opposite, spec_spawn_body};

verus! {

/// Milliseconds between automatic forward moves while playing.
pub const MOVE_PERIOD_MS: u64 = 500;

/// Milliseconds the game stays in game-over before restarting.
pub const RESTART_TIME_MS: u64 = 1000;

/// How many random draws food placement makes before it falls back to a
/// deterministic scan for a free cell.
pub const FOOD_SAMPLE_TRIES: u32 = 64;

/// True when `b` lies strictly inside the one-cell border of a
/// `width` x `height` board.
pub open spec fn in_interior(b: Block, width: u32, height: u32) -> bool {
    &&& 1 <= b.x
    &&& b.x + 1 < width
    &&& 1 <= b.y
    &&& b.y + 1 < height
}

pub struct Game {
    pub snake: Snake,
    pub food_exists: bool,
    pub food_block: Block,
    pub width: u32,
    pub height: u32,
    pub game_over: bool,
    pub waiting_time: u64,
    pub rng: StdRng,
}

/// What the external renderer needs: the occupied cells head first, the
/// food cell when present, the board dimensions (the four border strips
/// derive from them) and the game-over flag.
pub struct Scene {
    pub snake_cells: Vec<Block>,
    pub food: Option<Block>,
    pub width: u32,
    pub height: u32,
    pub is_game_over: bool,
}

/// The two games agree on everything but the state of the random
/// generator.
pub open spec fn spec_same_but_rng(a: Game, b: Game) -> bool {
    &&& b.snake == a.snake
    &&& b.food_exists == a.food_exists
    &&& b.food_block == a.food_block
    &&& b.width == a.width
    &&& b.height == a.height
    &&& b.game_over == a.game_over
    &&& b.waiting_time == a.waiting_time
}

/// A freshly started game on a `width` x `height` board: playing, the
/// accumulator cleared, food present, and a three-cell snake laid out
/// straight behind a head that keeps a margin of four cells from every
/// border.
pub open spec fn spec_fresh(g: Game, width: u32, height: u32) -> bool {
    &&& g.width == width
    &&& g.height == height
    &&& !g.game_over
    &&& g.waiting_time == 0
    &&& g.food_exists
    &&& g.snake.tail is None
    &&& g.snake.body@.len() == 3
    &&& g.snake.body@ == spec_spawn_body(
        g.snake.body@[0].x,
        g.snake.body@[0].y,
        g.snake.direction,
    )
    &&& 4 <= g.snake.body@[0].x
    &&& g.snake.body@[0].x + 4 < width
    &&& 4 <= g.snake.body@[0].y
    &&& g.snake.body@[0].y + 4 < height
}

/// The waiting-time accumulator after `delta` more milliseconds, saturating
/// at the top of the `u64` range.
pub open spec fn spec_wait_after(t: u64, delta: u64) -> u64 {
    if t + delta > u64::MAX {
        u64::MAX
    } else {
        (t + delta) as u64
    }
}

/// What one attempted move does to the game. When the computed next head
/// cell stays alive (inside the border and off the body, tail excluded),
/// the snake advances, eats the food exactly when the new head lands on
/// it, and keeps its length except for that growth; otherwise nothing
/// moves and the game ends. Either way the accumulator is cleared.
pub open spec fn spec_step_result(pre: Game, post: Game, dir: Option<Direction>) -> bool {
    &&& post.width == pre.width
    &&& post.height == pre.height
    &&& post.waiting_time == 0
    &&& post.food_block == pre.food_block
    &&& if pre.spec_snake_alive(dir) {
        let nh = pre.snake.spec_next_head(dir);
        &&& post.game_over == pre.game_over
        &&& post.snake.direction == pre.snake.spec_effective_dir(dir)
        &&& post.snake.tail == Some(pre.snake.body@.last())
        &&& if pre.food_exists && pre.food_block == nh {
            &&& !post.food_exists
            &&& post.snake.body@ == seq![nh] + pre.snake.body@
        } else {
            &&& post.food_exists == pre.food_exists
            &&& post.snake.body@ == seq![nh] + pre.snake.body@.drop_last()
        }
    } else {
        &&& post.game_over
        &&& post.snake == pre.snake
        &&& post.food_exists == pre.food_exists
    }
}

/// True when some interior cell of the board is not covered by the
/// snake's body, so food has somewhere to go.
pub open spec fn spec_has_free_cell(g: Game) -> bool {
    exists|b: Block|
        in_interior(b, g.width, g.height) && !(#[trigger] g.snake.body@.contains(b))
}

/// One playing-state tick whose food cell in effect is `f`: the waiting
/// time becomes `w`, and the snake moves exactly when `w` has passed the
/// move period.
pub open spec fn spec_play_tick(pre: Game, post: Game, w: u64, f: Block) -> bool {
    let mid = (Game { food_exists: true, food_block: f, waiting_time: w, ..pre });
    if w > MOVE_PERIOD_MS {
        spec_step_result(mid, post, None::<Direction>)
    } else {
        spec_same_but_rng(mid, post)
    }
}

/// A three-cell snake cannot cover the interior of a board whose sides
/// are at least nine cells: some interior cell is always left free.
proof fn lemma_small_snake_leaves_room(g: Game)
    requires
        9 <= g.width,
        9 <= g.height,
        g.snake.body@.len() == 3,
    ensures
        spec_has_free_cell(g),
{
    let body = g.snake.body@;
    let c0 = Block { x: 1, y: 1 };
    let c1 = Block { x: 1, y: 2 };
    let c2 = Block { x: 1, y: 3 };
    let c3 = Block { x: 1, y: 4 };
    assert(in_interior(c0, g.width, g.height));
    assert(in_interior(c1, g.width, g.height));
    assert(in_interior(c2, g.width, g.height));
    assert(in_interior(c3, g.width, g.height));
    if body.contains(c0) && body.contains(c1) && body.contains(c2) && body.contains(c3) {
        let i0 = choose|i: int| 0 <= i < body.len() && body[i] == c0;
        let i1 = choose|i: int| 0 <= i < body.len() && body[i] == c1;
        let i2 = choose|i: int| 0 <= i < body.len() && body[i] == c2;
        let i3 = choose|i: int| 0 <= i < body.len() && body[i] == c3;
        assert(body[i0] == c0);
        assert(body[i1] == c1);
        assert(body[i2] == c2);
        assert(body[i3] == c3);
        assert(false);
    }
}

/// Every cell of a freshly spawned body stays strictly inside the border
/// when the head keeps a margin of four cells from it.
proof fn lemma_spawn_cells_interior(x: u32, y: u32, d: Direction, width: u32, height: u32)
    requires
        4 <= x,
        x + 4 < width,
        4 <= y,
        y + 4 < height,
    ensures
        forall|i: int|
            0 <= i < spec_spawn_body(x, y, d).len()
                ==> in_interior(#[trigger] spec_spawn_body(x, y, d)[i], width, height),
{
    let body = spec_spawn_body(x, y, d);
    assert(in_interior(body[0], width, height));
    assert(in_interior(body[1], width, height));
    assert(in_interior(body[2], width, height));
    assert forall|i: int| 0 <= i < body.len() implies in_interior(
        #[trigger] body[i],
        width,
        height,
    ) by {
        assert(i == 0 || i == 1 || i == 2);
    }
}

impl Game {
    /// The game invariant: a board large enough for the spawn ranges, a
    /// snake of at least three cells all strictly inside the border, and
    /// food, when present, strictly inside the border and never on the
    /// snake's body.
    pub open spec fn wf(&self) -> bool {
        &&& 9 <= self.width
        &&& 9 <= self.height
        &&& 3 <= self.snake.body@.len()
        &&& forall|i: int|
            0 <= i < self.snake.body@.len()
                ==> in_interior(#[trigger] self.snake.body@[i], self.width, self.height)
        &&& (self.food_exists ==> in_interior(self.food_block, self.width, self.height)
            && !self.snake.body@.contains(self.food_block))
    }

    /// True when the cell the head would move to next keeps the snake
    /// alive: strictly inside the border and off the body with the tail
    /// cell excluded.
    pub open spec fn spec_snake_alive(&self, dir: Option<Direction>) -> bool {
        let nb = self.snake.spec_next_head(dir);
        &&& !self.snake.body@.drop_last().contains(nb)
        &&& in_interior(nb, self.width, self.height)
    }

    /// A new game on a `width` x `height` board, its randomness drawn from
    /// a generator seeded with `seed`: a snake spawned with a margin of
    /// four cells from every border, food on a free interior cell, playing.
    pub fn new(width: u32, height: u32, seed: u64) -> (g: Game)
        requires
            9 <= width,
            9 <= height,
        ensures
            g.wf(),
            spec_fresh(g, width, height),
    {
        let mut rng = rng_from_seed(seed);
        let code: u32 = rand_range_u32(&mut rng, 0, 4);
        let dir = match Direction::try_from(code as i32) {
            Ok(d) => d,
            Err(_) => Direction::Up,
        };
        let hx: u32 = rand_range_u32(&mut rng, 4, width - 4);
        let hy: u32 = rand_range_u32(&mut rng, 4, height - 4);
        proof {
            lemma_spawn_cells_interior(hx, hy, dir, width, height);
        }
        let snake = Snake::new(hx, hy, dir);
        let mut g = Game {
            snake,
            food_exists: false,
            food_block: Block { x: 1, y: 1 },
            width,
            height,
            game_over: false,
            waiting_time: 0,
            rng,
        };
        proof {
            lemma_small_snake_leaves_room(g);
        }
        g.add_food();
        g
    }

    /// A direction intent from the host, already narrowed to the four
    /// cardinal directions. Ignored while in game-over, ignored when it is
    /// the exact opposite of the current heading (a 180-degree reversal
    /// would collide with the body at once); otherwise it triggers an
    /// immediate move in that direction, outside the period-gated tick.
    pub fn key_pressed(&mut self, dir: Direction)
        requires
            old(self).wf(),
        ensures
            final(self).wf(),
            old(self).game_over ==> spec_same_but_rng(*old(self), *final(self)),
            !old(self).game_over && dir == spec_opposite(old(self).snake.direction)
                ==> spec_same_but_rng(*old(self), *final(self)),
            !old(self).game_over && dir != spec_opposite(old(self).snake.direction)
                ==> spec_step_result(*old(self), *final(self), Some(dir)),
    {
        if self.game_over {
            return;
        }
        if dir == self.snake.head_direction().opposite() {
            return;
        }
        self.update_snake(Some(dir));
    }

    /// One frame of `delta_ms` milliseconds. The accumulator always grows
    /// first (saturating). In game-over, once it passes the restart delay
    /// the whole game restarts afresh; before that nothing else changes.
    /// While playing, absent food is spawned on a free interior cell, and
    /// once the accumulator passes the move period the snake advances in
    /// its current heading.
    pub fn update(&mut self, delta_ms: u64)
        requires
            old(self).wf(),
        ensures
            final(self).wf(),
            final(self).width == old(self).width,
            final(self).height == old(self).height,
            ({
                let w = spec_wait_after(old(self).waiting_time, delta_ms);
                &&& (old(self).game_over && w > RESTART_TIME_MS ==> spec_fresh(
                    *final(self),
                    old(self).width,
                    old(self).height,
                ))
                &&& (old(self).game_over && w <= RESTART_TIME_MS ==> {
                    &&& final(self).game_over
                    &&& final(self).waiting_time == w
                    &&& final(self).snake == old(self).snake
                    &&& final(self).food_exists == old(self).food_exists
                    &&& final(self).food_block == old(self).food_block
                })
                &&& (!old(self).game_over && old(self).food_exists ==> spec_play_tick(
                    *old(self),
                    *final(self),
                    w,
                    old(self).food_block,
                ))
                &&& (!old(self).game_over && !old(self).food_exists && spec_has_free_cell(
                    *old(self),
                ) ==> exists|f: Block|
                    in_interior(f, old(self).width, old(self).height)
                        && !old(self).snake.body@.contains(f)
                        && #[trigger] spec_play_tick(*old(self), *final(self), w, f))
                &&& (!old(self).game_over && !old(self).food_exists && !spec_has_free_cell(
                    *old(self),
                ) ==> ({
                    let pre = (Game { waiting_time: w, ..*old(self) });
                    if w > MOVE_PERIOD_MS {
                        spec_step_result(pre, *final(self), None::<Direction>)
                    } else {
                        spec_same_but_rng(pre, *final(self))
                    }
                }))
            }),
    {
        let new_wait: u64 = if delta_ms > u64::MAX - self.waiting_time {
            u64::MAX
        } else {
            self.waiting_time + delta_ms
        };
        self.waiting_time = new_wait;

        if self.game_over {
            if self.waiting_time > RESTART_TIME_MS {
                self.restart();
            }
            return;
        }

        let ghost had_food = self.food_exists;
        if !self.food_exists {
            self.add_food();
        }
        let ghost mid = *self;

        if self.waiting_time > MOVE_PERIOD_MS {
            self.update_snake(None);
        }

        proof {
            let w = spec_wait_after(old(self).waiting_time, delta_ms);
            let pre_mid = (Game {
                food_exists: true,
                food_block: mid.food_block,
                waiting_time: w,
                ..*old(self)
            });
            assert(pre_mid.snake == mid.snake);
            if !had_food && mid.food_exists {
                assert(spec_play_tick(*old(self), *self, w, mid.food_block));
            }
        }
    }

    /// The pure read for the renderer; nothing is mutated.
    pub fn render_state(&self) -> (s: Scene)
        ensures
            s.snake_cells@ == self.snake.body@,
            s.food == (if self.food_exists {
                Some(self.food_block)
            } else {
                None::<Block>
            }),
            s.width == self.width,
            s.height == self.height,
            s.is_game_over == self.game_over,
    {
        Scene {
            snake_cells: self.snake.cells(),
            food: if self.food_exists {
                Some(self.food_block)
            } else {
                None
            },
            width: self.width,
            height: self.height,
            is_game_over: self.game_over,
        }
    }

    /// Whether the snake survives a move in `dir` (the current heading
    /// when `None`): the next head cell must stay strictly inside the
    /// border and off the body, tail excluded.
    fn check_if_snake_alive(&self, dir: Option<Direction>) -> (r: bool)
        requires
            self.wf(),
        ensures
            r == self.spec_snake_alive(dir),
    {
        proof {
            assert(in_interior(self.snake.body@[0], self.width, self.height));
        }
        let next_block = self.snake.next_head(dir);
        if self.snake.overlap_tail(&next_block) {
            return false;
        }
        next_block.x > 0 && next_block.y > 0 && next_block.x < self.width - 1
            && next_block.y < self.height - 1
    }

    /// When the head has just landed on the food, the food is consumed and
    /// the dropped tail cell is restored; otherwise nothing changes.
    fn check_eating(&mut self)
        requires
            old(self).snake.wf(),
            old(self).food_exists && old(self).food_block == old(self).snake.body@[0]
                ==> old(self).snake.tail is Some,
        ensures
            final(self).width == old(self).width,
            final(self).height == old(self).height,
            final(self).game_over == old(self).game_over,
            final(self).waiting_time == old(self).waiting_time,
            final(self).food_block == old(self).food_block,
            final(self).snake.direction == old(self).snake.direction,
            final(self).snake.tail == old(self).snake.tail,
            final(self).rng == old(self).rng,
            if old(self).food_exists && old(self).food_block == old(self).snake.body@[0] {
                &&& !final(self).food_exists
                &&& final(self).snake.body@ == old(self).snake.body@.push(
                    old(self).snake.tail->0,
                )
            } else {
                &&& final(self).food_exists == old(self).food_exists
                &&& final(self).snake.body@ == old(self).snake.body@
            },
    {
        let head_block = match self.snake.head_position() {
            Ok(b) => b,
            Err(_) => {
                return;
            },
        };
        if self.food_exists && self.food_block == head_block {
            self.food_exists = false;
            self.snake.restore_tail();
        }
    }

    /// The first free interior cell in row-major order, `None` only when
    /// the snake covers the whole interior.
    fn find_free_cell(&self) -> (r: Option<Block>)
        requires
            3 <= self.width,
            3 <= self.height,
        ensures
            match r {
                Some(c) => in_interior(c, self.width, self.height)
                    && !self.snake.body@.contains(c),
                None => forall|b: Block|
                    in_interior(b, self.width, self.height)
                        ==> #[trigger] self.snake.body@.contains(b),
            },
    {
        let mut y: u32 = 1;
        while y + 1 < self.height
            invariant
                3 <= self.width,
                3 <= self.height,
                1 <= y,
                y <= self.height - 1,
                forall|b: Block|
                    in_interior(b, self.width, self.height) && b.y < y
                        ==> #[trigger] self.snake.body@.contains(b),
            decreases self.height - y,
        {
            let mut x: u32 = 1;
            while x + 1 < self.width
                invariant
                    3 <= self.width,
                    3 <= self.height,
                    1 <= y,
                    y + 1 < self.height,
                    1 <= x,
                    x <= self.width - 1,
                    forall|b: Block|
                        in_interior(b, self.width, self.height) && b.y < y
                            ==> #[trigger] self.snake.body@.contains(b),
                    forall|b: Block|
                        in_interior(b, self.width, self.height) && b.y == y && b.x < x
                            ==> #[trigger] self.snake.body@.contains(b),
                decreases self.width - x,
            {
                let cell = Block { x, y };
                if !self.snake.occupies(&cell) {
                    return Some(cell);
                }
                x += 1;
            }
            y += 1;
        }
        None
    }

    /// Spawn food on a uniformly drawn interior cell, redrawing while the
    /// cell lies on the snake's body; after a bounded number of draws it
    /// falls back to scanning for a free cell, so food appears exactly
    /// when the snake leaves some interior cell uncovered. Everything but
    /// the food and the generator stays as it was.
    fn add_food(&mut self)
        requires
            3 <= old(self).width,
            3 <= old(self).height,
            !old(self).food_exists,
        ensures
            final(self).food_exists == spec_has_free_cell(*old(self)),
            final(self).food_exists ==> in_interior(
                final(self).food_block,
                old(self).width,
                old(self).height,
            ) && !final(self).snake.body@.contains(final(self).food_block),
            !final(self).food_exists ==> final(self).food_block == old(self).food_block,
            final(self).snake == old(self).snake,
            final(self).width == old(self).width,
            final(self).height == old(self).height,
            final(self).game_over == old(self).game_over,
            final(self).waiting_time == old(self).waiting_time,
    {
        let x: u32 = rand_range_u32(&mut self.rng, 1, self.width - 1);
        let y: u32 = rand_range_u32(&mut self.rng, 1, self.height - 1);
        let mut cell = Block { x, y };
        let mut tries: u32 = 0;
        while tries < FOOD_SAMPLE_TRIES && self.snake.occupies(&cell)
            invariant
                3 <= self.width,
                3 <= self.height,
                1 <= cell.x,
                cell.x + 1 < self.width,
                1 <= cell.y,
                cell.y + 1 < self.height,
                tries <= FOOD_SAMPLE_TRIES,
                self.snake == old(self).snake,
                self.width == old(self).width,
                self.height == old(self).height,
                self.game_over == old(self).game_over,
                self.waiting_time == old(self).waiting_time,
                self.food_exists == old(self).food_exists,
                self.food_block == old(self).food_block,
            decreases FOOD_SAMPLE_TRIES - tries,
        {
            let nx: u32 = rand_range_u32(&mut self.rng, 1, self.width - 1);
            let ny: u32 = rand_range_u32(&mut self.rng, 1, self.height - 1);
            cell = Block { x: nx, y: ny };
            tries += 1;
        }
        if !self.snake.occupies(&cell) {
            self.food_block = cell;
            self.food_exists = true;
            return;
        }
        match self.find_free_cell() {
            Some(c) => {
                self.food_block = c;
                self.food_exists = true;
            },
            None => {
                proof {
                    assert(!spec_has_free_cell(*old(self)));
                }
            },
        }
    }

    /// One attempted move in `dir` (the current heading when `None`): the
    /// whole decision between advancing, eating and dying, with the
    /// accumulator cleared afterwards.
    fn update_snake(&mut self, dir: Option<Direction>)
        requires
            old(self).wf(),
            !old(self).game_over,
        ensures
            final(self).wf(),
            spec_step_result(*old(self), *final(self), dir),
    {
        if self.check_if_snake_alive(dir) {
            proof {
                assert(in_interior(self.snake.body@[0], self.width, self.height));
            }
            self.snake.move_forward(dir);
            self.check_eating();
            proof {
                let pre = *old(self);
                let nh = pre.snake.spec_next_head(dir);
                assert(in_interior(nh, pre.width, pre.height));
                if pre.food_exists && pre.food_block == nh {
                    assert(self.snake.body@ =~= seq![nh] + pre.snake.body@);
                    assert forall|i: int| 0 <= i < self.snake.body@.len() implies in_interior(
                        #[trigger] self.snake.body@[i],
                        self.width,
                        self.height,
                    ) by {
                        if i > 0 {
                            assert(self.snake.body@[i] == pre.snake.body@[i - 1]);
                        }
                    }
                } else {
                    assert forall|i: int| 0 <= i < self.snake.body@.len() implies in_interior(
                        #[trigger] self.snake.body@[i],
                        self.width,
                        self.height,
                    ) by {
                        if i > 0 {
                            assert(self.snake.body@[i] == pre.snake.body@.drop_last()[i - 1]);
                            assert(pre.snake.body@.drop_last()[i - 1] == pre.snake.body@[i - 1]);
                        }
                    }
                    if self.food_exists {
                        assert(pre.food_block != nh);
                        assert forall|i: int|
                            0 <= i < self.snake.body@.len() implies self.snake.body@[i]
                            != self.food_block by {
                            if i > 0 {
                                assert(self.snake.body@[i] == pre.snake.body@[i - 1]);
                                assert(!pre.snake.body@.contains(pre.food_block));
                                assert(pre.snake.body@[i - 1] != pre.food_block);
                            }
                        }
                        assert(!self.snake.body@.contains(self.food_block));
                    }
                }
            }
        } else {
            self.game_over = true;
        }
        self.waiting_time = 0;
    }

    /// A full restart after game-over: a new snake and food drawn from the
    /// game's own generator, the accumulator cleared, the flag dropped.
    fn restart(&mut self)
        requires
            9 <= old(self).width,
            9 <= old(self).height,
        ensures
            final(self).wf(),
            spec_fresh(*final(self), old(self).width, old(self).height),
            final(self).width == old(self).width,
            final(self).height == old(self).height,
    {
        let code: u32 = rand_range_u32(&mut self.rng, 0, 4);
        let dir = match Direction::try_from(code as i32) {
            Ok(d) => d,
            Err(_) => Direction::Up,
        };
        let hx: u32 = rand_range_u32(&mut self.rng, 4, self.width - 4);
        let hy: u32 = rand_range_u32(&mut self.rng, 4, self.height - 4);
        proof {
            lemma_spawn_cells_interior(hx, hy, dir, self.width, self.height);
        }
        self.snake = Snake::new(hx, hy, dir);
        self.food_exists = false;
        self.game_over = false;
        self.waiting_time = 0;
        proof {
            lemma_small_snake_leaves_room(*self);
        }
        self.add_food();
    }
}

/// Food, whenever it is present in a well-formed game, never lies on a
/// cell of the snake's body.
pub proof fn lemma_food_never_on_body(g: Game)
    requires
        g.wf(),
        g.food_exists,
    ensures
        !g.snake.body@.contains(g.food_block),
{
}

} // verus!
