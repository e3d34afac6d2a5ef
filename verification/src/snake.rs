//! The snake game: a snake that moves one block per step over the screen,
//! grows when it eats, and crashes into walls and into itself.

use vstd::prelude::*;
use crate::input::{Frame, Keys};
use crate::random::random_below;
use crate::shell::Game;

verus! {

/// Side of one block, and length of one step, in pixels.
pub const BLOCK_SIZE: i32 = 20;

/// Milliseconds between two steps of the snake.
pub const STEP_INTERVAL: u64 = 100;

/// Where the head of a new snake lies.
pub const START: (i32, i32) = (320, 240);

/// Most columns, and most rows, of blocks among which food is placed.
pub const FOOD_SPAN_MAX: i32 = 1024;

/// The way the snake is heading.
#[derive(Clone, Copy, PartialEq, Eq, Structural, Debug)]
pub enum Direction {
    Up,
    Down,
    Left,
    Right,
}

/// Number of blocks along a side of `pixels` among which food is placed: one
/// for each whole block, at least one and at most `FOOD_SPAN_MAX`.
pub open spec fn food_span(pixels: int) -> int {
    if pixels < 2 * BLOCK_SIZE {
        1
    } else if pixels / (BLOCK_SIZE as int) > FOOD_SPAN_MAX {
        FOOD_SPAN_MAX as int
    } else {
        pixels / (BLOCK_SIZE as int)
    }
}

/// The corner of the block in column `gx` and row `gy`.
pub open spec fn block_at(gx: int, gy: int) -> (int, int) {
    (gx * BLOCK_SIZE, gy * BLOCK_SIZE)
}

/// The points of a list of segments.
pub open spec fn points(v: Seq<(i32, i32)>) -> Seq<(int, int)> {
    Seq::new(v.len(), |i: int| (v[i].0 as int, v[i].1 as int))
}

/// What a snake game is.
pub struct Snake {
    /// The segments, head first.
    pub body: Seq<(int, int)>,
    pub direction: Direction,
    pub food: (int, int),
    pub score: nat,
    /// Clock reading at the last step.
    pub last_update: nat,
    /// Width and height of the screen as last seen.
    pub screen: (int, int),
    /// Whether the last reading of the clock found a step due that would
    /// have crashed.
    pub crashed: bool,
}

impl Snake {
    /// The snake has a head, and no two of its segments lie on one block.
    pub open spec fn wf(self) -> bool {
        self.body.len() >= 1 && self.body.no_duplicates()
    }

    /// The heading after the keys of one frame: up, down, left and right,
    /// each tried in this order, and none taken that would turn the snake
    /// back on itself.
    pub open spec fn steered(self, keys: Keys) -> Snake {
        let a = if keys.up && self.direction != Direction::Down {
            Direction::Up
        } else {
            self.direction
        };
        let b = if keys.down && a != Direction::Up {
            Direction::Down
        } else {
            a
        };
        let c = if keys.left && b != Direction::Right {
            Direction::Left
        } else {
            b
        };
        let d = if keys.right && c != Direction::Left {
            Direction::Right
        } else {
            c
        };
        Snake { direction: d, ..self }
    }

    /// A step is due at `now`.
    pub open spec fn step_due(self, now: nat) -> bool {
        now - self.last_update >= STEP_INTERVAL
    }

    /// Where the head goes with the next step.
    pub open spec fn next_head(self) -> (int, int) {
        let head = self.body[0];
        match self.direction {
            Direction::Up => (head.0, head.1 - BLOCK_SIZE),
            Direction::Down => (head.0, head.1 + BLOCK_SIZE),
            Direction::Left => (head.0 - BLOCK_SIZE, head.1),
            Direction::Right => (head.0 + BLOCK_SIZE, head.1),
        }
    }

    /// The next step takes the head off the screen or onto the snake.
    pub open spec fn crashes(self) -> bool {
        let head = self.next_head();
        ||| head.0 < 0
        ||| head.0 >= self.screen.0
        ||| head.1 < 0
        ||| head.1 >= self.screen.1
        ||| self.body.contains(head)
    }

    /// `p` is the corner of a block among which food is placed.
    pub open spec fn is_block(self, p: (int, int)) -> bool {
        exists|gx: int, gy: int|
            0 <= gx < food_span(self.screen.0) && 0 <= gy < food_span(self.screen.1) && p
                == #[trigger] block_at(gx, gy)
    }

    /// `p` is a block that the snake does not lie on.
    pub open spec fn free_block(self, p: (int, int)) -> bool {
        self.is_block(p) && !self.body.contains(p)
    }

    /// New food may come to lie at `p`: on a free block, or, when the snake
    /// covers every block, where the food lay before.
    pub open spec fn may_spawn(self, p: (int, int)) -> bool {
        if exists|q: (int, int)| self.free_block(q) {
            self.free_block(p)
        } else {
            p == self.food
        }
    }

    /// The snake with its head moved on and its tail left in place, and one
    /// point more.
    pub open spec fn fed(self) -> Snake {
        Snake {
            body: self.body.insert(0, self.next_head()),
            score: if self.score + 1 > u64::MAX {
                self.score
            } else {
                self.score + 1
            },
            ..self
        }
    }

    /// A step at `now` would be taken and would crash.
    pub open spec fn crashes_at(self, now: nat) -> bool {
        self.step_due(now) && self.crashes()
    }

    /// A step at `now` would be taken and would bring the head onto the
    /// food.
    pub open spec fn eats_at(self, now: nat) -> bool {
        self.step_due(now) && !self.crashes() && self.next_head() == self.food
    }

    /// The game after the clock is read as `now`. Before a step is due
    /// nothing happens. When one is due the timer restarts; a step that
    /// would crash is not taken, and the crash is noted; a step onto the food
    /// lengthens the snake by its new head, scores a point and puts new food
    /// at `food`; any other step moves the snake on by one block.
    pub open spec fn stepped(self, now: nat, food: (int, int)) -> Snake {
        if !self.step_due(now) {
            Snake { crashed: false, ..self }
        } else {
            let timed = Snake { last_update: now, crashed: false, ..self };
            if timed.crashes() {
                Snake { crashed: true, ..timed }
            } else if timed.next_head() == timed.food {
                Snake { food, ..timed.fed() }
            } else {
                Snake { body: timed.body.insert(0, timed.next_head()).drop_last(), ..timed }
            }
        }
    }

    /// A reading of the clock as `now` may take the game to `after`.
    pub open spec fn steps_to(self, now: nat, after: Snake) -> bool {
        &&& after == self.stepped(now, after.food)
        &&& self.eats_at(now) ==> (Snake { last_update: now, crashed: false, ..self }).fed().may_spawn(
            after.food,
        )
    }

    /// The game as one frame finds it: with the frame's screen size, and,
    /// unless escape is pressed, with the frame's keys applied.
    pub open spec fn entered(self, frame: Frame) -> Snake {
        let seen = Snake { screen: (frame.width as int, frame.height as int), ..self };
        if frame.keys.escape {
            seen
        } else {
            seen.steered(frame.keys)
        }
    }

    /// One frame may take the game to `after` with the answer `exit`: escape
    /// asks to leave at once; otherwise the keys steer, the clock is read,
    /// and a crash asks to leave if space is pressed.
    pub open spec fn frame_to(self, frame: Frame, after: Snake, exit: bool) -> bool {
        if frame.keys.escape {
            after == self.entered(frame) && exit
        } else {
            &&& self.entered(frame).steps_to(frame.now as nat, after)
            &&& exit == (self.entered(frame).crashes_at(frame.now as nat) && frame.keys.space)
        }
    }

    /// The snake at its start, heading right, with no points; the food, the
    /// timer and the screen as they are.
    pub open spec fn rewound(self) -> Snake {
        Snake {
            body: seq![(START.0 as int, START.1 as int)],
            direction: Direction::Right,
            score: 0,
            crashed: false,
            ..self
        }
    }

    /// A reset may take the game to `after`: the snake at its start, new
    /// food, and the timer at zero.
    pub open spec fn resets_to(self, after: Snake) -> bool {
        &&& after == (Snake { food: after.food, last_update: 0, ..self.rewound() })
        &&& self.rewound().may_spawn(after.food)
    }

    /// The game before its first food is placed, on a screen of the given
    /// size.
    pub open spec fn blank(width: int, height: int) -> Snake {
        Snake {
            body: seq![(START.0 as int, START.1 as int)],
            direction: Direction::Right,
            food: (0, 0),
            score: 0,
            last_update: 0,
            screen: (width, height),
            crashed: false,
        }
    }
}

/// While the snake is heading one way, a key for the opposite way does not
/// turn it.
pub proof fn lemma_no_turning_back(s: Snake, keys: Keys)
    ensures
        s.direction == Direction::Up && !keys.left && !keys.right ==> s.steered(keys).direction
            == Direction::Up,
        s.direction == Direction::Down && !keys.up && !keys.left && !keys.right ==> s.steered(
            keys,
        ).direction == Direction::Down,
        s.direction == Direction::Left && !keys.up && !keys.down ==> s.steered(keys).direction
            == Direction::Left,
        s.direction == Direction::Right && !keys.up && !keys.down && !keys.left ==> s.steered(
            keys,
        ).direction == Direction::Right,
{
}

/// A step that is taken keeps the head on the screen and off the rest of
/// the snake, and changes the length by one when food is eaten and not at
/// all otherwise.
pub proof fn lemma_step_is_safe(s: Snake, now: nat, food: (int, int))
    requires
        s.wf(),
        s.step_due(now),
        !s.crashes(),
    ensures
        s.stepped(now, food).wf(),
        s.stepped(now, food).body[0] == s.next_head(),
        0 <= s.stepped(now, food).body[0].0 < s.screen.0,
        0 <= s.stepped(now, food).body[0].1 < s.screen.1,
        !s.body.contains(s.stepped(now, food).body[0]),
        s.eats_at(now) ==> s.stepped(now, food).body.len() == s.body.len() + 1,
        !s.eats_at(now) ==> s.stepped(now, food).body.len() == s.body.len(),
{
}

/// Whether `(x, y)` is one of the segments.
fn body_contains(body: &Vec<(i32, i32)>, x: i64, y: i64) -> (found: bool)
    ensures
        found == points(body@).contains((x as int, y as int)),
{
    let mut i: usize = 0;
    while i < body.len()
        invariant
            i <= body.len(),
            forall|k: int| 0 <= k < i ==> points(body@)[k] != (x as int, y as int),
        decreases body.len() - i,
    {
        if body[i].0 as i64 == x && body[i].1 as i64 == y {
            assert(points(body@)[i as int] == (x as int, y as int));
            return true;
        }
        i += 1;
    }
    false
}

/// Number of blocks along a side of `pixels` among which food is placed.
fn span_of(pixels: i32) -> (n: i32)
    ensures
        n == food_span(pixels as int),
        1 <= n <= FOOD_SPAN_MAX,
{
    if pixels < 2 * BLOCK_SIZE {
        1
    } else if pixels / BLOCK_SIZE > FOOD_SPAN_MAX {
        FOOD_SPAN_MAX
    } else {
        pixels / BLOCK_SIZE
    }
}

/// The snake game.
pub struct SnakeGame {
    snake: Vec<(i32, i32)>,
    direction: Direction,
    food: (i32, i32),
    score: u64,
    last_update: u64,
    screen: (i32, i32),
    crashed: bool,
}

impl View for SnakeGame {
    type V = Snake;

    closed spec fn view(&self) -> Snake {
        Snake {
            body: points(self.snake@),
            direction: self.direction,
            food: (self.food.0 as int, self.food.1 as int),
            score: self.score as nat,
            last_update: self.last_update as nat,
            screen: (self.screen.0 as int, self.screen.1 as int),
            crashed: self.crashed,
        }
    }
}

impl SnakeGame {
    /// The game stands for a well-formed snake.
    pub open spec fn wf(&self) -> bool {
        self@.wf()
    }

    /// A new game on a screen of the given size in pixels: the snake at its
    /// start, heading right, and food on a free block.
    pub fn new(width: i32, height: i32) -> (game: SnakeGame)
        ensures
            game.wf(),
            game@ == (Snake { food: game@.food, ..Snake::blank(width as int, height as int) }),
            Snake::blank(width as int, height as int).may_spawn(game@.food),
    {
        let mut snake: Vec<(i32, i32)> = Vec::new();
        snake.push(START);
        let mut game = SnakeGame {
            snake,
            direction: Direction::Right,
            food: (0, 0),
            score: 0,
            last_update: 0,
            screen: (width, height),
            crashed: false,
        };
        assert(game@.body =~= Snake::blank(width as int, height as int).body);
        game.spawn_food();
        game
    }

    /// Puts the food on a block that the snake does not lie on, each such
    /// block being one that may be taken. When there is none, the food stays
    /// where it is.
    fn spawn_food(&mut self)
        ensures
            final(self)@ == (Snake { food: final(self)@.food, ..old(self)@ }),
            old(self)@.may_spawn(final(self)@.food),
    {
        let ghost s = self@;
        let cols: i32 = span_of(self.screen.0);
        let rows: i32 = span_of(self.screen.1);
        let mut free: Vec<(i32, i32)> = Vec::new();
        let mut gx: i32 = 0;
        while gx < cols
            invariant
                self@ == s,
                cols == food_span(s.screen.0),
                rows == food_span(s.screen.1),
                1 <= cols <= FOOD_SPAN_MAX,
                1 <= rows <= FOOD_SPAN_MAX,
                0 <= gx <= cols,
                free.len() <= gx * rows,
                forall|k: int|
                    0 <= k < free.len() ==> s.free_block(
                        ((#[trigger] free[k]).0 as int, free[k].1 as int),
                    ),
                forall|x: int, y: int|
                    0 <= x < gx && 0 <= y < rows && !s.body.contains(#[trigger] block_at(x, y))
                        ==> points(free@).contains(block_at(x, y)),
            decreases cols - gx,
        {
            let mut gy: i32 = 0;
            while gy < rows
                invariant
                    self@ == s,
                    cols == food_span(s.screen.0),
                    rows == food_span(s.screen.1),
                    1 <= cols <= FOOD_SPAN_MAX,
                    1 <= rows <= FOOD_SPAN_MAX,
                    0 <= gx < cols,
                    0 <= gy <= rows,
                    free.len() <= gx * rows + gy,
                    forall|k: int|
                        0 <= k < free.len() ==> s.free_block(
                            ((#[trigger] free[k]).0 as int, free[k].1 as int),
                        ),
                    forall|x: int, y: int|
                        ((0 <= x < gx && 0 <= y < rows) || (x == gx && 0 <= y < gy))
                            && !s.body.contains(#[trigger] block_at(x, y)) ==> points(
                            free@,
                        ).contains(block_at(x, y)),
                decreases rows - gy,
            {
                let x: i32 = gx * BLOCK_SIZE;
                let y: i32 = gy * BLOCK_SIZE;
                let ghost before = free@;
                if !body_contains(&self.snake, x as i64, y as i64) {
                    free.push((x, y));
                    assert(points(free@)[before.len() as int] == block_at(gx as int, gy as int));
                }
                proof {
                    assert forall|a: int, b: int|
                        ((0 <= a < gx && 0 <= b < rows) || (a == gx && 0 <= b < gy + 1))
                            && !s.body.contains(#[trigger] block_at(a, b)) implies points(
                        free@,
                    ).contains(block_at(a, b)) by {
                        if a != gx || b != gy {
                            let k = choose|k: int|
                                0 <= k < points(before).len() && points(before)[k] == block_at(
                                    a,
                                    b,
                                );
                            assert(points(free@)[k] == block_at(a, b));
                        }
                    }
                }
                gy += 1;
            }
            assert(gx * rows + rows == (gx + 1) * rows) by (nonlinear_arith);
            gx += 1;
        }
        assert(cols * rows <= 1024 * 1024) by (nonlinear_arith)
            requires
                1 <= cols <= 1024,
                1 <= rows <= 1024,
        ;
        if free.len() > 0 {
            let k: usize = random_below(free.len());
            self.food = free[k];
        } else {
            assert forall|q: (int, int)| !s.free_block(q) by {
                if s.free_block(q) {
                    let (x, y) = choose|x: int, y: int|
                        0 <= x < food_span(s.screen.0) && 0 <= y < food_span(s.screen.1) && q
                            == #[trigger] block_at(x, y);
                    assert(points(free@).contains(block_at(x, y)));
                }
            }
        }
    }

    /// Applies the keys of one frame to the heading.
    pub fn handle_input(&mut self, keys: &Keys)
        ensures
            final(self)@ == old(self)@.steered(*keys),
    {
        if keys.up && self.direction != Direction::Down {
            self.direction = Direction::Up;
        }
        if keys.down && self.direction != Direction::Up {
            self.direction = Direction::Down;
        }
        if keys.left && self.direction != Direction::Right {
            self.direction = Direction::Left;
        }
        if keys.right && self.direction != Direction::Left {
            self.direction = Direction::Right;
        }
    }

    /// Reads the clock: when a step is due the snake moves on by one block,
    /// eating the food if its head comes to lie there. Returns whether the
    /// step that was due would have crashed, in which case it was not taken.
    pub fn update(&mut self, now: u64) -> (over: bool)
        requires
            old(self).wf(),
        ensures
            final(self).wf(),
            old(self)@.steps_to(now as nat, final(self)@),
            over == old(self)@.crashes_at(now as nat),
    {
        self.crashed = false;
        if !(now >= self.last_update && now - self.last_update >= STEP_INTERVAL) {
            return false;
        }
        self.last_update = now;
        let ghost timed = self@;
        let head = self.snake[0];
        let step: i64 = BLOCK_SIZE as i64;
        let (x, y): (i64, i64) = match self.direction {
            Direction::Up => (head.0 as i64, head.1 as i64 - step),
            Direction::Down => (head.0 as i64, head.1 as i64 + step),
            Direction::Left => (head.0 as i64 - step, head.1 as i64),
            Direction::Right => (head.0 as i64 + step, head.1 as i64),
        };
        if x < 0 || x >= self.screen.0 as i64 || y < 0 || y >= self.screen.1 as i64 {
            self.crashed = true;
            return true;
        }
        if body_contains(&self.snake, x, y) {
            self.crashed = true;
            return true;
        }
        let new_head: (i32, i32) = (x as i32, y as i32);
        self.snake.insert(0, new_head);
        assert(self@.body =~= timed.body.insert(0, timed.next_head()));
        if new_head.0 == self.food.0 && new_head.1 == self.food.1 {
            self.score = self.score.saturating_add(1);
            self.spawn_food();
        } else {
            self.snake.pop();
            assert(self@.body =~= timed.body.insert(0, timed.next_head()).drop_last());
        }
        false
    }

    /// The segments of the snake, head first.
    pub fn snake(&self) -> (body: &Vec<(i32, i32)>)
        ensures
            points(body@) == self@.body,
    {
        &self.snake
    }

    /// The way the snake is heading.
    pub fn direction(&self) -> (direction: Direction)
        ensures
            direction == self@.direction,
    {
        self.direction
    }

    /// Where the food lies.
    pub fn food(&self) -> (food: (i32, i32))
        ensures
            food.0 == self@.food.0,
            food.1 == self@.food.1,
    {
        self.food
    }

    /// The score.
    pub fn score(&self) -> (score: u64)
        ensures
            score == self@.score,
    {
        self.score
    }

    /// Whether the last reading of the clock found a step due that would
    /// have crashed.
    pub fn crashed(&self) -> (crashed: bool)
        ensures
            crashed == self@.crashed,
    {
        self.crashed
    }
}

impl Game for SnakeGame {
    open spec fn valid(&self) -> bool {
        self.wf()
    }

    open spec fn ticks_to(&self, frame: Frame, after: Self, exit: bool) -> bool {
        self@.frame_to(frame, after@, exit)
    }

    open spec fn resets_to(&self, after: Self) -> bool {
        self@.resets_to(after@)
    }

    /// One frame of the game: escape asks to leave at once; otherwise the
    /// keys steer the snake and the clock is read, and a crash asks to leave
    /// when space is pressed.
    fn tick(&mut self, frame: &Frame) -> (exit: bool) {
        self.screen = (frame.width, frame.height);
        if frame.keys.escape {
            return true;
        }
        self.handle_input(&frame.keys);
        let over = self.update(frame.now);
        over && frame.keys.space
    }

    /// Starts over: the snake at its start, heading right, no points, new
    /// food, and the timer at zero.
    fn reset(&mut self) {
        let mut snake: Vec<(i32, i32)> = Vec::new();
        snake.push(START);
        self.snake = snake;
        self.direction = Direction::Right;
        self.score = 0;
        self.crashed = false;
        assert(self@.body =~= old(self)@.rewound().body);
        self.spawn_food();
        self.last_update = 0;
    }
}

} // verus!
