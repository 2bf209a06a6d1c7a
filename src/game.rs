use crate::direction::{Direction, Key};
use crate::food::Food;
use crate::snake::{lemma_len_within_area, leaves_grid, on_grid, step, Snake, SnakePiece};
use std::collections::VecDeque;
use vstd::prelude::*;

verus! {

#[verifier::external_type_specification]
#[verifier::external_body]
pub struct ExThreadRng(rand::rngs::ThreadRng);

/// Relies on rand::thread_rng: a handle to this thread's random number generator.
#[verifier::external_body]
fn new_rng() -> rand::rngs::ThreadRng {
    rand::thread_rng()
}

/// Relies on rand::Rng::gen_range: a value in `[0, n)`; it panics when `n` is 0.
#[verifier::external_body]
fn random_below(rng: &mut rand::rngs::ThreadRng, n: u32) -> (r: u32)
    requires
        n > 0,
    ensures
        r < n,
{
    rand::Rng::gen_range(rng, 0, n)
}

/// How many random cells are drawn for the food before the grid is searched
/// in order.
pub const FOOD_TRIES: u32 = 64;

/// Some cell of the grid is not covered by the snake.
pub open spec fn has_free_cell(s: &Snake, cols: u32, rows: u32) -> bool {
    exists|x: u32, y: u32| x < cols && y < rows && !s.occupies(x, y)
}

/// A cell of the grid that the snake does not cover, if there is one: first
/// drawn at random, then, if a few draws all land on the snake, searched row by
/// row.
pub fn free_cell(s: &Snake, cols: u32, rows: u32) -> (r: Option<SnakePiece>)
    requires
        cols > 0,
        rows > 0,
    ensures
        match r {
            Some(p) => on_grid(p, cols, rows) && !s.occupies(p.0, p.1),
            None => !has_free_cell(s, cols, rows),
        },
{
    let mut rng = new_rng();
    let mut tries: u32 = 0;
    while tries < FOOD_TRIES
        invariant
            cols > 0,
            rows > 0,
        decreases FOOD_TRIES - tries,
    {
        let x = random_below(&mut rng, cols);
        let y = random_below(&mut rng, rows);
        if !s.is_collide(x, y) {
            return Some(SnakePiece(x, y));
        }
        tries = tries + 1;
    }
    let mut y: u32 = 0;
    while y < rows
        invariant
            y <= rows,
            forall|a: u32, b: u32| a < cols && b < y ==> s.occupies(a, b),
        decreases rows - y,
    {
        let mut x: u32 = 0;
        while x < cols
            invariant
                x <= cols,
                y < rows,
                forall|a: u32, b: u32| a < cols && b < y ==> s.occupies(a, b),
                forall|a: u32| a < x ==> s.occupies(a, y),
            decreases cols - x,
        {
            if !s.is_collide(x, y) {
                return Some(SnakePiece(x, y));
            }
            x = x + 1;
        }
        y = y + 1;
    }
    None
}

/// The whole game: the grid's size, the snake, the food, the score, and whether
/// the snake ate on the last tick (it then grows and scores on the next one).
pub struct Game {
    pub rows: u32,
    pub cols: u32,
    pub snake: Snake,
    pub just_eaten: bool,
    pub square_width: u32,
    pub food: Food,
    pub score: u32,
}

impl Game {
    /// The snake is well formed on the grid, the grid's cell count fits in a
    /// `u32`, and the score is below the snake's length.
    pub open spec fn wf(&self) -> bool {
        &&& self.snake.wf(self.cols, self.rows)
        &&& self.cols as int * self.rows as int <= u32::MAX
        &&& (self.score as int) < self.snake.body().len()
    }

    /// The snake's next head runs off the grid.
    pub open spec fn hits_wall(&self) -> bool {
        leaves_grid(self.snake.head(), self.snake.d, self.cols, self.rows)
    }

    /// The cell the snake's head moves to on the next tick.
    pub open spec fn next_head(&self) -> SnakePiece {
        step(self.snake.head(), self.snake.d)
    }

    /// The snake's next head lands on what stays of its body.
    pub open spec fn hits_self(&self) -> bool {
        self.snake.kept(self.just_eaten).contains(self.next_head())
    }

    /// `post` is the state after a tick of `pre` that did not end the game:
    /// the snake moved (growing if it had eaten), a pending meal was scored,
    /// eating was detected at the new head, and if it happened the food went
    /// to a free cell, if any is left.
    pub open spec fn ticked(pre: Game, post: Game) -> bool {
        &&& !pre.hits_wall()
        &&& !pre.hits_self()
        &&& post.cols == pre.cols
        &&& post.rows == pre.rows
        &&& post.square_width == pre.square_width
        &&& post.snake.d == pre.snake.d
        &&& post.snake.width == pre.snake.width
        &&& post.snake.body() == seq![pre.next_head()] + pre.snake.kept(pre.just_eaten)
        &&& post.score == pre.score + if pre.just_eaten {
            1int
        } else {
            0int
        }
        &&& post.just_eaten == (pre.next_head().0 == pre.food.x && pre.next_head().1 == pre.food.y)
        &&& !post.just_eaten ==> post.food == pre.food
        &&& post.just_eaten && has_free_cell(&post.snake, post.cols, post.rows) ==> on_grid(
            SnakePiece(post.food.x, post.food.y),
            post.cols,
            post.rows,
        ) && !post.snake.occupies(post.food.x, post.food.y)
        &&& post.just_eaten && !has_free_cell(&post.snake, post.cols, post.rows) ==> post.food
            == pre.food
    }

    /// A new game: a snake of one segment at the centre of the grid heading
    /// down, the food at `(1, 1)`, and no score.
    pub fn new(cols: u32, rows: u32, square_width: u32) -> (r: Game)
        requires
            cols > 0,
            rows > 0,
            cols as int * rows as int <= u32::MAX,
        ensures
            r.wf(),
            r.cols == cols,
            r.rows == rows,
            r.square_width == square_width,
            r.snake.body() == seq![SnakePiece(cols / 2, rows / 2)],
            r.snake.d == Direction::Down,
            r.snake.width == square_width,
            r.food == (Food { x: 1, y: 1 }),
            r.score == 0,
            !r.just_eaten,
    {
        let mut parts: VecDeque<SnakePiece> = VecDeque::new();
        parts.push_back(SnakePiece(cols / 2, rows / 2));
        let g = Game {
            rows,
            cols,
            snake: Snake { snake_parts: parts, width: square_width, d: Direction::Down },
            just_eaten: false,
            square_width,
            food: Food { x: 1, y: 1 },
            score: 0,
        };
        g
    }

    /// Advances the game by one tick. Returns false when the snake ran into the
    /// edge of the grid or into itself, which ends the game.
    pub fn update(&mut self) -> (r: bool)
        requires
            old(self).wf(),
        ensures
            r == (!old(self).hits_wall() && !old(self).hits_self()),
            r ==> Game::ticked(*old(self), *final(self)) && final(self).wf(),
            !r ==> final(self).cols == old(self).cols && final(self).rows == old(self).rows
                && final(self).square_width == old(self).square_width && final(self).snake.d
                == old(self).snake.d && final(self).snake.width == old(self).snake.width
                && final(self).score == old(self).score && final(self).food == old(self).food
                && final(self).just_eaten == old(self).just_eaten,
            old(self).hits_wall() ==> final(self).snake.body() == old(self).snake.body(),
            !old(self).hits_wall() && old(self).hits_self() ==> final(self).snake.body()
                == old(self).snake.kept(old(self).just_eaten),
    {
        if !self.snake.update(self.just_eaten, self.cols, self.rows) {
            return false;
        }
        proof {
            lemma_len_within_area(self.snake.body(), self.cols, self.rows);
        }

        if self.just_eaten {
            self.score = self.score + 1;
            self.just_eaten = false;
        }

        self.just_eaten = self.food.update(&self.snake);

        if self.just_eaten {
            match free_cell(&self.snake, self.cols, self.rows) {
                Some(p) => {
                    self.food = Food { x: p.0, y: p.1 };
                },
                None => {},
            }
        }

        true
    }

    /// Turns the snake towards the direction of an arrow key, unless that
    /// direction is the reverse of the current one; other keys change nothing.
    pub fn pressed(&mut self, btn: &Key)
        ensures
            final(self).snake.d == match btn.wanted() {
                Some(d) => if d != old(self).snake.d.reverse() {
                    d
                } else {
                    old(self).snake.d
                },
                None => old(self).snake.d,
            },
            final(self).snake.body() == old(self).snake.body(),
            final(self).snake.width == old(self).snake.width,
            final(self).cols == old(self).cols,
            final(self).rows == old(self).rows,
            final(self).square_width == old(self).square_width,
            final(self).score == old(self).score,
            final(self).food == old(self).food,
            final(self).just_eaten == old(self).just_eaten,
    {
        let last_direction = self.snake.d;
        self.snake.d = match btn.direction() {
            Some(d) => if d != last_direction.opposite() {
                d
            } else {
                last_direction
            },
            None => last_direction,
        };
    }
}

/// The change of column and row in one move towards `d`.
pub open spec fn delta(d: Direction) -> (int, int) {
    match d {
        Direction::Up => (0, -1),
        Direction::Down => (0, 1),
        Direction::Left => (-1, 0),
        Direction::Right => (1, 0),
    }
}

/// In a tick with no meal pending, the snake keeps its length and its new head
/// is one cell from the old one, in the direction of travel.
pub proof fn lemma_plain_tick_moves_one_cell(pre: Game, post: Game)
    requires
        pre.wf(),
        Game::ticked(pre, post),
        !pre.just_eaten,
    ensures
        post.snake.body().len() == pre.snake.body().len(),
        post.snake.head().0 == pre.snake.head().0 + delta(pre.snake.d).0,
        post.snake.head().1 == pre.snake.head().1 + delta(pre.snake.d).1,
{
    assert(on_grid(pre.snake.body()[0], pre.cols, pre.rows));
}

/// In a tick with a meal pending, the snake grows by exactly one segment: the
/// new head is added and the tail stays.
pub proof fn lemma_meal_tick_grows_by_one(pre: Game, post: Game)
    requires
        pre.wf(),
        Game::ticked(pre, post),
        pre.just_eaten,
    ensures
        post.snake.body().len() == pre.snake.body().len() + 1,
        post.snake.body().last() == pre.snake.body().last(),
        post.snake.head().0 == pre.snake.head().0 + delta(pre.snake.d).0,
        post.snake.head().1 == pre.snake.head().1 + delta(pre.snake.d).1,
{
    assert(on_grid(pre.snake.body()[0], pre.cols, pre.rows));
}

/// How many of the first `n` ticks of `trace` began with a meal pending.
pub open spec fn meals_scored(trace: Seq<Game>, n: nat) -> nat
    decreases n,
{
    if n == 0 {
        0
    } else {
        meals_scored(trace, (n - 1) as nat) + if trace[n - 1].just_eaten {
            1nat
        } else {
            0nat
        }
    }
}

/// Over a run of ticks that did not end the game, the score grows by exactly
/// the number of ticks that consumed a pending meal.
pub proof fn lemma_score_counts_meals(trace: Seq<Game>, n: nat)
    requires
        n < trace.len(),
        forall|i: int| 0 <= i < n ==> #[trigger] Game::ticked(trace[i], trace[i + 1]),
    ensures
        trace[n as int].score == trace[0].score + meals_scored(trace, n),
    decreases n,
{
    if n > 0 {
        lemma_score_counts_meals(trace, (n - 1) as nat);
        assert(Game::ticked(trace[n - 1], trace[n - 1 + 1]));
    }
}

} // verus!
