use crate::direction::Direction;
use std::collections::VecDeque;
use vstd::prelude::*;
use vstd::set_lib::{lemma_int_range, lemma_len_subset, set_int_range};

verus! {

/// One cell of the grid, as column and row.
#[derive(Clone, Copy, Debug, PartialEq, Eq, Structural)]
pub struct SnakePiece(pub u32, pub u32);

/// The cell is on the grid of `cols` columns and `rows` rows.
pub open spec fn on_grid(p: SnakePiece, cols: u32, rows: u32) -> bool {
    p.0 < cols && p.1 < rows
}

/// A move from `p` towards `d` would cross the edge of the grid.
pub open spec fn leaves_grid(p: SnakePiece, d: Direction, cols: u32, rows: u32) -> bool {
    match d {
        Direction::Up => p.1 == 0,
        Direction::Left => p.0 == 0,
        Direction::Down => p.1 + 1 == rows,
        Direction::Right => p.0 + 1 == cols,
    }
}

/// The cell next to `p` towards `d`.
pub open spec fn step(p: SnakePiece, d: Direction) -> SnakePiece {
    match d {
        Direction::Up => SnakePiece(p.0, (p.1 - 1) as u32),
        Direction::Down => SnakePiece(p.0, (p.1 + 1) as u32),
        Direction::Left => SnakePiece((p.0 - 1) as u32, p.1),
        Direction::Right => SnakePiece((p.0 + 1) as u32, p.1),
    }
}

/// The index of a cell when the grid is read row by row.
pub open spec fn cell_index(p: SnakePiece, cols: u32) -> int {
    p.1 as int * cols as int + p.0 as int
}

/// A body that covers no cell twice and stays on the grid has at most as many
/// segments as the grid has cells.
pub proof fn lemma_len_within_area(body: Seq<SnakePiece>, cols: u32, rows: u32)
    requires
        body.no_duplicates(),
        forall|i: int| 0 <= i < body.len() ==> on_grid(#[trigger] body[i], cols, rows),
    ensures
        body.len() <= cols as int * rows as int,
{
    let idx = body.map_values(|p: SnakePiece| cell_index(p, cols));
    assert forall|i: int, j: int| 0 <= i < idx.len() && 0 <= j < idx.len() && i != j implies idx[i]
        != idx[j] by {
        let a = body[i];
        let b = body[j];
        assert(on_grid(a, cols, rows) && on_grid(b, cols, rows));
        assert(a != b);
        let (xa, ya, xb, yb, c) = (a.0 as int, a.1 as int, b.0 as int, b.1 as int, cols as int);
        if ya < yb {
            assert(ya * c + xa < yb * c + xb) by (nonlinear_arith)
                requires
                    ya < yb,
                    0 <= xa < c,
                    0 <= xb,
            ;
        } else if yb < ya {
            assert(yb * c + xb < ya * c + xa) by (nonlinear_arith)
                requires
                    yb < ya,
                    0 <= xb < c,
                    0 <= xa,
            ;
        } else {
            assert(xa != xb);
        }
    }
    assert(idx.no_duplicates());
    idx.unique_seq_to_set();
    let area = cols as int * rows as int;
    assert forall|v: int| idx.to_set().contains(v) implies set_int_range(0, area).contains(v) by {
        let i = choose|i: int| 0 <= i < idx.len() && idx[i] == v;
        let p = body[i];
        assert(on_grid(p, cols, rows));
        let (x, y, c, r) = (p.0 as int, p.1 as int, cols as int, rows as int);
        assert(0 <= y * c + x < c * r) by (nonlinear_arith)
            requires
                0 <= x < c,
                0 <= y < r,
        ;
    }
    lemma_int_range(0, area);
    lemma_len_subset(idx.to_set(), set_int_range(0, area));
}

/// The snake: its body from head (front) to tail (back), the size of a cell
/// in pixels, and the direction of travel.
pub struct Snake {
    pub snake_parts: VecDeque<SnakePiece>,
    pub width: u32,
    pub d: Direction,
}

impl Snake {
    pub open spec fn body(&self) -> Seq<SnakePiece> {
        self.snake_parts@
    }

    pub open spec fn head(&self) -> SnakePiece {
        self.body()[0]
    }

    /// Some segment of the body lies on the cell `(x, y)`.
    pub open spec fn occupies(&self, x: u32, y: u32) -> bool {
        self.body().contains(SnakePiece(x, y))
    }

    /// The body is not empty, lies on the grid, and covers no cell twice.
    pub open spec fn wf(&self, cols: u32, rows: u32) -> bool {
        &&& self.body().len() > 0
        &&& self.body().no_duplicates()
        &&& forall|i: int| 0 <= i < self.body().len() ==> on_grid(#[trigger] self.body()[i], cols, rows)
    }

    /// What stays of the body behind the new head: all of it when the snake
    /// grows, all but the tail otherwise.
    pub open spec fn kept(&self, just_eaten: bool) -> Seq<SnakePiece> {
        if just_eaten {
            self.body()
        } else {
            self.body().drop_last()
        }
    }

    /// Moves the snake one cell in its direction, growing by one when
    /// `just_eaten`. Returns false when it runs into the edge of the grid or
    /// into itself.
    pub fn update(&mut self, just_eaten: bool, cols: u32, rows: u32) -> (r: bool)
        requires
            old(self).body().len() > 0,
            on_grid(old(self).head(), cols, rows),
        ensures
            final(self).d == old(self).d,
            final(self).width == old(self).width,
            leaves_grid(old(self).head(), old(self).d, cols, rows) ==> !r && final(self).body()
                == old(self).body(),
            !leaves_grid(old(self).head(), old(self).d, cols, rows) ==> {
                let new_head = step(old(self).head(), old(self).d);
                let kept = old(self).kept(just_eaten);
                &&& r == !kept.contains(new_head)
                &&& r ==> final(self).body() == seq![new_head] + kept
                &&& !r ==> final(self).body() == kept
            },
            r && old(self).wf(cols, rows) ==> final(self).wf(cols, rows),
    {
        let mut new_front: SnakePiece = self.snake_parts[0];

        if (self.d == Direction::Up && new_front.1 == 0)
            || (self.d == Direction::Left && new_front.0 == 0)
            || (self.d == Direction::Down && new_front.1 == rows - 1)
            || (self.d == Direction::Right && new_front.0 == cols - 1)
        {
            return false;
        }

        match self.d {
            Direction::Up => new_front.1 = new_front.1 - 1,
            Direction::Down => new_front.1 = new_front.1 + 1,
            Direction::Left => new_front.0 = new_front.0 - 1,
            Direction::Right => new_front.0 = new_front.0 + 1,
        }

        if !just_eaten {
            self.snake_parts.pop_back();
        }

        if self.is_collide(new_front.0, new_front.1) {
            return false;
        }

        self.snake_parts.push_front(new_front);
        proof {
            let kept = old(self).kept(just_eaten);
            if old(self).wf(cols, rows) {
                assert(kept.no_duplicates());
                assert forall|i: int| 0 <= i < self.body().len() implies on_grid(
                    #[trigger] self.body()[i],
                    cols,
                    rows,
                ) by {
                    if i > 0 {
                        assert(self.body()[i] == kept[i - 1]);
                    }
                }
                assert forall|i: int, j: int|
                    0 <= i < self.body().len() && 0 <= j < self.body().len() && i != j implies
                    self.body()[i] != self.body()[j] by {
                    if i == 0 {
                        assert(self.body()[j] == kept[j - 1]);
                    } else if j == 0 {
                        assert(self.body()[i] == kept[i - 1]);
                    }
                }
            }
        }
        true
    }

    /// Whether some segment of the body lies on the cell `(x, y)`.
    pub fn is_collide(&self, x: u32, y: u32) -> (r: bool)
        ensures
            r == self.occupies(x, y),
    {
        let n: usize = self.snake_parts.len();
        let mut i: usize = 0;
        while i < n
            invariant
                n == self.body().len(),
                i <= n,
                forall|k: int| 0 <= k < i ==> self.body()[k] != SnakePiece(x, y),
            decreases n - i,
        {
            let p = self.snake_parts[i];
            if x == p.0 && y == p.1 {
                assert(self.body()[i as int] == SnakePiece(x, y));
                return true;
            }
            i = i + 1;
        }
        false
    }

    /// The pixel position of the top left corner of each segment's square,
    /// head first, for squares `width` pixels wide.
    pub fn squares(&self) -> (r: Vec<(u64, u64)>)
        ensures
            r@.len() == self.body().len(),
            forall|i: int|
                0 <= i < r@.len() ==> #[trigger] r@[i] == (
                    (self.body()[i].0 * self.width) as u64,
                    (self.body()[i].1 * self.width) as u64,
                ),
    {
        let n: usize = self.snake_parts.len();
        let mut r: Vec<(u64, u64)> = Vec::new();
        let mut i: usize = 0;
        while i < n
            invariant
                n == self.body().len(),
                i <= n,
                r@.len() == i,
                forall|k: int|
                    0 <= k < i ==> #[trigger] r@[k] == (
                        (self.body()[k].0 * self.width) as u64,
                        (self.body()[k].1 * self.width) as u64,
                    ),
            decreases n - i,
        {
            let p = self.snake_parts[i];
            proof {
                assert(p.0 as int * self.width as int <= u32::MAX as int * u32::MAX as int) by (nonlinear_arith);
                assert(p.1 as int * self.width as int <= u32::MAX as int * u32::MAX as int) by (nonlinear_arith);
            }
            r.push((p.0 as u64 * self.width as u64, p.1 as u64 * self.width as u64));
            i = i + 1;
        }
        r
    }
}

} // verus!
