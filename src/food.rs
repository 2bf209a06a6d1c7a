use crate::snake::Snake;
use vstd::prelude::*;

verus! {

/// The food: a single cell of the grid.
#[derive(Clone, Copy, Debug, PartialEq, Eq, Structural)]
pub struct Food {
    pub x: u32,
    pub y: u32,
}

impl Food {
    /// Whether the snake's head lies on the food.
    pub fn update(&mut self, s: &Snake) -> (r: bool)
        requires
            s.body().len() > 0,
        ensures
            *final(self) == *old(self),
            r == (s.head().0 == old(self).x && s.head().1 == old(self).y),
    {
        let front = s.snake_parts[0];
        front.0 == self.x && front.1 == self.y
    }

    /// The pixel position of the top left corner of the food's square, for
    /// squares `width` pixels wide.
    pub fn square(&self, width: u32) -> (r: (u64, u64))
        ensures
            r == ((self.x * width) as u64, (self.y * width) as u64),
    {
        proof {
            assert(self.x as int * width as int <= u32::MAX as int * u32::MAX as int) by (nonlinear_arith);
            assert(self.y as int * width as int <= u32::MAX as int * u32::MAX as int) by (nonlinear_arith);
        }
        (self.x as u64 * width as u64, self.y as u64 * width as u64)
    }
}

} // verus!
