//! The snake: an ordered body of grid cells plus its current heading.

use vstd::prelude::*;

use crate::grid::Direction;

verus! {

/// One segment of the snake's body, wrapping a linear grid index.
/// Equality is by index value.
#[derive(Clone, Copy, Debug, PartialEq, Eq, Structural)]
pub struct SnakeCell(pub usize);

/// The indices held by a body sequence, as mathematical integers.
pub open spec fn cells_view(body: Seq<SnakeCell>) -> Seq<int> {
    body.map_values(|c: SnakeCell| c.0 as int)
}

/// The snake's body, head first, and its last committed heading.
pub(crate) struct Snake {
    pub(crate) body: Vec<SnakeCell>,
    pub(crate) direction: Direction,
}

impl Snake {
    /// Builds a snake of `size` segments at decreasing indices
    /// `spawn_index, spawn_index - 1, ...`, heading `Right`.
    pub(crate) fn new(spawn_index: usize, size: usize) -> (s: Snake)
        requires
            1 <= size,
            size <= spawn_index + 1,
        ensures
            s.body@.len() == size,
            forall|k: int|
                0 <= k < size ==> cells_view(s.body@)[k] == spawn_index - k,
            s.direction == Direction::Right,
    {
        let mut body: Vec<SnakeCell> = Vec::new();
        let mut i: usize = 0;
        while i < size
            invariant
                i <= size,
                size <= spawn_index + 1,
                body@.len() == i,
                forall|k: int| 0 <= k < i ==> body@[k].0 == spawn_index - k,
            decreases size - i,
        {
            body.push(SnakeCell(spawn_index - i));
            i = i + 1;
        }
        proof {
            assert forall|k: int| 0 <= k < size implies cells_view(body@)[k] == spawn_index - k by {
                assert(body@[k].0 == spawn_index - k);
            }
        }
        Snake { body, direction: Direction::Right }
    }
}

} // verus!
