//! The aggregate root: the game world and its tick transition engine.

use vstd::prelude::*;
use vstd::string::StringExecFns;

use crate::grid::{lemma_grid_decompose, lemma_next_index_wraps, next_index, row_of, Direction};
use crate::rng::RandomSource;
use crate::snake::{cells_view, Snake, SnakeCell};

verus! {

/// The game status once the game has been started.
#[derive(Clone, Copy, Debug, PartialEq, Eq, Structural)]
pub enum GameStatus {
    Won,
    Lost,
    Played,
}

/// The mathematical state of a [`World`]: every field as a plain integer
/// value, with the snake body as the head-first sequence of its indices.
pub struct WorldView {
    pub width: int,
    pub size: int,
    pub body: Seq<int>,
    pub dir: Direction,
    pub next_cell: Option<int>,
    pub reward: Option<int>,
    pub death: Option<int>,
    pub status: Option<GameStatus>,
    pub points: int,
    pub death_elapsed: int,
    pub death_lifetime: int,
}

/// An optional index, as a mathematical integer.
pub open spec fn opt_int(o: Option<usize>) -> Option<int> {
    match o {
        Some(x) => Some(x as int),
        None => None,
    }
}

/// The game has not ended: it is either not yet started or being played.
pub open spec fn live(v: WorldView) -> bool {
    v.status is None || v.status == Some(GameStatus::Played)
}

/// Well-formedness of a world state: the grid is non-degenerate and fits the
/// machine, every placed cell lies on the grid, the death-cell timer has not
/// yet expired, and while the game has not been lost the reward and death
/// cells sit outside the snake's body.
pub open spec fn world_inv(v: WorldView) -> bool {
    &&& 1 <= v.width
    &&& v.size == v.width * v.width
    &&& v.size + v.width <= usize::MAX as int
    &&& 2 <= v.body.len() <= v.size
    &&& (forall|k: int| 0 <= k < v.body.len() ==> 0 <= #[trigger] v.body[k] < v.size)
    &&& (v.next_cell matches Some(c) ==> 0 <= c < v.size)
    &&& (v.reward matches Some(r) ==> 0 <= r < v.size)
    &&& (v.death matches Some(d) ==> 0 <= d < v.size)
    &&& (v.death is Some ==> 0 <= v.death_elapsed < v.death_lifetime && 3 <= v.death_lifetime
        <= 4)
    &&& 0 <= v.points < v.body.len()
    &&& (live(v) ==> (v.reward matches Some(r) ==> !v.body.contains(r)))
    &&& (live(v) ==> (v.death matches Some(d) ==> !v.body.contains(d)))
}

/// The human-readable text of a game status.
pub open spec fn status_text(s: Option<GameStatus>) -> Seq<char> {
    match s {
        Some(GameStatus::Won) => "You have Won!"@,
        Some(GameStatus::Lost) => "You have Lost!"@,
        Some(GameStatus::Played) => "Playing"@,
        None => "No Status!"@,
    }
}

/// The head cell the next tick will move to: the pending lookahead if a
/// direction change committed one, else one toroidal move along the
/// current heading.
pub open spec fn step_head(v: WorldView) -> int {
    match v.next_cell {
        Some(c) => c,
        None => next_index(v.width, v.body[0], v.dir),
    }
}

/// The body after the follow-the-leader shift: the new head in front, every
/// other segment taking its predecessor's place, the tail dropped.
pub open spec fn step_body(v: WorldView) -> Seq<int> {
    seq![step_head(v)] + v.body.take(v.body.len() - 1)
}

/// The move loses: the new head lands on a non-head segment of the shifted
/// body, or on the active death cell.
pub open spec fn step_lost(v: WorldView) -> bool {
    v.body.take(v.body.len() - 1).contains(step_head(v)) || v.death == Some(step_head(v))
}

/// The move consumes the reward on a full board: the game is won.
pub open spec fn step_won(v: WorldView) -> bool {
    !step_lost(v) && v.reward == Some(step_head(v)) && v.body.len() >= v.size
}

/// The move consumes the reward with room left to grow.
pub open spec fn step_grows(v: WorldView) -> bool {
    !step_lost(v) && v.reward == Some(step_head(v)) && v.body.len() < v.size
}

/// The move is plain: no collision and no reward consumed.
pub open spec fn step_quiet(v: WorldView) -> bool {
    !step_lost(v) && v.reward != Some(step_head(v))
}

/// The state after a losing move: the body has shifted, the lookahead is
/// consumed, the status is `Lost`, and nothing else changes.
pub open spec fn lost_view(v: WorldView) -> WorldView {
    WorldView { status: Some(GameStatus::Lost), body: step_body(v), next_cell: None, ..v }
}

/// The state after a winning move: the body has shifted, the reward is
/// gone, the status is `Won`, and nothing else changes.
pub open spec fn won_view(v: WorldView) -> WorldView {
    WorldView {
        status: Some(GameStatus::Won),
        body: step_body(v),
        reward: None,
        next_cell: None,
        ..v
    }
}

/// After consuming a reward with room to grow: one more tail segment
/// (duplicating the current tail; the next shift corrects it), one more
/// point, and a fresh reward off the body and off the death cell -- or no
/// reward at all, only when every cell of the grid is taken.
pub open spec fn grow_ok(v: WorldView, w: WorldView) -> bool {
    &&& w.status == Some(GameStatus::Played)
    &&& w.next_cell is None
    &&& w.points == v.points + 1
    &&& w.body == step_body(v).push(step_body(v).last())
    &&& (w.reward matches Some(nr) ==> 0 <= nr < v.size && !w.body.contains(nr) && v.death
        != Some(nr))
    &&& (w.reward is None ==> forall|c: int|
        0 <= c < v.size ==> step_body(v).contains(c) || v.death == Some(c))
}

/// After a plain move: the body has shifted and the score, the reward and
/// the status are untouched.
pub open spec fn quiet_ok(v: WorldView, w: WorldView) -> bool {
    &&& w.status == Some(GameStatus::Played)
    &&& w.next_cell is None
    &&& w.points == v.points
    &&& w.reward == v.reward
    &&& w.body == step_body(v)
}

/// The death-cell lifecycle when no hazard is active: either nothing
/// happens, or a hazard activates on a cell that is off the (possibly
/// grown) body or on the reward cell -- the placement policy deliberately
/// accepts a hazard overlapping the reward -- with a lifetime of 3 or 4
/// time units and the accumulator reset.
pub open spec fn death_idle_ok(v: WorldView, w: WorldView) -> bool {
    ||| (w.death is None && w.death_elapsed == v.death_elapsed && w.death_lifetime
        == v.death_lifetime)
    ||| (w.death matches Some(d) && 0 <= d < v.size && (!w.body.contains(d) || w.reward
        == Some(d)) && w.death_elapsed == 0 && 3 <= w.death_lifetime <= 4)
}

/// The death-cell lifecycle while a hazard is active: the elapsed time
/// accumulates across ticks, and the hazard expires exactly when the
/// accumulated time reaches its lifetime, however the time was distributed.
pub open spec fn death_tick_ok(v: WorldView, w: WorldView, e: int) -> bool {
    if v.death_elapsed + e >= v.death_lifetime {
        w.death is None && w.death_elapsed == 0 && w.death_lifetime == v.death_lifetime
    } else {
        w.death == v.death && w.death_elapsed == v.death_elapsed + e && w.death_lifetime
            == v.death_lifetime
    }
}

/// The death-cell phase of a tick that is still being played.
pub open spec fn death_phase_ok(v: WorldView, w: WorldView, e: int) -> bool {
    if v.death is None {
        death_idle_ok(v, w)
    } else {
        death_tick_ok(v, w, e)
    }
}

/// The full tick transition from `v` to `w` under `e` elapsed time units,
/// for a world being played.  Strictly ordered: shift, collision check,
/// reward check, death-cell lifecycle; a tick that ends the game stops
/// mutating at once.
pub open spec fn step_transition(v: WorldView, w: WorldView, e: int) -> bool {
    &&& w.width == v.width
    &&& w.size == v.size
    &&& w.dir == v.dir
    &&& (step_lost(v) ==> w == lost_view(v))
    &&& (step_won(v) ==> w == won_view(v))
    &&& (step_grows(v) ==> grow_ok(v, w) && death_phase_ok(v, w, e))
    &&& (step_quiet(v) ==> quiet_ok(v, w) && death_phase_ok(v, w, e))
}

/// Growth law: a tick that consumes the reward with room to grow lengthens
/// the snake by exactly one segment, scores exactly one point, and any
/// reward it places sits off the whole new body.
pub proof fn lemma_growth(v: WorldView, w: WorldView, e: int)
    requires
        world_inv(v),
        step_transition(v, w, e),
        step_grows(v),
    ensures
        w.body.len() == v.body.len() + 1,
        w.points == v.points + 1,
        (w.reward matches Some(nr) ==> !w.body.contains(nr)),
{
}

/// Win law: a tick that consumes the reward on a full board wins the game
/// and removes the reward, scoring nothing further.
pub proof fn lemma_win(v: WorldView, w: WorldView, e: int)
    requires
        world_inv(v),
        step_transition(v, w, e),
        step_won(v),
    ensures
        w.status == Some(GameStatus::Won),
        w.reward is None,
        w.points == v.points,
        w.body.len() == v.body.len(),
{
}

/// Loss law: a tick whose new head lands on a non-head body segment or on
/// the death cell loses the game and touches neither score, reward, death
/// cell nor timer.
pub proof fn lemma_loss(v: WorldView, w: WorldView, e: int)
    requires
        world_inv(v),
        step_transition(v, w, e),
        step_lost(v),
    ensures
        w.status == Some(GameStatus::Lost),
        w.points == v.points,
        w.reward == v.reward,
        w.death == v.death,
        w.death_elapsed == v.death_elapsed,
        w.body.len() == v.body.len(),
{
}

/// Death-cell lifetime law: an active hazard expires exactly when the
/// accumulated elapsed time reaches its lifetime, however that time is
/// split across ticks -- two ticks of `e1` and `e2` units expire it
/// precisely when a single tick of `e1 + e2` units would.
pub proof fn lemma_death_cell_accumulates(
    v: WorldView,
    w1: WorldView,
    w2: WorldView,
    e1: int,
    e2: int,
)
    requires
        0 <= e1,
        0 <= e2,
        v.death is Some,
        death_tick_ok(v, w1, e1),
        w1.death is Some ==> death_tick_ok(w1, w2, e2),
    ensures
        v.death_elapsed + e1 >= v.death_lifetime ==> w1.death is None,
        v.death_elapsed + e1 < v.death_lifetime ==> (w2.death is None <==> v.death_elapsed + e1
            + e2 >= v.death_lifetime),
{
}

/// One-way status law: a tick of a game being played leaves it played, won
/// or lost; it never unsets the status.  (Ticks of a game not being played
/// change nothing at all, by `step`'s contract.)
pub proof fn lemma_status_one_way(v: WorldView, w: WorldView, e: int)
    requires
        world_inv(v),
        step_transition(v, w, e),
        v.status == Some(GameStatus::Played),
    ensures
        w.status == Some(GameStatus::Played) || w.status == Some(GameStatus::Won) || w.status
            == Some(GameStatus::Lost),
{
}

/// The world: a toroidal `width x width` grid, the snake, the optional
/// reward and death cells, the pending direction-change lookahead, the score
/// and the death-cell lifetime accumulator.
pub struct World {
    width: usize,
    size: usize,
    snake: Snake,
    next_cell: Option<SnakeCell>,
    reward_cell: Option<usize>,
    death_cell: Option<usize>,
    status: Option<GameStatus>,
    points: usize,
    death_cell_elapsed: u64,
    death_cell_lifetime: u64,
}

impl View for World {
    type V = WorldView;

    closed spec fn view(&self) -> WorldView {
        WorldView {
            width: self.width as int,
            size: self.size as int,
            body: cells_view(self.snake.body@),
            dir: self.snake.direction,
            next_cell: match self.next_cell {
                Some(c) => Some(c.0 as int),
                None => None,
            },
            reward: opt_int(self.reward_cell),
            death: opt_int(self.death_cell),
            status: self.status,
            points: self.points as int,
            death_elapsed: self.death_cell_elapsed as int,
            death_lifetime: self.death_cell_lifetime as int,
        }
    }
}

impl World {
    /// The world is well formed.
    pub open spec fn wf(&self) -> bool {
        world_inv(self@)
    }

    /// Builds a world with a snake of `snake_size` segments whose head sits
    /// at `spawn_index`, heading `Right`, one reward cell placed by the
    /// random source, no death cell, and the game not yet started.
    pub fn new<R: RandomSource>(
        width: usize,
        spawn_index: usize,
        snake_size: usize,
        rng: &mut R,
    ) -> (w: World)
        requires
            1 <= width,
            (width as int) * (width as int) + (width as int) <= usize::MAX as int,
            2 <= snake_size,
            (snake_size as int) < (width as int) * (width as int),
            (spawn_index as int) < (width as int) * (width as int),
            snake_size <= spawn_index + 1,
        ensures
            w.wf(),
            w@.width == width,
            w@.size == (width as int) * (width as int),
            w@.body.len() == snake_size,
            forall|k: int| 0 <= k < snake_size ==> w@.body[k] == spawn_index - k,
            w@.dir == Direction::Right,
            w@.status is None,
            w@.points == 0,
            w@.death is None,
            w@.next_cell is None,
            w@.reward is Some,
            (w@.reward matches Some(r) ==> 0 <= r < w@.size && !w@.body.contains(r)),
    {
        let size = width * width;
        let snake = Snake::new(spawn_index, snake_size);
        let reward_cell = Self::gen_reward_cell(rng, &snake.body, None, size);
        proof {
            if reward_cell is None {
                // a free cell always exists: either the cell right of the
                // head, or cell 0 when the head sits on the last index
                if spawn_index + 1 < size {
                    assert(cells_view(snake.body@).contains(spawn_index + 1));
                    let k = choose|k: int|
                        0 <= k < snake_size && cells_view(snake.body@)[k] == spawn_index + 1;
                    assert(false);
                } else {
                    assert(cells_view(snake.body@).contains(0));
                    let k = choose|k: int|
                        0 <= k < snake_size && cells_view(snake.body@)[k] == 0;
                    assert(false);
                }
            }
        }
        World {
            width,
            size,
            snake,
            next_cell: None,
            reward_cell,
            death_cell: None,
            status: None,
            points: 0,
            death_cell_elapsed: 0,
            death_cell_lifetime: 0,
        }
    }

    /// Draws candidate cells until one avoids the snake body and the death
    /// cell; after too many failed draws, falls back to a deterministic scan.
    /// `None` only when no cell of the grid qualifies.
    fn gen_reward_cell<R: RandomSource>(
        rng: &mut R,
        snake_body: &Vec<SnakeCell>,
        death_cell: Option<usize>,
        max: usize,
    ) -> (r: Option<usize>)
        requires
            max >= 1,
        ensures
            (r matches Some(c) ==> c < max && !cells_view(snake_body@).contains(c as int)
                && death_cell != Some(c)),
            (r is None ==> forall|c: int|
                0 <= c < max ==> cells_view(snake_body@).contains(c) || opt_int(death_cell)
                    == Some(c)),
    {
        let mut attempts: usize = max;
        while attempts > 0
            invariant
                max >= 1,
            decreases attempts,
        {
            let candidate = rng.rnd(max);
            let on_death = match death_cell {
                Some(d) => d == candidate,
                None => false,
            };
            if !Self::contains_cell(snake_body, candidate) && !on_death {
                return Some(candidate);
            }
            attempts = attempts - 1;
        }
        let mut c: usize = 0;
        while c < max
            invariant
                c <= max,
                forall|j: int|
                    0 <= j < c ==> cells_view(snake_body@).contains(j) || opt_int(death_cell)
                        == Some(j),
            decreases max - c,
        {
            let on_death = match death_cell {
                Some(d) => d == c,
                None => false,
            };
            if !Self::contains_cell(snake_body, c) && !on_death {
                return Some(c);
            }
            c = c + 1;
        }
        None
    }

    /// Whether the body holds a segment at index `idx`.
    fn contains_cell(body: &Vec<SnakeCell>, idx: usize) -> (r: bool)
        ensures
            r == cells_view(body@).contains(idx as int),
    {
        let mut i: usize = 0;
        while i < body.len()
            invariant
                i <= body@.len(),
                forall|j: int| 0 <= j < i ==> body@[j].0 != idx,
            decreases body@.len() - i,
        {
            if body[i].0 == idx {
                proof {
                    assert(cells_view(body@)[i as int] == idx as int);
                }
                return true;
            }
            i = i + 1;
        }
        proof {
            if cells_view(body@).contains(idx as int) {
                let j = choose|j: int|
                    0 <= j < body@.len() && cells_view(body@)[j] == idx as int;
                assert(body@[j].0 != idx);
                assert(false);
            }
        }
        false
    }

    /// The score: one point per reward consumed.
    pub fn points(&self) -> (r: usize)
        ensures
            r as int == self@.points,
    {
        self.points
    }

    /// The grid's side length.
    pub fn width(&self) -> (r: usize)
        ensures
            r as int == self@.width,
    {
        self.width
    }

    /// The current reward cell, if one is placed.
    pub fn reward_cell(&self) -> (r: Option<usize>)
        ensures
            opt_int(r) == self@.reward,
    {
        self.reward_cell
    }

    /// The current death cell, if one is active.
    pub fn death_cell(&self) -> (r: Option<usize>)
        ensures
            opt_int(r) == self@.death,
    {
        self.death_cell
    }

    /// The grid index of the snake's head.
    pub fn snake_head_index(&self) -> (r: usize)
        requires
            self.wf(),
        ensures
            r as int == self@.body[0],
    {
        proof {
            assert(cells_view(self.snake.body@)[0] == self.snake.body@[0].0 as int);
        }
        self.snake.body[0].0
    }

    /// The number of body segments.
    pub fn snake_length(&self) -> (r: usize)
        ensures
            r as int == self@.body.len(),
    {
        self.snake.body.len()
    }

    /// A read-only view of the snake's body, head first.
    pub fn snake_cells(&self) -> (r: &Vec<SnakeCell>)
        ensures
            cells_view(r@) == self@.body,
    {
        &self.snake.body
    }

    /// Starts (or resumes) play.  The game must not have ended: `Won` and
    /// `Lost` are terminal.
    pub fn start_game(&mut self)
        requires
            old(self).wf(),
            old(self)@.status is None || old(self)@.status == Some(GameStatus::Played),
        ensures
            final(self).wf(),
            final(self)@ == (WorldView { status: Some(GameStatus::Played), ..old(self)@ }),
    {
        self.status = Some(GameStatus::Played);
    }

    /// The raw game status; unset before `start_game`.
    pub fn game_status(&self) -> (r: Option<GameStatus>)
        ensures
            r == self@.status,
    {
        self.status
    }

    /// The game status as display text.
    pub fn game_status_text(&self) -> (r: String)
        ensures
            r@ == status_text(self@.status),
    {
        match self.status {
            Some(GameStatus::Won) => String::from_str("You have Won!"),
            Some(GameStatus::Lost) => String::from_str("You have Lost!"),
            Some(GameStatus::Played) => String::from_str("Playing"),
            None => String::from_str("No Status!"),
        }
    }

    /// The cell the head would move to in direction `direction`, by the
    /// toroidal stepping arithmetic.  Pure: the world is not changed.
    pub fn gen_next_snake_cell(&self, direction: &Direction) -> (r: SnakeCell)
        requires
            self.wf(),
        ensures
            r.0 as int == next_index(self@.width, self@.body[0], *direction),
            (r.0 as int) < self@.size,
    {
        proof {
            assert(cells_view(self.snake.body@)[0] == self.snake.body@[0].0 as int);
        }
        let snake_idx = self.snake.body[0].0;
        let row = snake_idx / self.width;
        let col = snake_idx % self.width;
        proof {
            let w = self@.width;
            let idx0 = self@.body[0];
            lemma_grid_decompose(w, idx0);
            lemma_next_index_wraps(w, idx0, *direction);
            assert(row_of(w, idx0) * w + w <= w * w) by (nonlinear_arith)
                requires
                    0 <= row_of(w, idx0) < w,
                    w >= 1,
            ;
            assert((w - 1) * w + w == w * w) by (nonlinear_arith);
            assert(row_of(w, idx0) >= 1 ==> row_of(w, idx0) * w >= w) by (nonlinear_arith)
                requires
                    w >= 1,
            ;
        }
        match direction {
            Direction::Right => {
                if col + 1 == self.width {
                    SnakeCell(row * self.width)
                } else {
                    SnakeCell(snake_idx + 1)
                }
            },
            Direction::Left => {
                if col == 0 {
                    SnakeCell(row * self.width + (self.width - 1))
                } else {
                    SnakeCell(snake_idx - 1)
                }
            },
            Direction::Up => {
                if row == 0 {
                    SnakeCell((self.width - 1) * self.width + col)
                } else {
                    SnakeCell(snake_idx - self.width)
                }
            },
            Direction::Down => {
                if row + 1 == self.width {
                    SnakeCell(col)
                } else {
                    SnakeCell(snake_idx + self.width)
                }
            },
        }
    }

    /// Commits a direction change: if moving `direction` would step straight
    /// into the second body segment (an immediate reversal), the request is
    /// silently discarded; otherwise the computed cell becomes the lookahead
    /// for the next tick and the heading is updated at once.
    pub fn change_snake_dir(&mut self, direction: Direction)
        requires
            old(self).wf(),
        ensures
            final(self).wf(),
            ({
                let cand = next_index(old(self)@.width, old(self)@.body[0], direction);
                if cand == old(self)@.body[1] {
                    *final(self) == *old(self)
                } else {
                    final(self)@ == (WorldView {
                        dir: direction,
                        next_cell: Some(cand),
                        ..old(self)@
                    })
                }
            }),
    {
        let next_cell = self.gen_next_snake_cell(&direction);
        proof {
            assert(cells_view(self.snake.body@)[1] == self.snake.body@[1].0 as int);
        }
        if self.snake.body[1].0 == next_cell.0 {
            return;
        }
        self.next_cell = Some(next_cell);
        self.snake.direction = direction;
    }

    /// The follow-the-leader shift: `new_head` in front, each further
    /// segment taking its predecessor's place; same length, tail dropped.
    fn advance_body(body: &Vec<SnakeCell>, new_head: SnakeCell) -> (r: Vec<SnakeCell>)
        requires
            body@.len() >= 1,
        ensures
            r@.len() == body@.len(),
            cells_view(r@) == seq![new_head.0 as int] + cells_view(body@).take(
                body@.len() - 1,
            ),
    {
        let mut r: Vec<SnakeCell> = Vec::new();
        r.push(new_head);
        let mut i: usize = 1;
        while i < body.len()
            invariant
                1 <= i <= body@.len(),
                r@.len() == i,
                r@[0] == new_head,
                forall|k: int| 1 <= k < i ==> r@[k] == body@[k - 1],
            decreases body@.len() - i,
        {
            let prev = body[i - 1];
            r.push(prev);
            i = i + 1;
        }
        proof {
            let rhs = seq![new_head.0 as int] + cells_view(body@).take(body@.len() - 1);
            assert forall|k: int| 0 <= k < r@.len() implies cells_view(r@)[k] == rhs[k] by {
                if k == 0 {
                    assert(cells_view(r@)[0] == r@[0].0 as int);
                } else {
                    assert(r@[k] == body@[k - 1]);
                    assert(cells_view(r@)[k] == r@[k].0 as int);
                    assert(cells_view(body@).take(body@.len() - 1)[k - 1] == body@[k - 1].0
                        as int);
                }
            }
            assert(cells_view(r@) =~= rhs);
        }
        r
    }

    /// Whether `head` equals one of the non-head segments of `body`.
    fn hits_tail(body: &Vec<SnakeCell>, head: usize) -> (r: bool)
        requires
            body@.len() >= 1,
        ensures
            r == exists|j: int| 1 <= j < body@.len() && body@[j].0 == head,
    {
        let mut i: usize = 1;
        while i < body.len()
            invariant
                1 <= i <= body@.len(),
                forall|j: int| 1 <= j < i ==> body@[j].0 != head,
            decreases body@.len() - i,
        {
            if body[i].0 == head {
                return true;
            }
            i = i + 1;
        }
        false
    }

    /// Draws candidate cells until one is off the snake body or on the
    /// reward cell (the placement policy accepts a hazard overlapping the
    /// reward); after too many failed draws, falls back to a deterministic
    /// scan.  `None` only when no cell of the grid qualifies.
    fn gen_death_cell<R: RandomSource>(
        rng: &mut R,
        snake_body: &Vec<SnakeCell>,
        reward_cell: Option<usize>,
        max: usize,
    ) -> (r: Option<usize>)
        requires
            max >= 1,
        ensures
            (r matches Some(c) ==> c < max && (!cells_view(snake_body@).contains(c as int)
                || reward_cell == Some(c))),
            (r is None ==> forall|c: int|
                0 <= c < max ==> cells_view(snake_body@).contains(c) && opt_int(reward_cell)
                    != Some(c)),
    {
        let mut attempts: usize = max;
        while attempts > 0
            invariant
                max >= 1,
            decreases attempts,
        {
            let candidate = rng.rnd(max);
            let on_reward = match reward_cell {
                Some(rc) => rc == candidate,
                None => false,
            };
            if !Self::contains_cell(snake_body, candidate) || on_reward {
                return Some(candidate);
            }
            attempts = attempts - 1;
        }
        let mut c: usize = 0;
        while c < max
            invariant
                c <= max,
                forall|j: int|
                    0 <= j < c ==> cells_view(snake_body@).contains(j) && opt_int(reward_cell)
                        != Some(j),
            decreases max - c,
        {
            let on_reward = match reward_cell {
                Some(rc) => rc == c,
                None => false,
            };
            if !Self::contains_cell(snake_body, c) || on_reward {
                return Some(c);
            }
            proof {
                assert forall|j: int|
                    0 <= j < c + 1 implies cells_view(snake_body@).contains(j) && opt_int(
                    reward_cell,
                ) != Some(j) by {
                    if j == c {
                        assert(cells_view(snake_body@).contains(c as int));
                        assert(opt_int(reward_cell) != Some(c as int));
                    } else {
                        assert(cells_view(snake_body@).contains(j));
                        assert(opt_int(reward_cell) != Some(j));
                    }
                }
            }
            c = c + 1;
        }
        None
    }

    /// Advances the world by one tick, `elapsed_units` time units after the
    /// previous one.  A no-op unless the game is being played; otherwise the
    /// snake moves one cell (through the lookahead if one is pending), a
    /// collision with the body or the death cell loses the game, landing on
    /// the reward grows the snake and scores -- or wins, on a full board --
    /// and the death-cell lifecycle advances.
    pub fn step<R: RandomSource>(&mut self, rng: &mut R, elapsed_units: u64)
        requires
            old(self).wf(),
        ensures
            final(self).wf(),
            old(self)@.status != Some(GameStatus::Played) ==> *final(self) == *old(self),
            old(self)@.status == Some(GameStatus::Played) ==> step_transition(
                old(self)@,
                final(self)@,
                elapsed_units as int,
            ),
    {
        match self.status {
            Some(GameStatus::Played) => {},
            _ => {
                return;
            },
        }
        let ghost v = old(self)@;
        let new_head: SnakeCell;
        match self.next_cell {
            Some(c) => {
                new_head = c;
                self.next_cell = None;
            },
            None => {
                new_head = self.gen_next_snake_cell(&self.snake.direction);
            },
        }
        proof {
            assert(new_head.0 as int == step_head(v));
            assert(0 <= step_head(v) < v.size);
        }
        let shifted = Self::advance_body(&self.snake.body, new_head);
        self.snake.body = shifted;
        proof {
            assert(self@.body == step_body(v));
            assert(step_body(v).len() == v.body.len());
            assert forall|k: int| 0 <= k < step_body(v).len() implies 0 <= #[trigger] step_body(
                v,
            )[k] < v.size by {
                if k > 0 {
                    assert(step_body(v)[k] == v.body.take(v.body.len() - 1)[k - 1]);
                    assert(v.body[k - 1] < v.size);
                }
            }
        }
        let head_idx = new_head.0;
        let tail_hit = Self::hits_tail(&self.snake.body, head_idx);
        let death_hit = match self.death_cell {
            Some(d) => d == head_idx,
            None => false,
        };
        proof {
            let len0 = v.body.len();
            if tail_hit {
                let j = choose|j: int|
                    1 <= j < self.snake.body@.len() && self.snake.body@[j].0 == head_idx;
                assert(self@.body[j] == self.snake.body@[j].0 as int);
                assert(v.body.take(len0 - 1)[j - 1] == step_head(v));
            } else if v.body.take(len0 - 1).contains(step_head(v)) {
                let j = choose|j: int|
                    0 <= j < v.body.take(len0 - 1).len() && (#[trigger] v.body.take(
                        len0 - 1,
                    )[j]) == step_head(v);
                assert(self@.body[j + 1] == step_head(v));
                assert(self@.body[j + 1] == self.snake.body@[j + 1].0 as int);
                assert(false);
            }
            assert(death_hit == (v.death == Some(step_head(v))));
            assert((tail_hit || death_hit) == step_lost(v));
        }
        if tail_hit || death_hit {
            self.status = Some(GameStatus::Lost);
            proof {
                assert(self@ == lost_view(v));
            }
            return;
        }
        let reward_hit = match self.reward_cell {
            Some(rc) => rc == head_idx,
            None => false,
        };
        proof {
            assert(reward_hit == (v.reward == Some(step_head(v))));
            // the shifted body keeps the old exclusions: the reward and the
            // death cell sit off it unless the head itself landed on them
            assert forall|x: int|
                step_body(v).contains(x) implies x == step_head(v) || v.body.take(
                v.body.len() - 1,
            ).contains(x) by {
                let j = choose|j: int|
                    0 <= j < step_body(v).len() && step_body(v)[j] == x;
                if j > 0 {
                    assert(v.body.take(v.body.len() - 1)[j - 1] == x);
                }
            }
            assert forall|x: int|
                v.body.take(v.body.len() - 1).contains(x) implies v.body.contains(x) by {
                let j = choose|j: int|
                    0 <= j < v.body.take(v.body.len() - 1).len() && (#[trigger] v.body.take(
                        v.body.len() - 1,
                    )[j]) == x;
                assert(v.body[j] == x);
            }
        }
        if reward_hit {
            if self.snake.body.len() < self.size {
                let fresh = Self::gen_reward_cell(rng, &self.snake.body, self.death_cell,
                    self.size);
                self.reward_cell = fresh;
                let tail = self.snake.body[self.snake.body.len() - 1];
                self.snake.body.push(tail);
                self.points = self.points + 1;
                proof {
                    assert(self@.body =~= step_body(v).push(step_body(v).last()));
                    assert forall|x: int|
                        self@.body.contains(x) implies step_body(v).contains(x) by {
                        let j = choose|j: int|
                            0 <= j < self@.body.len() && self@.body[j] == x;
                        if j < self@.body.len() - 1 {
                            assert(step_body(v)[j] == x);
                        } else {
                            assert(step_body(v)[step_body(v).len() - 1] == x);
                        }
                    }
                }
            } else {
                self.reward_cell = None;
                self.status = Some(GameStatus::Won);
                proof {
                    assert(self@ == won_view(v));
                }
                return;
            }
        }
        proof {
            assert(step_grows(v) ==> grow_ok(v, self@));
            assert(step_quiet(v) ==> quiet_ok(v, self@));
        }
        match self.death_cell {
            None => {
                let trial = rng.rnd(40);
                if trial == 1 {
                    let placed = Self::gen_death_cell(rng, &self.snake.body, self.reward_cell,
                        self.size);
                    match placed {
                        Some(d) => {
                            self.death_cell = Some(d);
                            let extra = rng.rnd(2);
                            self.death_cell_lifetime = (extra as u64) + 3;
                            self.death_cell_elapsed = 0;
                        },
                        None => {},
                    }
                }
            },
            Some(_) => {
                let remaining = self.death_cell_lifetime - self.death_cell_elapsed;
                if elapsed_units >= remaining {
                    self.death_cell = None;
                    self.death_cell_elapsed = 0;
                } else {
                    self.death_cell_elapsed = self.death_cell_elapsed + elapsed_units;
                }
            },
        }
        proof {
            assert(death_phase_ok(v, self@, elapsed_units as int));
            assert(step_grows(v) ==> grow_ok(v, self@));
            assert(step_quiet(v) ==> quiet_ok(v, self@));
            assert(world_inv(self@));
        }
    }
}

} // verus!
