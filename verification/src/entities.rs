//! The moving entities of the game: the snake and its food.
//!
//! Coordinates are grid-quantized: every position is a multiple of the
//! cell size, held as a pair of signed integers so that a move off the
//! left or top edge of the board is representable (and detectable).

use vstd::prelude::*;

use rand::Rng;

use crate::enums::Direction;
use crate::enums::spec_is_opposite;

verus! {

use vstd::arithmetic::div_mod::lemma_fundamental_div_mod;
use vstd::arithmetic::div_mod::lemma_mod_bound;

/// One grid-aligned cell: an (x, y) coordinate pair, copied by value.
#[derive(Clone, Copy, Debug)]
pub struct Block {
    pub position: (i64, i64),
}

/// Height in units of the header bar reserved at the top of the screen;
/// the playing field starts below it.
pub const HEADER_MARGIN: i64 = 50;

/// Ideal (unbounded) coordinates of a cell after one move of `size`
/// units from `pos` in direction `dir`; y grows downward.
pub open spec fn spec_moved(pos: (i64, i64), dir: Direction, size: int) -> (int, int) {
    match dir {
        Direction::Down => (pos.0 as int, pos.1 + size),
        Direction::Up => (pos.0 as int, pos.1 - size),
        Direction::Left => (pos.0 - size, pos.1 as int),
        Direction::Right => (pos.0 + size, pos.1 as int),
    }
}

/// Whether a head at `pos` lies outside the playable field of a screen
/// `screen.0` units wide and `screen.1` units high, for a snake of cell
/// size `size`: off the left or right edge, inside the reserved header
/// band, or at or past the bottom edge.
pub open spec fn spec_out_of_bounds(pos: (i64, i64), screen: (i64, i64), size: int) -> bool {
    pos.0 < 0 || pos.0 > screen.0 - size || pos.1 < HEADER_MARGIN || pos.1 >= screen.1
}

/// The snake: an authoritative head cell, the trailing body cells in
/// order from neck to tail, the current heading, the cell size, and a
/// sticky death flag.
pub struct Snake {
    head: Block,
    body: Vec<Block>,
    pub direction: Direction,
    size: i64,
    pub is_dead: bool,
}

impl Snake {
    /// The cell the head occupies.
    pub closed spec fn spec_head(&self) -> Block {
        self.head
    }

    /// The trailing cells, neck first.
    pub closed spec fn spec_body(&self) -> Seq<Block> {
        self.body@
    }

    /// The edge length of one grid cell.
    pub closed spec fn spec_size(&self) -> int {
        self.size as int
    }

    /// The current heading.
    pub closed spec fn spec_direction(&self) -> Direction {
        self.direction
    }

    /// Whether the snake has died.
    pub closed spec fn spec_dead(&self) -> bool {
        self.is_dead
    }

    /// Whether the snake's head or any body segment sits on `pos`.
    pub open spec fn spec_occupies(&self, pos: (i64, i64)) -> bool {
        self.spec_head().position == pos
            || exists|k: int|
                0 <= k < self.spec_body().len() && self.spec_body()[k].position == pos
    }

    /// The body after one locomotion step: the first segment takes the
    /// old head cell and every later segment takes its predecessor's
    /// old cell, so the tail cell is vacated.
    pub open spec fn spec_body_after_move(&self) -> Seq<Block> {
        if self.spec_body().len() > 0 {
            seq![self.spec_head()] + self.spec_body().drop_last()
        } else {
            self.spec_body()
        }
    }

    /// Whether the head currently sits on one of its own body segments.
    pub open spec fn spec_hits_body(&self) -> bool {
        exists|k: int|
            0 <= k < self.spec_body().len() && self.spec_body()[k].position
                == self.spec_head().position
    }

    /// Moves the head one grid cell in the current direction, then
    /// shifts the body so each segment follows its predecessor with a
    /// one-tick lag. Performs no bounds checking: that is
    /// `check_state`'s job.
    pub fn update(&mut self)
        requires
            i64::MIN <= spec_moved(
                old(self).spec_head().position,
                old(self).spec_direction(),
                old(self).spec_size(),
            ).0 <= i64::MAX,
            i64::MIN <= spec_moved(
                old(self).spec_head().position,
                old(self).spec_direction(),
                old(self).spec_size(),
            ).1 <= i64::MAX,
        ensures
            final(self).spec_head().position.0 == spec_moved(
                old(self).spec_head().position,
                old(self).spec_direction(),
                old(self).spec_size(),
            ).0,
            final(self).spec_head().position.1 == spec_moved(
                old(self).spec_head().position,
                old(self).spec_direction(),
                old(self).spec_size(),
            ).1,
            final(self).spec_body() == old(self).spec_body_after_move(),
            final(self).spec_body().len() == old(self).spec_body().len(),
            old(self).spec_body().len() > 0 ==> final(self).spec_body()[0] == old(
                self,
            ).spec_head(),
            forall|i: int|
                1 <= i < old(self).spec_body().len() ==> final(self).spec_body()[i] == old(
                    self,
                ).spec_body()[i - 1],
            final(self).spec_direction() == old(self).spec_direction(),
            final(self).spec_size() == old(self).spec_size(),
            final(self).spec_dead() == old(self).spec_dead(),
    {
        let head_pos = self.head.position;
        match self.direction {
            Direction::Down => {
                self.head.position = (head_pos.0, head_pos.1 + self.size);
            },
            Direction::Up => {
                self.head.position = (head_pos.0, head_pos.1 - self.size);
            },
            Direction::Left => {
                self.head.position = (head_pos.0 - self.size, head_pos.1);
            },
            Direction::Right => {
                self.head.position = (head_pos.0 + self.size, head_pos.1);
            },
        }
        if self.body.len() > 0 {
            self.body.insert(0, Block { position: head_pos });
            self.body.pop();
            assert(self.body@ =~= old(self).spec_body_after_move());
        }
    }

    /// Sets the sticky death flag if the head has left the playable
    /// field or has run into the body; never clears it.
    pub fn check_state(&mut self, screen_size: &(i64, i64))
        requires
            i64::MIN <= screen_size.0 - old(self).spec_size() <= i64::MAX,
        ensures
            final(self).spec_dead() == (old(self).spec_dead() || spec_out_of_bounds(
                old(self).spec_head().position,
                *screen_size,
                old(self).spec_size(),
            ) || old(self).spec_hits_body()),
            old(self).spec_dead() ==> final(self).spec_dead(),
            final(self).spec_head() == old(self).spec_head(),
            final(self).spec_body() == old(self).spec_body(),
            final(self).spec_direction() == old(self).spec_direction(),
            final(self).spec_size() == old(self).spec_size(),
    {
        let (x, y) = self.head.position;
        let (screen_w, screen_h) = *screen_size;
        if x < 0 || x > screen_w - self.size || y < HEADER_MARGIN || y >= screen_h {
            self.is_dead = true;
        }
        let mut hit = false;
        let mut i: usize = 0;
        while i < self.body.len()
            invariant
                i <= self.body@.len(),
                self.head == old(self).spec_head(),
                self.body@ == old(self).spec_body(),
                self.direction == old(self).spec_direction(),
                self.size as int == old(self).spec_size(),
                self.is_dead == (old(self).spec_dead() || spec_out_of_bounds(
                    old(self).spec_head().position,
                    *screen_size,
                    old(self).spec_size(),
                )),
                hit == exists|k: int|
                    0 <= k < i && self.body@[k].position == self.head.position,
            decreases self.body@.len() - i,
        {
            let b = self.body[i];
            if b.position.0 == self.head.position.0 && b.position.1 == self.head.position.1 {
                hit = true;
            }
            i = i + 1;
        }
        if hit {
            self.is_dead = true;
        }
    }

    /// Force-relocates the head and every body segment to `position`,
    /// re-centering the snake at a controlled spawn point.
    pub fn set_start_pos(&mut self, position: (i64, i64))
        ensures
            final(self).spec_head().position == position,
            final(self).spec_body().len() == old(self).spec_body().len(),
            forall|i: int|
                0 <= i < final(self).spec_body().len() ==> final(self).spec_body()[i].position
                    == position,
            final(self).spec_direction() == old(self).spec_direction(),
            final(self).spec_size() == old(self).spec_size(),
            final(self).spec_dead() == old(self).spec_dead(),
    {
        self.head.position = position;
        let mut i: usize = 0;
        while i < self.body.len()
            invariant
                i <= self.body@.len(),
                self.body@.len() == old(self).spec_body().len(),
                self.head.position == position,
                forall|j: int| 0 <= j < i ==> self.body@[j].position == position,
                self.direction == old(self).spec_direction(),
                self.size as int == old(self).spec_size(),
                self.is_dead == old(self).spec_dead(),
            decreases self.body@.len() - i,
        {
            self.body.set(i, Block { position: position });
            i = i + 1;
        }
    }

    /// Whether the snake has died, for callers outside this module.
    pub fn dead(&self) -> (r: bool)
        ensures
            r == self.spec_dead(),
    {
        self.is_dead
    }

    /// Accepts the requested heading unless it is the exact opposite of
    /// the current one, in which case the request is silently dropped.
    pub fn update_direction(&mut self, direction: Direction)
        ensures
            final(self).spec_direction() == (if spec_is_opposite(old(self).spec_direction(), direction) {
                old(self).spec_direction()
            } else {
                direction
            }),
            !spec_is_opposite(final(self).spec_direction(), old(self).spec_direction()),
            final(self).spec_head() == old(self).spec_head(),
            final(self).spec_body() == old(self).spec_body(),
            final(self).spec_size() == old(self).spec_size(),
            final(self).spec_dead() == old(self).spec_dead(),
    {
        if !self.direction.is_opposite(direction) {
            self.direction = direction;
        }
    }

    /// Appends one new tail segment at the position of the current last
    /// body segment; a no-op on an empty body.
    pub fn grow(&mut self)
        ensures
            old(self).spec_body().len() > 0 ==> final(self).spec_body()
                == old(self).spec_body().push(old(self).spec_body().last()),
            old(self).spec_body().len() == 0 ==> final(self).spec_body()
                == old(self).spec_body(),
            final(self).spec_head() == old(self).spec_head(),
            final(self).spec_direction() == old(self).spec_direction(),
            final(self).spec_size() == old(self).spec_size(),
            final(self).spec_dead() == old(self).spec_dead(),
    {
        if self.body.len() > 0 {
            let block = self.body[self.body.len() - 1];
            self.body.push(block);
        }
    }

    /// A snapshot of every occupied cell: the head first, then the body
    /// segments in order.
    pub fn get_segments(&self) -> (r: Vec<Block>)
        ensures
            r@ == seq![self.spec_head()] + self.spec_body(),
            r@.len() == self.spec_body().len() + 1,
            r@[0] == self.spec_head(),
            forall|i: int| 1 <= i < r@.len() ==> r@[i] == self.spec_body()[i - 1],
    {
        let mut new_vec: Vec<Block> = Vec::new();
        new_vec.push(self.head);
        let mut i: usize = 0;
        while i < self.body.len()
            invariant
                i <= self.body@.len(),
                new_vec@ == seq![self.head] + self.body@.take(i as int),
            decreases self.body@.len() - i,
        {
            new_vec.push(self.body[i]);
            assert(self.body@.take(i + 1 as int) == self.body@.take(i as int).push(
                self.body@[i as int],
            ));
            i = i + 1;
        }
        assert(self.body@.take(self.body@.len() as int) == self.body@);
        new_vec
    }
}

impl Default for Snake {
    /// A fresh snake: head at the origin, two body segments stacked on
    /// the same cell, heading right, cell size 25, alive.
    fn default() -> (d: Self)
        ensures
            d.spec_head().position == (0i64, 0i64),
            d.spec_body().len() == 2,
            forall|i: int| 0 <= i < d.spec_body().len() ==> d.spec_body()[i].position == (
                0i64,
                0i64,
            ),
            d.spec_direction() == Direction::Right,
            d.spec_size() == 25,
            !d.spec_dead(),
    {
        let mut body: Vec<Block> = Vec::new();
        body.push(Block { position: (0, 0) });
        body.push(Block { position: (0, 0) });
        Snake {
            head: Block { position: (0, 0) },
            body,
            direction: Direction::Right,
            size: 25,
            is_dead: false,
        }
    }
}

/// Number of grid columns on a screen `screen.0` units wide with
/// square cells of edge `food_size`.
pub open spec fn spec_cols(food_size: u32, screen: (u32, u32)) -> int {
    screen.0 as int / food_size as int
}

/// Number of grid rows on a screen `screen.1` units high with square
/// cells of edge `food_size`.
pub open spec fn spec_rows(food_size: u32, screen: (u32, u32)) -> int {
    screen.1 as int / food_size as int
}

/// A cell the food may occupy: grid-aligned, horizontally within the
/// screen, and vertically below the first two rows (the reserved
/// header band) but above the bottom edge.
pub open spec fn spec_valid_cell(pos: (i64, i64), food_size: u32, screen: (u32, u32)) -> bool {
    &&& 0 <= pos.0 < spec_cols(food_size, screen) * food_size
    &&& 2 * food_size <= pos.1 < spec_rows(food_size, screen) * food_size
    &&& (pos.0 as int) % (food_size as int) == 0
    &&& (pos.1 as int) % (food_size as int) == 0
}

/// Every food-eligible cell is occupied by the snake, so there is
/// nowhere left to place food.
pub open spec fn spec_board_full(s: Snake, food_size: u32, screen: (u32, u32)) -> bool {
    forall|p: (i64, i64)| #[trigger] spec_valid_cell(p, food_size, screen) ==> s.spec_occupies(p)
}

/// Relies on rand's `Rng::gen_range` on the thread-local generator:
/// the drawn value lies in the half-open range, and the call panics
/// only on an empty range, which the precondition rules out.
#[verifier::external_body]
fn random_in_range(low: u32, high: u32) -> (r: u32)
    requires
        low < high,
    ensures
        low <= r < high,
{
    rand::thread_rng().gen_range(low..high)
}

/// A cell index below the quotient `dim / food_size` yields a
/// coordinate that stays inside `dim` with room for one full cell.
proof fn lemma_cell_coord(idx: int, food_size: int, dim: int)
    requires
        food_size > 0,
        0 <= idx < dim / food_size,
    ensures
        idx * food_size + food_size <= dim,
        0 <= idx * food_size,
        (idx * food_size) % food_size == 0,
        idx * food_size < (dim / food_size) * food_size,
        idx >= 2 ==> 2 * food_size <= idx * food_size,
{
    let q = dim / food_size;
    lemma_fundamental_div_mod(dim, food_size);
    lemma_mod_bound(dim, food_size);
    assert(q * food_size <= dim) by (nonlinear_arith)
        requires
            dim == food_size * q + dim % food_size,
            0 <= dim % food_size,
    ;
    assert(idx * food_size + food_size <= q * food_size) by (nonlinear_arith)
        requires
            food_size > 0,
            0 <= idx < q,
    ;
    assert(0 <= idx * food_size) by (nonlinear_arith)
        requires
            food_size > 0,
            0 <= idx,
    ;
    assert((idx * food_size) % food_size == 0) by (nonlinear_arith)
        requires
            food_size > 0,
    ;
    assert(idx >= 2 ==> 2 * food_size <= idx * food_size) by (nonlinear_arith)
        requires
            food_size > 0,
    ;
}

/// A grid-aligned coordinate below `q * food_size` comes from the cell
/// index `v / food_size`, which lies below `q`.
proof fn lemma_coord_to_index(v: int, food_size: int, q: int)
    requires
        food_size > 0,
        0 <= v < q * food_size,
        v % food_size == 0,
    ensures
        v == (v / food_size) * food_size,
        0 <= v / food_size < q,
        2 * food_size <= v ==> 2 <= v / food_size,
{
    let a = v / food_size;
    lemma_fundamental_div_mod(v, food_size);
    assert(v == a * food_size) by (nonlinear_arith)
        requires
            v == food_size * a + v % food_size,
            v % food_size == 0,
    ;
    assert(0 <= a) by (nonlinear_arith)
        requires
            food_size > 0,
            v == a * food_size,
            0 <= v,
    ;
    assert(a < q) by (nonlinear_arith)
        requires
            food_size > 0,
            v == a * food_size,
            v < q * food_size,
    ;
    assert(2 * food_size <= v ==> 2 <= a) by (nonlinear_arith)
        requires
            food_size > 0,
            v == a * food_size,
    ;
}

/// Draws one uniformly random food-eligible cell.
fn random_cell(food_size: u32, screen_size: &(u32, u32)) -> (p: (i64, i64))
    requires
        food_size > 0,
        spec_cols(food_size, *screen_size) > 0,
        spec_rows(food_size, *screen_size) > 2,
    ensures
        spec_valid_cell(p, food_size, *screen_size),
{
    let (w, h) = *screen_size;
    let cols = w / food_size;
    let rows = h / food_size;
    let xi = random_in_range(0, cols);
    let yi = random_in_range(2, rows);
    proof {
        lemma_cell_coord(xi as int, food_size as int, w as int);
        lemma_cell_coord(yi as int, food_size as int, h as int);
    }
    let x = xi * food_size;
    let y = yi * food_size;
    (x as i64, y as i64)
}

/// The food: one grid-aligned position, a transient "just eaten" flag,
/// and the cell size its placement grid uses.
pub struct Food {
    position: (i64, i64),
    pub is_eaten: bool,
    size: u32,
}

impl Food {
    /// The cell the food occupies.
    pub closed spec fn spec_position(&self) -> (i64, i64) {
        self.position
    }

    /// The edge length of one placement-grid cell.
    pub closed spec fn spec_size(&self) -> u32 {
        self.size
    }

    /// Whether the food has just been eaten and awaits relocation.
    pub closed spec fn spec_eaten(&self) -> bool {
        self.is_eaten
    }

    /// A food item sitting on `position`, not yet eaten, on a
    /// placement grid of cells of edge `size`.
    pub fn new(position: (i64, i64), size: u32) -> (f: Food)
        ensures
            f.spec_position() == position,
            f.spec_size() == size,
            !f.spec_eaten(),
    {
        Food { position, is_eaten: false, size }
    }

    /// The cell the food occupies, for callers outside this module.
    pub fn position(&self) -> (r: (i64, i64))
        ensures
            r == self.spec_position(),
    {
        self.position
    }

    /// Whether the food has just been eaten, for callers outside this
    /// module.
    pub fn eaten(&self) -> (r: bool)
        ensures
            r == self.spec_eaten(),
    {
        self.is_eaten
    }

    /// Sets the eaten flag iff the snake's head coincides with the
    /// food's position; exact equality on grid coordinates.
    pub fn is_eaten(&mut self, snake: &Snake)
        ensures
            final(self).spec_eaten() == (old(self).spec_position()
                == snake.spec_head().position),
            final(self).spec_position() == old(self).spec_position(),
            final(self).spec_size() == old(self).spec_size(),
    {
        self.is_eaten = self.position.0 == snake.head.position.0 && self.position.1
            == snake.head.position.1;
    }

    /// Whether position `a` coincides with any of the blocks in `b`.
    pub fn is_intersecting(a: &(i64, i64), b: &Vec<Block>) -> (r: bool)
        ensures
            r == exists|k: int| 0 <= k < b@.len() && b@[k].position == *a,
    {
        if b.len() == 0 {
            return false;
        }
        let mut i: usize = 0;
        while i < b.len()
            invariant
                i <= b@.len(),
                forall|k: int| 0 <= k < i ==> b@[k].position != *a,
            decreases b@.len() - i,
        {
            let block = b[i];
            if block.position.0 == a.0 && block.position.1 == a.1 {
                return true;
            }
            i = i + 1;
        }
        false
    }

    /// If the food has just been eaten, clears the flag and relocates
    /// it to a fresh cell that misses every snake segment; otherwise a
    /// no-op. On a full board the flag is still cleared and the
    /// position is left where it was.
    pub fn update(&mut self, screen_size: &(u32, u32), snake: Option<&Snake>)
        requires
            old(self).spec_eaten() ==> old(self).spec_size() > 0 && spec_cols(
                old(self).spec_size(),
                *screen_size,
            ) > 0 && spec_rows(old(self).spec_size(), *screen_size) > 2,
        ensures
            !old(self).spec_eaten() ==> *final(self) == *old(self),
            !final(self).spec_eaten(),
            final(self).spec_size() == old(self).spec_size(),
            old(self).spec_eaten() ==> match snake {
                Some(s) => if spec_board_full(*s, old(self).spec_size(), *screen_size) {
                    final(self).spec_position() == old(self).spec_position()
                } else {
                    spec_valid_cell(final(self).spec_position(), old(self).spec_size(), *screen_size)
                        && !s.spec_occupies(final(self).spec_position())
                },
                None => spec_valid_cell(
                    final(self).spec_position(),
                    old(self).spec_size(),
                    *screen_size,
                ),
            },
    {
        if self.is_eaten {
            self.is_eaten = false;
            match Self::generate_new_position(self.size, screen_size, snake) {
                Some(p) => {
                    self.position = p;
                },
                None => {},
            }
        }
    }

    /// Produces the initial food for a screen: cell size 25, not
    /// eaten, at a random food-eligible cell that misses every segment
    /// of a freshly constructed default snake.
    pub fn from_screen(screen_size: &(u32, u32)) -> (f: Food)
        requires
            spec_cols(25, *screen_size) > 0,
            spec_rows(25, *screen_size) > 2,
        ensures
            !f.spec_eaten(),
            f.spec_size() == 25,
            spec_valid_cell(f.spec_position(), 25, *screen_size),
            f.spec_position().1 >= 50,
    {
        let excluded = Snake::default();
        let position = match Self::generate_new_position(25, screen_size, Some(&excluded)) {
            Some(p) => p,
            None => {
                proof {
                    assert(spec_valid_cell((0i64, 50i64), 25, *screen_size));
                    assert(!excluded.spec_occupies((0i64, 50i64)));
                    assert(false);
                }
                (0, 0)
            },
        };
        Food { position, is_eaten: false, size: 25 }
    }

    /// Picks a food-eligible cell that no snake segment occupies.
    /// Rejection-samples random cells a bounded number of times, then
    /// falls back to a deterministic scan of the whole grid, so it
    /// always terminates; `None` reports a full board.
    pub fn generate_new_position(
        food_size: u32,
        screen_size: &(u32, u32),
        snake: Option<&Snake>,
    ) -> (r: Option<(i64, i64)>)
        requires
            food_size > 0,
            spec_cols(food_size, *screen_size) > 0,
            spec_rows(food_size, *screen_size) > 2,
        ensures
            r matches Some(p) ==> spec_valid_cell(p, food_size, *screen_size),
            r matches Some(p) ==> (snake matches Some(s) ==> !s.spec_occupies(p)),
            (r is None) <==> (snake matches Some(s) && spec_board_full(
                *s,
                food_size,
                *screen_size,
            )),
    {
        let s = match snake {
            None => {
                return Some(random_cell(food_size, screen_size));
            },
            Some(s) => s,
        };
        let segments = s.get_segments();
        let mut attempts: u32 = 0;
        while attempts < 128
            invariant
                snake == Some(s),
                food_size > 0,
                spec_cols(food_size, *screen_size) > 0,
                spec_rows(food_size, *screen_size) > 2,
                segments@ == seq![s.spec_head()] + s.spec_body(),
            decreases 128 - attempts,
        {
            let p = random_cell(food_size, screen_size);
            if !Self::is_intersecting(&p, &segments) {
                proof {
                    lemma_segments_cover(s, segments@, p);
                    assert(!s.spec_occupies(p));
                    assert(!spec_board_full(*s, food_size, *screen_size));
                }
                return Some(p);
            }
            attempts = attempts + 1;
        }
        let (w, h) = *screen_size;
        let cols = w / food_size;
        let rows = h / food_size;
        let mut i: u32 = 0;
        while i < cols
            invariant
                snake == Some(s),
                food_size > 0,
                spec_cols(food_size, *screen_size) > 0,
                spec_rows(food_size, *screen_size) > 2,
                segments@ == seq![s.spec_head()] + s.spec_body(),
                cols == spec_cols(food_size, *screen_size),
                rows == spec_rows(food_size, *screen_size),
                w == screen_size.0 && h == screen_size.1,
                i <= cols,
                forall|a: int, b: int|
                    0 <= a < i && 2 <= b < rows ==> s.spec_occupies(
                        #[trigger] spec_cell(a, b, food_size),
                    ),
            decreases cols - i,
        {
            let mut j: u32 = 2;
            while j < rows
                invariant
                    snake == Some(s),
                    food_size > 0,
                    spec_cols(food_size, *screen_size) > 0,
                    spec_rows(food_size, *screen_size) > 2,
                    segments@ == seq![s.spec_head()] + s.spec_body(),
                    cols == spec_cols(food_size, *screen_size),
                    rows == spec_rows(food_size, *screen_size),
                    w == screen_size.0 && h == screen_size.1,
                    i < cols,
                    2 <= j <= rows,
                    forall|a: int, b: int|
                        0 <= a < i && 2 <= b < rows ==> s.spec_occupies(
                            #[trigger] spec_cell(a, b, food_size),
                        ),
                    forall|b: int|
                        2 <= b < j ==> s.spec_occupies(
                            #[trigger] spec_cell(i as int, b, food_size),
                        ),
                decreases rows - j,
            {
                proof {
                    lemma_cell_coord(i as int, food_size as int, w as int);
                    lemma_cell_coord(j as int, food_size as int, h as int);
                }
                let x = i * food_size;
                let y = j * food_size;
                let p = (x as i64, y as i64);
                if !Self::is_intersecting(&p, &segments) {
                    proof {
                        lemma_segments_cover(s, segments@, p);
                        assert(spec_valid_cell(p, food_size, *screen_size));
                        assert(!s.spec_occupies(p));
                        assert(!spec_board_full(*s, food_size, *screen_size));
                    }
                    return Some(p);
                }
                proof {
                    lemma_segments_cover(s, segments@, p);
                    assert(spec_cell(i as int, j as int, food_size) == p);
                }
                j = j + 1;
            }
            i = i + 1;
        }
        proof {
            assert forall|p: (i64, i64)|
                #[trigger] spec_valid_cell(p, food_size, *screen_size) implies s.spec_occupies(
                p,
            ) by {
                lemma_coord_to_index(p.0 as int, food_size as int, cols as int);
                lemma_coord_to_index(p.1 as int, food_size as int, rows as int);
                let a = p.0 as int / food_size as int;
                let b = p.1 as int / food_size as int;
                assert(spec_cell(a, b, food_size) == p);
                assert(s.spec_occupies(spec_cell(a, b, food_size)));
            }
        }
        None
    }
}

/// The top-left coordinates of the grid cell in column `i`, row `j`.
pub open spec fn spec_cell(i: int, j: int, food_size: u32) -> (i64, i64) {
    ((i * food_size) as i64, (j * food_size) as i64)
}

/// The segment snapshot (head first, then body) covers exactly the
/// cells the snake occupies.
proof fn lemma_segments_cover(s: &Snake, segments: Seq<Block>, p: (i64, i64))
    requires
        segments == seq![s.spec_head()] + s.spec_body(),
    ensures
        s.spec_occupies(p) <==> exists|k: int|
            0 <= k < segments.len() && segments[k].position == p,
{
    if s.spec_occupies(p) {
        if s.spec_head().position == p {
            assert(segments[0].position == p);
        } else {
            let k = choose|k: int|
                0 <= k < s.spec_body().len() && s.spec_body()[k].position == p;
            assert(segments[k + 1].position == p);
        }
    }
    if exists|k: int| 0 <= k < segments.len() && segments[k].position == p {
        let k = choose|k: int| 0 <= k < segments.len() && segments[k].position == p;
        if k == 0 {
            assert(s.spec_head().position == p);
        } else {
            assert(s.spec_body()[k - 1].position == p);
        }
    }
}

} // verus!
