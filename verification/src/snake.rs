//! One snake: its body, its heading, its buffered turns and its timed effects.
//!
//! [`SnakeView`] is the mathematical state of a snake and carries the rules as
//! spec functions; every method of [`Snake`] is proved to follow them.

use vstd::prelude::*;

use crate::cell::{grid_size, spec_grid_size, Cell};
use crate::config::{
    INIT_TICK_RATE, INPUT_QUEUE_CAP, INVISIBLE_TIME, NEIGHBOR_DISTANCE, PORTAL_TIME,
    SLOW_DOWN_STEP, SPEED_CHANGE_TIME,
};
use crate::food::FoodType;

verus! {

/// A snake on the grid. `segments[0]` is the head.
#[derive(Debug, PartialEq, Eq)]
pub struct Snake {
    /// Time that has passed and has not yet been spent on a step.
    pub time: u64,
    /// Time that one step costs.
    pub tick_rate: u64,
    pub segments: Vec<Cell>,
    /// The displacement of the head in the next step, unless a turn is pending.
    pub dir: Cell,
    /// Pending turns, oldest first.
    pub input_queue: Vec<Cell>,
    pub portal_time_left: u64,
    pub invisible_time_left: u64,
    pub speed_change_time_left: u64,
}

/// The state of a snake as a mathematical value.
pub struct SnakeView {
    pub time: u64,
    pub tick_rate: u64,
    pub segments: Seq<Cell>,
    pub dir: Cell,
    pub input_queue: Seq<Cell>,
    pub portal_time_left: u64,
    pub invisible_time_left: u64,
    pub speed_change_time_left: u64,
}

impl View for Snake {
    type V = SnakeView;

    open spec fn view(&self) -> SnakeView {
        SnakeView {
            time: self.time,
            tick_rate: self.tick_rate,
            segments: self.segments@,
            dir: self.dir,
            input_queue: self.input_queue@,
            portal_time_left: self.portal_time_left,
            invisible_time_left: self.invisible_time_left,
            speed_change_time_left: self.speed_change_time_left,
        }
    }
}

impl SnakeView {
    /// The heading that pending turn `i` will replace.
    pub open spec fn heading_before(self, i: int) -> Cell {
        if i == 0 {
            self.dir
        } else {
            self.input_queue[i - 1]
        }
    }

    /// No pending turn is the opposite of the heading it will replace.
    pub open spec fn turns_allowed(self) -> bool {
        forall|i: int|
            0 <= i < self.input_queue.len() ==> #[trigger] self.input_queue[i]
                != self.heading_before(i).negate()
    }

    /// A snake has a head, a step takes time, and the buffer of turns is
    /// bounded and holds no reversal.
    pub open spec fn wf(self) -> bool {
        &&& self.segments.len() >= 1
        &&& self.input_queue.len() <= INPUT_QUEUE_CAP
        &&& self.tick_rate >= 1
        &&& self.turns_allowed()
    }

    /// A snake of `size` segments laid out behind `pos` against `dir`.
    pub open spec fn new(pos: Cell, dir: Cell, size: i32) -> SnakeView {
        SnakeView {
            time: 0,
            tick_rate: INIT_TICK_RATE,
            segments: Seq::new(size as nat, |i: int| pos.minus(dir.scale(i as i32))),
            dir,
            input_queue: Seq::empty(),
            portal_time_left: 0,
            invisible_time_left: 0,
            speed_change_time_left: 0,
        }
    }

    pub open spec fn head(self) -> Cell {
        self.segments[0]
    }

    /// The segments behind the head.
    pub open spec fn tail(self) -> Seq<Cell> {
        self.segments.subrange(1, self.segments.len() as int)
    }

    /// The turn queued last, or the current heading if none is pending.
    pub open spec fn last_input(self) -> Cell {
        if self.input_queue.len() > 0 {
            self.input_queue.last()
        } else {
            self.dir
        }
    }

    /// Whether a turn to `dir` would be buffered.
    pub open spec fn accepts(self, dir: Cell) -> bool {
        self.input_queue.len() < INPUT_QUEUE_CAP && self.last_input().negate() != dir
    }

    /// Buffers `dir` if it is accepted and drops it otherwise.
    pub open spec fn queue_input(self, dir: Cell) -> SnakeView {
        if self.accepts(dir) {
            SnakeView { input_queue: self.input_queue.push(dir), ..self }
        } else {
            self
        }
    }

    /// Offers every direction of `inputs` in turn.
    pub open spec fn queue_inputs(self, inputs: Seq<Cell>) -> SnakeView
        decreases inputs.len(),
    {
        if inputs.len() == 0 {
            self
        } else {
            self.queue_inputs(inputs.drop_last()).queue_input(inputs.last())
        }
    }

    pub open spec fn can_portal(self) -> bool {
        self.portal_time_left > 0
    }

    pub open spec fn is_invisible(self) -> bool {
        self.invisible_time_left > 0
    }

    pub open spec fn is_outside(self) -> bool {
        !self.head().in_grid()
    }

    /// Whether some segment lies on `cell`.
    pub open spec fn covers(self, cell: Cell) -> bool {
        self.segments.contains(cell)
    }

    /// Whether the head is on `food`.
    pub open spec fn eats(self, food: Cell) -> bool {
        self.head() == food
    }

    /// Whether the head is on a segment of `other` behind its head.
    pub open spec fn eats_other(self, other: SnakeView) -> bool {
        exists|i: int| 1 <= i < other.segments.len() && #[trigger] other.segments[i] == self.head()
    }

    /// The heading of the next step: the oldest pending turn, if there is one.
    pub open spec fn next_dir(self) -> Cell {
        if self.input_queue.len() > 0 {
            self.input_queue[0]
        } else {
            self.dir
        }
    }

    /// Where the next step puts the head: one `next_dir` ahead, and wrapped
    /// onto the grid while the portal effect lasts.
    pub open spec fn next_head(self) -> Cell {
        let moved = self.head().plus(self.next_dir());
        if self.can_portal() {
            moved.rem_euclid(spec_grid_size())
        } else {
            moved
        }
    }

    /// One discrete step: the oldest pending turn becomes the heading, every
    /// segment takes the place of the one before it, and the head advances.
    pub open spec fn step(self) -> SnakeView {
        SnakeView {
            dir: self.next_dir(),
            input_queue: if self.input_queue.len() > 0 {
                self.input_queue.drop_first()
            } else {
                self.input_queue
            },
            segments: Seq::new(
                self.segments.len(),
                |i: int|
                    if i == 0 {
                        self.next_head()
                    } else {
                        self.segments[i - 1]
                    },
            ),
            ..self
        }
    }

    /// `n` discrete steps in a row.
    pub open spec fn steps(self, n: nat) -> SnakeView
        decreases n,
    {
        if n == 0 {
            self
        } else {
            self.step().steps((n - 1) as nat)
        }
    }

    /// The passing of `delta`: the time to spend grows, the effects run down,
    /// and the speed is the initial one again once its effect has run out.
    pub open spec fn decay(self, delta: u64) -> SnakeView {
        let speed_change_time_left = self.speed_change_time_left.saturating_sub(delta);
        SnakeView {
            time: self.time.saturating_add(delta),
            portal_time_left: self.portal_time_left.saturating_sub(delta),
            invisible_time_left: self.invisible_time_left.saturating_sub(delta),
            speed_change_time_left,
            tick_rate: if speed_change_time_left == 0 {
                INIT_TICK_RATE
            } else {
                self.tick_rate
            },
            ..self
        }
    }

    /// The number of steps that are due: one for each whole `tick_rate` in
    /// `time`, but for the last if `time` is an exact multiple.
    pub open spec fn ticks_due(self) -> nat {
        if self.time == 0 || self.tick_rate == 0 {
            0
        } else {
            ((self.time - 1) / (self.tick_rate as int)) as nat
        }
    }

    /// Takes every step that is due and keeps the time that is left over.
    pub open spec fn run_ticks(self) -> SnakeView {
        let n = self.ticks_due();
        SnakeView { time: (self.time - n * self.tick_rate) as u64, ..self.steps(n) }
    }

    /// One frame of `delta`: the effects decay, then the due steps are taken.
    pub open spec fn update(self, delta: u64) -> SnakeView {
        self.decay(delta).run_ticks()
    }

    /// One more segment, on top of the last one.
    pub open spec fn grow(self) -> SnakeView {
        SnakeView { segments: self.segments.push(self.segments.last()), ..self }
    }

    /// The front half of the body, rounded up.
    pub open spec fn cut(self) -> SnakeView {
        SnakeView {
            segments: self.segments.subrange(0, (self.segments.len() as int + 1) / 2),
            ..self
        }
    }

    /// The heading after a reversal: from the segment before the last to the
    /// last, or the opposite heading if the head is all there is.
    pub open spec fn reversed_dir(self) -> Cell {
        let len = self.segments.len() as int;
        if len >= 2 {
            self.segments[len - 1].minus(self.segments[len - 2])
        } else {
            self.dir.negate()
        }
    }

    /// The body turned end for end, heading away from it, with no turn pending.
    pub open spec fn reverse(self) -> SnakeView {
        SnakeView {
            segments: self.segments.reverse(),
            dir: self.reversed_dir(),
            input_queue: Seq::empty(),
            ..self
        }
    }

    /// Half the time per step, but never none, for `SPEED_CHANGE_TIME`.
    pub open spec fn speed_up(self) -> SnakeView {
        SnakeView {
            tick_rate: if self.tick_rate >= 2 {
                self.tick_rate / 2
            } else {
                1
            },
            speed_change_time_left: SPEED_CHANGE_TIME,
            ..self
        }
    }

    /// `SLOW_DOWN_STEP` more time per step, for `SPEED_CHANGE_TIME`.
    pub open spec fn slow_down(self) -> SnakeView {
        SnakeView {
            tick_rate: self.tick_rate.saturating_add(SLOW_DOWN_STEP),
            speed_change_time_left: SPEED_CHANGE_TIME,
            ..self
        }
    }

    pub open spec fn portal(self) -> SnakeView {
        SnakeView { portal_time_left: PORTAL_TIME, ..self }
    }

    pub open spec fn invisible(self) -> SnakeView {
        SnakeView { invisible_time_left: INVISIBLE_TIME, ..self }
    }

    /// What a food of kind `typ` does to the snake that eats it, before the
    /// snake grows. The kinds that act on the game as a whole leave the
    /// snake as it is.
    pub open spec fn effect(self, typ: FoodType) -> SnakeView {
        match typ {
            FoodType::Grow => self,
            FoodType::DoubleFood => self,
            FoodType::Cut => self.cut(),
            FoodType::Slow => self.speed_up(),
            FoodType::Fast => self.slow_down(),
            FoodType::Reverse => self.reverse(),
            FoodType::Multiply => self,
            FoodType::Invisible => self.invisible(),
            FoodType::Portal => self.portal(),
        }
    }

    /// The snake after it has eaten a food of kind `typ`: the effect of the
    /// kind, then one more segment.
    pub open spec fn eat(self, typ: FoodType) -> SnakeView {
        self.effect(typ).grow()
    }

    /// The new snake that a split puts to the side `rot_dir` of this one:
    /// `NEIGHBOR_DISTANCE` cells off the head, wrapped onto the grid, with
    /// the same heading.
    pub open spec fn neighbor(self, rot_dir: Cell) -> SnakeView {
        let offset_dir = self.dir.rotate(rot_dir);
        let head = self.head().plus(offset_dir.scale(NEIGHBOR_DISTANCE)).rem_euclid(
            spec_grid_size(),
        );
        SnakeView::new(head, self.dir, 3)
    }
}

impl Snake {
    pub open spec fn wf(&self) -> bool {
        self@.wf()
    }

    /// A snake of `size` segments with its head at `pos`, heading `dir`, the
    /// body laid out behind the head.
    pub fn new(pos: Cell, dir: Cell, size: i32) -> (r: Snake)
        requires
            size >= 1,
        ensures
            r@ == SnakeView::new(pos, dir, size),
            r.wf(),
    {
        let mut segments: Vec<Cell> = Vec::new();
        let mut i: i32 = 0;
        while i < size
            invariant
                0 <= i <= size,
                segments@ == Seq::new(i as nat, |k: int| pos.minus(dir.scale(k as i32))),
            decreases size - i,
        {
            segments.push(pos.minus(dir.scale(i)));
            i = i + 1;
            assert(segments@ =~= Seq::new(i as nat, |k: int| pos.minus(dir.scale(k as i32))));
        }
        Snake {
            segments,
            dir,
            time: 0,
            tick_rate: INIT_TICK_RATE,
            input_queue: Vec::new(),
            portal_time_left: 0,
            invisible_time_left: 0,
            speed_change_time_left: 0,
        }
    }

    /// Whether the snake is well formed.
    pub fn is_valid(&self) -> (r: bool)
        ensures
            r == self.wf(),
    {
        if self.segments.len() == 0 || self.input_queue.len() > INPUT_QUEUE_CAP || self.tick_rate
            == 0 {
            return false;
        }
        let mut before = self.dir;
        let mut i: usize = 0;
        while i < self.input_queue.len()
            invariant
                i <= self.input_queue@.len(),
                before == self@.heading_before(i as int),
                forall|k: int|
                    0 <= k < i ==> #[trigger] self@.input_queue[k] != self@.heading_before(
                        k,
                    ).negate(),
            decreases self.input_queue.len() - i,
        {
            if self.input_queue[i] == before.negate() {
                assert(self@.input_queue[i as int] == self@.heading_before(i as int).negate());
                return false;
            }
            before = self.input_queue[i];
            i = i + 1;
        }
        true
    }

    /// The turn queued last, or the current heading if none is pending.
    pub fn last_input(&self) -> (r: Cell)
        ensures
            r == self@.last_input(),
    {
        let n: usize = self.input_queue.len();
        if n > 0 {
            self.input_queue[n - 1]
        } else {
            self.dir
        }
    }

    /// Buffers a turn to `dir`, unless the buffer is full or `dir` is the
    /// opposite of the heading it would replace.
    pub fn queue_input(&mut self, dir: Cell)
        requires
            old(self).wf(),
        ensures
            final(self)@ == old(self)@.queue_input(dir),
            final(self).wf(),
    {
        if self.input_queue.len() < INPUT_QUEUE_CAP && self.last_input().negate() != dir {
            self.input_queue.push(dir);
        }
    }

    /// Offers every direction of `inputs` in turn.
    pub fn queue_inputs(&mut self, inputs: &Vec<Cell>)
        requires
            old(self).wf(),
        ensures
            final(self)@ == old(self)@.queue_inputs(inputs@),
            final(self).wf(),
    {
        let mut k: usize = 0;
        while k < inputs.len()
            invariant
                k <= inputs.len(),
                self.wf(),
                self@ == old(self)@.queue_inputs(inputs@.take(k as int)),
            decreases inputs.len() - k,
        {
            self.queue_input(inputs[k]);
            k = k + 1;
            assert(inputs@.take(k as int).drop_last() =~= inputs@.take(k - 1));
        }
        assert(inputs@.take(k as int) =~= inputs@);
    }

    pub fn head(&self) -> (r: Cell)
        requires
            self.wf(),
        ensures
            r == self@.head(),
    {
        self.segments[0]
    }

    /// One discrete step.
    pub fn step(&mut self)
        requires
            old(self).wf(),
        ensures
            final(self)@ == old(self)@.step(),
            final(self).wf(),
            final(self).segments@.len() == old(self).segments@.len(),
            old(self)@.can_portal() ==> final(self)@.head().in_grid(),
    {
        if self.input_queue.len() > 0 {
            self.dir = self.input_queue.remove(0);
        }
        let moved = self.segments[0].plus(self.dir);
        let head = if self.portal_time_left > 0 {
            moved.rem_euclid(grid_size())
        } else {
            moved
        };
        self.segments.pop();
        self.segments.insert(0, head);
        assert(self@.segments =~= old(self)@.step().segments);
        assert(self@.input_queue =~= old(self)@.step().input_queue);
    }

    /// One frame of `delta` microseconds: the effects decay, then one step is
    /// taken for every `tick_rate` that the time to spend exceeds.
    pub fn update(&mut self, delta: u64)
        requires
            old(self).wf(),
        ensures
            final(self)@ == old(self)@.update(delta),
            final(self).wf(),
            final(self).segments@.len() == old(self).segments@.len(),
    {
        self.time = self.time.saturating_add(delta);
        self.portal_time_left = self.portal_time_left.saturating_sub(delta);
        self.invisible_time_left = self.invisible_time_left.saturating_sub(delta);
        self.speed_change_time_left = self.speed_change_time_left.saturating_sub(delta);
        if self.speed_change_time_left == 0 {
            self.tick_rate = INIT_TICK_RATE;
        }
        assert(self@ == old(self)@.decay(delta));
        while self.time > self.tick_rate
            invariant
                self.wf(),
                self@.run_ticks() == old(self)@.update(delta),
                self.segments@.len() == old(self).segments@.len(),
            decreases self.time,
        {
            proof {
                lemma_run_ticks_unfold(self@);
            }
            self.time = self.time - self.tick_rate;
            self.step();
        }
        proof {
            lemma_run_ticks_idle(self@);
        }
    }

    /// The head, to be moved in place.
    pub fn head_mut(&mut self) -> (r: &mut Cell)
        requires
            old(self).wf(),
        ensures
            *r == old(self)@.head(),
            final(self)@ == (SnakeView {
                segments: old(self)@.segments.update(0, *final(r)),
                ..old(self)@
            }),
            final(self).wf(),
    {
        &mut self.segments[0]
    }

    /// The segments behind the head.
    pub fn tail(&self) -> (r: &[Cell])
        requires
            self.wf(),
        ensures
            r@ == self@.tail(),
    {
        vstd::slice::slice_subrange(self.segments.as_slice(), 1, self.segments.len())
    }

    /// Whether some segment lies on `cell`.
    pub fn covers(&self, cell: Cell) -> (r: bool)
        ensures
            r == self@.covers(cell),
    {
        let mut i: usize = 0;
        while i < self.segments.len()
            invariant
                forall|k: int| 0 <= k < i && k < self.segments@.len() ==> self.segments@[k] != cell,
            decreases self.segments.len() - i,
        {
            if self.segments[i] == cell {
                return true;
            }
            i = i + 1;
        }
        false
    }

    /// Whether the head is on `food`.
    pub fn eats(&self, food: Cell) -> (r: bool)
        requires
            self.wf(),
        ensures
            r == self@.eats(food),
    {
        self.segments[0] == food
    }

    /// Whether the head is on a segment of `other` behind its head.
    pub fn eats_other(&self, other: &Snake) -> (r: bool)
        requires
            self.wf(),
            other.wf(),
        ensures
            r == self@.eats_other(other@),
    {
        let head = self.segments[0];
        let mut i: usize = 1;
        while i < other.segments.len()
            invariant
                1 <= i,
                head == self@.head(),
                forall|k: int| 1 <= k < i && k < other.segments@.len() ==> other.segments@[k] != head,
            decreases other.segments.len() - i,
        {
            if other.segments[i] == head {
                assert(other@.segments[i as int] == self@.head());
                return true;
            }
            i = i + 1;
        }
        false
    }

    /// Whether the head is on a segment of the snake's own body.
    pub fn eats_self(&self) -> (r: bool)
        requires
            self.wf(),
        ensures
            r == self@.eats_other(self@),
            self.segments@.len() == 1 ==> !r,
    {
        self.eats_other(self)
    }

    /// Adds a segment on top of the last one.
    pub fn grow(&mut self)
        requires
            old(self).wf(),
        ensures
            final(self)@ == old(self)@.grow(),
            final(self).wf(),
            final(self).segments@.len() == old(self).segments@.len() + 1,
    {
        let last = self.segments[self.segments.len() - 1];
        self.segments.push(last);
    }

    /// Keeps the front half of the body, rounded up.
    pub fn cut(&mut self)
        requires
            old(self).wf(),
        ensures
            final(self)@ == old(self)@.cut(),
            final(self).wf(),
            final(self).segments@.len() == (old(self).segments@.len() + 1) / 2,
            final(self).segments@.len() <= old(self).segments@.len(),
    {
        let len: usize = self.segments.len();
        let new_len: usize = len - len / 2;
        self.segments.truncate(new_len);
    }

    /// Turns the body end for end. The new heading leads from the segment
    /// before the old last one to the old last one; a snake that is only a
    /// head takes the opposite heading. Pending turns are dropped.
    pub fn reverse(&mut self)
        requires
            old(self).wf(),
        ensures
            final(self)@ == old(self)@.reverse(),
            final(self).wf(),
            final(self).segments@.len() == old(self).segments@.len(),
    {
        let len: usize = self.segments.len();
        let new_dir = if len >= 2 {
            self.segments[len - 1].minus(self.segments[len - 2])
        } else {
            self.dir.negate()
        };
        let mut turned: Vec<Cell> = Vec::new();
        let mut i: usize = len;
        while i > 0
            invariant
                i <= len,
                len == self.segments@.len(),
                turned@ == Seq::new((len - i) as nat, |k: int| self.segments@[len - 1 - k]),
            decreases i,
        {
            i = i - 1;
            turned.push(self.segments[i]);
            assert(turned@ =~= Seq::new((len - i) as nat, |k: int| self.segments@[len - 1 - k]));
        }
        assert(turned@ =~= self.segments@.reverse());
        self.segments = turned;
        self.dir = new_dir;
        self.input_queue.clear();
    }

    /// The two snakes that a split puts beside this one: three segments
    /// each, `NEIGHBOR_DISTANCE` cells to either side of the head, wrapped
    /// onto the grid, heading as this one does.
    pub fn spawn_neighbors(&self) -> (r: (Snake, Snake))
        requires
            self.wf(),
        ensures
            r.0@ == self@.neighbor(Cell { x: 0, y: 1 }),
            r.1@ == self@.neighbor(Cell { x: 0, y: -1i32 }),
            r.0.wf(),
            r.1.wf(),
    {
        (self.spawn_neighbor(Cell::down()), self.spawn_neighbor(Cell::up()))
    }

    fn spawn_neighbor(&self, rot_dir: Cell) -> (r: Snake)
        requires
            self.wf(),
        ensures
            r@ == self@.neighbor(rot_dir),
            r.wf(),
    {
        let offset_dir = self.dir.rotate(rot_dir);
        let head = self.segments[0].plus(offset_dir.scale(NEIGHBOR_DISTANCE)).rem_euclid(
            grid_size(),
        );
        Snake::new(head, self.dir, 3)
    }

    /// Eats a food of kind `typ`: takes the effect of the kind on the snake
    /// itself, then grows by one segment.
    pub fn eat(&mut self, typ: FoodType)
        requires
            old(self).wf(),
        ensures
            final(self)@ == old(self)@.eat(typ),
            final(self).wf(),
    {
        match typ {
            FoodType::Grow => {},
            FoodType::DoubleFood => {},
            FoodType::Cut => self.cut(),
            FoodType::Slow => self.speed_up(),
            FoodType::Fast => self.slow_down(),
            FoodType::Reverse => self.reverse(),
            FoodType::Multiply => {},
            FoodType::Invisible => self.invisible(),
            FoodType::Portal => self.portal(),
        }
        self.grow();
    }

    /// Halves the time per step, down to one microsecond at the least, for
    /// `SPEED_CHANGE_TIME`.
    pub fn speed_up(&mut self)
        requires
            old(self).wf(),
        ensures
            final(self)@ == old(self)@.speed_up(),
            final(self).wf(),
    {
        self.tick_rate = if self.tick_rate >= 2 {
            self.tick_rate / 2
        } else {
            1
        };
        self.speed_change_time_left = SPEED_CHANGE_TIME;
    }

    /// Adds `SLOW_DOWN_STEP` to the time per step, up to the largest value
    /// that fits, for `SPEED_CHANGE_TIME`.
    pub fn slow_down(&mut self)
        requires
            old(self).wf(),
        ensures
            final(self)@ == old(self)@.slow_down(),
            final(self).wf(),
    {
        self.tick_rate = self.tick_rate.saturating_add(SLOW_DOWN_STEP);
        self.speed_change_time_left = SPEED_CHANGE_TIME;
    }

    /// Starts the wraparound effect anew.
    pub fn portal(&mut self)
        ensures
            final(self)@ == old(self)@.portal(),
    {
        self.portal_time_left = PORTAL_TIME;
    }

    pub fn can_portal(&self) -> (r: bool)
        ensures
            r == self@.can_portal(),
    {
        self.portal_time_left > 0
    }

    /// Starts the collision immunity anew.
    pub fn invisible(&mut self)
        ensures
            final(self)@ == old(self)@.invisible(),
    {
        self.invisible_time_left = INVISIBLE_TIME;
    }

    pub fn is_invisible(&self) -> (r: bool)
        ensures
            r == self@.is_invisible(),
    {
        self.invisible_time_left > 0
    }

    /// Whether the head is off the grid.
    pub fn is_outside(&self) -> (r: bool)
        requires
            self.wf(),
        ensures
            r == self@.is_outside(),
    {
        !self.segments[0].in_grid()
    }
}

/// Steps neither read nor change the time to spend or the time per step.
pub proof fn lemma_steps_keep_time(s: SnakeView, time: u64, n: nat)
    ensures
        (SnakeView { time, ..s }).steps(n) == (SnakeView { time, ..s.steps(n) }),
        s.steps(n).tick_rate == s.tick_rate,
        s.steps(n).time == s.time,
    decreases n,
{
    if n > 0 {
        assert((SnakeView { time, ..s }).step() == (SnakeView { time, ..s.step() }));
        lemma_steps_keep_time(s.step(), time, (n - 1) as nat);
    }
}

/// While more time is left than one step costs, running the due steps is
/// paying for one step, taking it, and running the rest.
pub proof fn lemma_run_ticks_unfold(s: SnakeView)
    requires
        s.tick_rate >= 1,
        s.time > s.tick_rate,
    ensures
        s.run_ticks() == (SnakeView { time: (s.time - s.tick_rate) as u64, ..s }).step().run_ticks(),
{
    let rate = s.tick_rate as int;
    let rest = (s.time - s.tick_rate) as u64;
    let n = s.ticks_due();
    let paid = SnakeView { time: rest, ..s };
    let m = paid.step().ticks_due();
    assert(n == m + 1 && n * rate == m * rate + rate) by {
        vstd::arithmetic::div_mod::lemma_div_plus_one(rest - 1, rate);
        assert((m + 1) * rate == m * rate + rate) by (nonlinear_arith);
    }
    assert(paid.step() == (SnakeView { time: rest, ..s.step() }));
    lemma_steps_keep_time(s.step(), rest, m);
    lemma_steps_keep_time(s, s.time, n);
}

/// With no more time left than one step costs, no step is due.
pub proof fn lemma_run_ticks_idle(s: SnakeView)
    requires
        s.tick_rate >= 1,
        s.time <= s.tick_rate,
    ensures
        s.run_ticks() == s,
{
    if s.time > 0 {
        vstd::arithmetic::div_mod::lemma_basic_div(s.time - 1, s.tick_rate as int);
    }
    assert(s.ticks_due() == 0);
    assert(s.steps(0) == s);
    assert(0 * s.tick_rate == 0);
}

} // verus!
