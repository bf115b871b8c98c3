//! The game as a whole: the roster of snakes, the foods on the grid, the
//! score, and the step that leads from one frame to the next.

use vstd::prelude::*;

use crate::cell::Cell;
use crate::config::{FOOD_DESPAWN_TIME, MAX_FOODS, NUM_COLS, NUM_ROWS};
use crate::feed::clip;
use crate::food::{Food, FoodEntry, FoodType};
use crate::snake::{Snake, SnakeView};
use crate::spawn::{all_wf, free_cells, is_free, lemma_free_cells, random_food_location, views};
use crate::termination::survivors;

verus! {

/// The state of a game between two frames.
#[derive(Debug, PartialEq, Eq)]
pub struct Game {
    pub score: u32,
    /// The snakes that are alive.
    pub snakes: Vec<Snake>,
    /// The foods on the grid, oldest first.
    pub foods: Vec<FoodEntry>,
    /// Time for which every eaten food is still replaced by two.
    pub double_food_time_left: u64,
}

/// The state of a game as a mathematical value.
pub struct GameView {
    pub score: u32,
    pub snakes: Seq<SnakeView>,
    pub foods: Seq<FoodEntry>,
    pub double_food_time_left: u64,
}

impl View for Game {
    type V = GameView;

    open spec fn view(&self) -> GameView {
        GameView {
            score: self.score,
            snakes: views(self.snakes@),
            foods: self.foods@,
            double_food_time_left: self.double_food_time_left,
        }
    }
}

/// No two foods lie on the same cell.
pub open spec fn foods_apart(foods: Seq<FoodEntry>) -> bool {
    forall|i: int, j: int|
        0 <= i < j < foods.len() ==> (#[trigger] foods[i]).food.position != (
        #[trigger] foods[j]).food.position
}

/// Every food lies on the grid.
pub open spec fn foods_on_grid(foods: Seq<FoodEntry>) -> bool {
    forall|i: int| 0 <= i < foods.len() ==> (#[trigger] foods[i]).food.position.in_grid()
}

/// Whether `after` may come of `before` by spawning up to `tally` foods
/// among `snakes`: the old foods stay in front; each new food has the full
/// lifetime and lies on a cell that was free when it came; none is added
/// beyond `MAX_FOODS`; and fewer than `tally` are added only if the foods
/// have reached `MAX_FOODS` or no cell is free any more.
pub open spec fn spawned(
    snakes: Seq<SnakeView>,
    before: Seq<FoodEntry>,
    tally: nat,
    after: Seq<FoodEntry>,
) -> bool {
    &&& before.len() <= after.len() <= before.len() + tally
    &&& after.take(before.len() as int) == before
    &&& forall|k: int|
        before.len() <= k < after.len() ==> (#[trigger] after[k]).time_left == FOOD_DESPAWN_TIME
            && is_free(snakes, after.take(k), after[k].food.position)
    &&& after.len() > before.len() ==> after.len() <= MAX_FOODS
    &&& after.len() < before.len() + tally ==> after.len() >= MAX_FOODS || free_cells(
        snakes,
        after,
    ).len() == 0
}

/// The snake that a new game starts with: three segments at the middle of
/// the grid, heading right.
pub open spec fn initial_snake() -> SnakeView {
    SnakeView::new(
        Cell { x: (NUM_COLS / 2) as i32, y: (NUM_ROWS / 2) as i32 },
        Cell { x: 1, y: 0 },
        3,
    )
}

impl GameView {
    /// What holds of the snakes and the foods at every point of a frame:
    /// the snakes are well formed, and the foods are at most `MAX_FOODS`,
    /// on the grid, and on cells of their own.
    pub open spec fn sound(self) -> bool {
        &&& all_wf(self.snakes)
        &&& self.foods.len() <= MAX_FOODS
        &&& foods_apart(self.foods)
        &&& foods_on_grid(self.foods)
    }

    /// What holds between two frames: the state is sound, a snake is alive,
    /// and a food is on the grid.
    pub open spec fn wf(self) -> bool {
        &&& self.sound()
        &&& self.snakes.len() >= 1
        &&& self.foods.len() >= 1
    }

    /// A game at its start: no score, the initial snake, and one `Grow`
    /// food on a cell that the snake does not cover.
    pub open spec fn is_fresh(self) -> bool {
        &&& self.score == 0
        &&& self.double_food_time_left == 0
        &&& self.snakes == seq![initial_snake()]
        &&& self.foods.len() == 1
        &&& self.foods[0].food.typ == FoodType::Grow
        &&& self.foods[0].time_left == 0
        &&& is_free(self.snakes, Seq::empty(), self.foods[0].food.position)
    }

    /// Every direction of `inputs` is offered, in order, to every snake.
    pub open spec fn queue_inputs(self, inputs: Seq<Cell>) -> GameView {
        GameView {
            snakes: self.snakes.map_values(|s: SnakeView| s.queue_inputs(inputs)),
            ..self
        }
    }

    /// `delta` passes for the double-food window and for every snake.
    pub open spec fn advance(self, delta: u64) -> GameView {
        GameView {
            double_food_time_left: self.double_food_time_left.saturating_sub(delta),
            snakes: self.snakes.map_values(|s: SnakeView| s.update(delta)),
            ..self
        }
    }

    /// `delta` passes for the foods: those that expire are dropped, the
    /// others keep their order and have that much less time left.
    pub open spec fn expire_foods(self, delta: u64) -> GameView {
        GameView {
            foods: self.foods.filter(|e: FoodEntry| !e.expires(delta)).map_values(
                |e: FoodEntry| e.aged(delta),
            ),
            ..self
        }
    }

    /// The game after the steps of a frame that no draw takes part in: the
    /// inputs are queued, time passes for the snakes and the foods, and the
    /// snakes eat.
    pub open spec fn fed(self, inputs: Seq<Cell>, delta: u64) -> GameView {
        self.queue_inputs(inputs).advance(delta).expire_foods(delta).feed()
    }

    /// The number of foods that are to be spawned in a frame.
    pub open spec fn due(self, inputs: Seq<Cell>, delta: u64) -> nat {
        self.queue_inputs(inputs).advance(delta).expire_foods(delta).tally()
    }

    /// No food is on the grid and no cell is free for one.
    pub open spec fn starved(self) -> bool {
        self.foods.len() == 0 && free_cells(self.snakes, self.foods).len() == 0
    }

    /// `next` is this game with one `Grow` food put on a free cell.
    pub open spec fn restocked(self, next: GameView) -> bool {
        &&& next.score == self.score
        &&& next.snakes == self.snakes
        &&& next.double_food_time_left == self.double_food_time_left
        &&& next.foods.len() == self.foods.len() + 1
        &&& next.foods.drop_last() == self.foods
        &&& next.foods.last().food.typ == FoodType::Grow
        &&& next.foods.last().time_left == FOOD_DESPAWN_TIME
        &&& is_free(self.snakes, self.foods, next.foods.last().food.position)
    }

    /// Whether a frame with these inputs and this much time may lead from
    /// this game to `next`. The frame starts over with a fresh game if it
    /// finds no food and no free cell, or if no snake stays. Otherwise the
    /// score, the double-food window and the snakes are settled, and the
    /// foods are those that were left, followed by what was spawned: the
    /// foods that are due, or a single `Grow` food if no food was left and
    /// none is due.
    pub open spec fn leads_to(self, inputs: Seq<Cell>, delta: u64, next: GameView) -> bool {
        let mid = self.fed(inputs, delta);
        let tally = self.due(inputs, delta);
        if mid.starved() || survivors(mid.snakes).len() == 0 {
            next.is_fresh()
        } else {
            &&& next.score == mid.score
            &&& next.double_food_time_left == mid.double_food_time_left
            &&& next.snakes == survivors(mid.snakes)
            &&& if mid.foods.len() == 0 && tally == 0 {
                mid.restocked(GameView { snakes: mid.snakes, ..next })
            } else {
                spawned(mid.snakes, mid.foods, tally, next.foods)
            }
        }
    }
}

/// A fresh game is well formed.
pub proof fn lemma_fresh_wf(g: GameView)
    requires
        g.is_fresh(),
    ensures
        g.wf(),
{
    assert(initial_snake().wf());
    assert(g.snakes[0] == initial_snake());
}

impl Game {
    pub open spec fn wf(&self) -> bool {
        self@.wf()
    }

    /// Whether the game is well formed.
    pub fn is_valid(&self) -> (r: bool)
        ensures
            r == self.wf(),
    {
        let n: usize = self.snakes.len();
        let m: usize = self.foods.len();
        if n == 0 || m == 0 || m > MAX_FOODS {
            return false;
        }
        let mut i: usize = 0;
        while i < n
            invariant
                i <= n,
                n == self.snakes@.len(),
                forall|k: int| 0 <= k < i ==> (#[trigger] self@.snakes[k]).wf(),
            decreases n - i,
        {
            if !self.snakes[i].is_valid() {
                assert(!self@.snakes[i as int].wf());
                return false;
            }
            i = i + 1;
        }
        let mut j: usize = 0;
        while j < m
            invariant
                j <= m,
                m == self.foods@.len(),
                forall|k: int| 0 <= k < j ==> (#[trigger] self.foods@[k]).food.position.in_grid(),
                forall|a: int, b: int|
                    0 <= a < b < j ==> (#[trigger] self.foods@[a]).food.position != (
                    #[trigger] self.foods@[b]).food.position,
            decreases m - j,
        {
            let position = self.foods[j].food.position;
            if !position.in_grid() {
                return false;
            }
            let mut a: usize = 0;
            while a < j
                invariant
                    a <= j,
                    j < m,
                    m == self.foods@.len(),
                    position == self.foods@[j as int].food.position,
                    forall|k: int|
                        0 <= k < a ==> (#[trigger] self.foods@[k]).food.position != position,
                decreases j - a,
            {
                if self.foods[a].food.position == position {
                    return false;
                }
                a = a + 1;
            }
            j = j + 1;
        }
        true
    }

    /// A game at its start. The cell of the food is drawn at random.
    pub fn new() -> (r: Game)
        ensures
            r@.is_fresh(),
            r.wf(),
    {
        let mut snakes: Vec<Snake> = Vec::new();
        snakes.push(Snake::new(Cell::new(NUM_COLS / 2, NUM_ROWS / 2), Cell::right(), 3));
        let mut foods: Vec<FoodEntry> = Vec::new();
        proof {
            assert(views(snakes@) =~= seq![initial_snake()]);
            let corner = Cell { x: 0, y: 0 };
            let s = initial_snake();
            assert(s.segments[0] == Cell { x: 10, y: 10 });
            assert(s.segments[1] == Cell { x: 9, y: 10 });
            assert(s.segments[2] == Cell { x: 8, y: 10 });
            assert(!s.covers(corner));
            assert(is_free(views(snakes@), foods@, corner));
            lemma_free_cells(views(snakes@), foods@);
            assert(free_cells(views(snakes@), foods@).contains(corner));
        }
        let position = random_food_location(&snakes, &foods).unwrap();
        foods.push(FoodEntry { food: Food { typ: FoodType::Grow, position }, time_left: 0 });
        let r = Game { score: 0, snakes, foods, double_food_time_left: 0 };
        proof {
            lemma_fresh_wf(r@);
        }
        r
    }

    /// Offers every direction of `inputs`, in order, to every snake.
    pub fn queue_inputs(&mut self, inputs: &Vec<Cell>)
        requires
            old(self)@.sound(),
        ensures
            final(self)@ == old(self)@.queue_inputs(inputs@),
            final(self)@.sound(),
    {
        let n: usize = self.snakes.len();
        let mut j: usize = 0;
        while j < n
            invariant
                j <= n,
                n == self.snakes@.len(),
                n == old(self).snakes@.len(),
                self.score == old(self).score,
                self.foods == old(self).foods,
                self.double_food_time_left == old(self).double_food_time_left,
                all_wf(views(self.snakes@)),
                forall|k: int|
                    0 <= k < n ==> (#[trigger] self.snakes@[k])@ == if k < j {
                        old(self).snakes@[k]@.queue_inputs(inputs@)
                    } else {
                        old(self).snakes@[k]@
                    },
            decreases n - j,
        {
            let ghost before = self.snakes@;
            assert(views(before)[j as int].wf());
            self.snakes[j].queue_inputs(inputs);
            assert forall|k: int| 0 <= k < n implies (#[trigger] views(self.snakes@)[k]).wf() by {
                if k != j {
                    assert(views(before)[k].wf());
                }
            }
            j = j + 1;
        }
        assert(self@.snakes =~= old(self)@.queue_inputs(inputs@).snakes);
    }

    /// Lets `delta` pass for the double-food window and for every snake.
    pub fn advance(&mut self, delta: u64)
        requires
            old(self)@.sound(),
        ensures
            final(self)@ == old(self)@.advance(delta),
            final(self)@.sound(),
    {
        self.double_food_time_left = self.double_food_time_left.saturating_sub(delta);
        let n: usize = self.snakes.len();
        let mut j: usize = 0;
        while j < n
            invariant
                j <= n,
                n == self.snakes@.len(),
                n == old(self).snakes@.len(),
                self.score == old(self).score,
                self.foods == old(self).foods,
                self.double_food_time_left == old(self).double_food_time_left.saturating_sub(
                    delta,
                ),
                all_wf(views(self.snakes@)),
                forall|k: int|
                    0 <= k < n ==> (#[trigger] self.snakes@[k])@ == if k < j {
                        old(self).snakes@[k]@.update(delta)
                    } else {
                        old(self).snakes@[k]@
                    },
            decreases n - j,
        {
            let ghost before = self.snakes@;
            assert(views(before)[j as int].wf());
            self.snakes[j].update(delta);
            assert forall|k: int| 0 <= k < n implies (#[trigger] views(self.snakes@)[k]).wf() by {
                if k != j {
                    assert(views(before)[k].wf());
                }
            }
            j = j + 1;
        }
        assert(self@.snakes =~= old(self)@.advance(delta).snakes);
    }

    /// Lets `delta` pass for the foods and drops those that expire.
    pub fn expire_foods(&mut self, delta: u64)
        requires
            old(self)@.sound(),
        ensures
            final(self)@ == old(self)@.expire_foods(delta),
            final(self)@.sound(),
    {
        let ghost fresh = |e: FoodEntry| !e.expires(delta);
        let ghost aged = |e: FoodEntry| e.aged(delta);
        let n: usize = self.foods.len();
        let mut kept: Vec<FoodEntry> = Vec::new();
        let mut i: usize = 0;
        proof {
            reveal(Seq::filter);
            assert(self.foods@.take(0).filter(fresh) =~= Seq::<FoodEntry>::empty());
        }
        while i < n
            invariant
                i <= n,
                n == self.foods@.len(),
                fresh == |e: FoodEntry| !e.expires(delta),
                aged == |e: FoodEntry| e.aged(delta),
                kept@ == self.foods@.take(i as int).filter(fresh).map_values(aged),
            decreases n - i,
        {
            let entry = self.foods[i];
            proof {
                assert(self.foods@.take(i + 1) =~= self.foods@.take(i as int).push(entry));
                self.foods@.take(i as int).lemma_filter_push(entry, fresh);
            }
            if !entry.expires(delta) {
                kept.push(entry.aged(delta));
                assert(kept@ =~= self.foods@.take(i + 1).filter(fresh).map_values(aged));
            }
            i = i + 1;
        }
        assert(self.foods@.take(n as int) =~= self.foods@);
        proof {
            lemma_expire_keeps_sound(old(self)@, delta);
        }
        self.foods = kept;
    }

    /// Spawns up to `tally` foods, each of a kind and on a free cell drawn
    /// at random, until the foods have reached `MAX_FOODS` or no cell is
    /// free.
    pub fn spawn_foods(&mut self, tally: usize)
        requires
            old(self)@.sound(),
        ensures
            spawned(old(self)@.snakes, old(self)@.foods, tally as nat, final(self)@.foods),
            final(self)@.score == old(self)@.score,
            final(self)@.snakes == old(self)@.snakes,
            final(self)@.double_food_time_left == old(self)@.double_food_time_left,
            final(self)@.sound(),
    {
        let ghost snakes = self@.snakes;
        let ghost before = self.foods@;
        let mut going: bool = true;
        let mut k: usize = 0;
        assert(self.foods@.take(before.len() as int) =~= before);
        while going && k < tally
            invariant
                k <= tally,
                self.score == old(self).score,
                self.snakes == old(self).snakes,
                self.double_food_time_left == old(self).double_food_time_left,
                snakes == views(self.snakes@),
                before == old(self).foods@,
                before.len() <= MAX_FOODS,
                self@.sound(),
                self.foods@.len() == before.len() + k,
                self.foods@.take(before.len() as int) == before,
                k > 0 ==> self.foods@.len() <= MAX_FOODS,
                !going ==> self.foods@.len() >= MAX_FOODS || free_cells(snakes, self.foods@).len()
                    == 0,
                forall|a: int|
                    before.len() <= a < self.foods@.len() ==> (#[trigger] self.foods@[a]).time_left
                        == FOOD_DESPAWN_TIME && is_free(
                        snakes,
                        self.foods@.take(a),
                        self.foods@[a].food.position,
                    ),
            decreases (tally - k) + (if going { 1int } else { 0int }),
        {
            if self.foods.len() >= MAX_FOODS {
                going = false;
            } else {
                match random_food_location(&self.snakes, &self.foods) {
                    None => {
                        going = false;
                    },
                    Some(position) => {
                        let typ = FoodType::gen_range(FoodType::min_value(), FoodType::max_value());
                        let ghost foods = self.foods@;
                        self.foods.push(
                            FoodEntry { food: Food { typ, position }, time_left: FOOD_DESPAWN_TIME },
                        );
                        k = k + 1;
                        proof {
                            lemma_push_free_keeps_sound(old(self)@.snakes, foods, self.foods@);
                            assert(self.foods@.take(before.len() as int) =~= foods.take(
                                before.len() as int,
                            ));
                            assert forall|a: int|
                                before.len() <= a < self.foods@.len() implies (
                            #[trigger] self.foods@[a]).time_left == FOOD_DESPAWN_TIME && is_free(
                                snakes,
                                self.foods@.take(a),
                                self.foods@[a].food.position,
                            ) by {
                                if a < foods.len() {
                                    assert(self.foods@.take(a) =~= foods.take(a));
                                    assert(self.foods@[a] == foods[a]);
                                } else {
                                    assert(self.foods@.take(a) =~= foods);
                                }
                            }
                        }
                    },
                }
            }
        }
    }

    /// Puts a `Grow` food on a free cell drawn at random if no food is on
    /// the grid. Returns whether a food is on the grid afterwards, which it
    /// is unless there was none and no cell is free.
    pub fn restock(&mut self) -> (stocked: bool)
        requires
            old(self)@.sound(),
        ensures
            stocked == !old(self)@.starved(),
            old(self)@.foods.len() > 0 || !stocked ==> final(self)@ == old(self)@,
            old(self)@.foods.len() == 0 && stocked ==> old(self)@.restocked(final(self)@),
            final(self)@.sound(),
    {
        if self.foods.len() > 0 {
            return true;
        }
        match random_food_location(&self.snakes, &self.foods) {
            None => false,
            Some(position) => {
                let ghost foods = self.foods@;
                self.foods.push(
                    FoodEntry {
                        food: Food { typ: FoodType::Grow, position },
                        time_left: FOOD_DESPAWN_TIME,
                    },
                );
                proof {
                    lemma_push_free_keeps_sound(old(self)@.snakes, foods, self.foods@);
                    assert(self.foods@.drop_last() =~= foods);
                }
                true
            },
        }
    }

    /// One frame: the inputs are offered to every snake; `delta`
    /// microseconds pass for the double-food window, the snakes and the
    /// foods; the snakes eat; foods are spawned for the eaten ones; and the
    /// snakes that left the grid or ran into a snake are removed. The game
    /// starts over if no food is left and no cell is free for one, or if no
    /// snake stays.
    pub fn update(self, inputs: &Vec<Cell>, delta: u64) -> (r: Game)
        requires
            self@.sound(),
        ensures
            self@.leads_to(inputs@, delta, r@),
            r.wf(),
            r@.foods.len() >= 1,
            r@.snakes.len() >= 1,
            foods_apart(r@.foods),
            r@.is_fresh() || r@.score >= self@.score,
    {
        let mut game = self;
        game.queue_inputs(inputs);
        game.advance(delta);
        game.expire_foods(delta);
        let tally = game.feed();
        let ghost mid = game@;
        let ghost due = self@.due(inputs@, delta);
        assert(mid == self@.fed(inputs@, delta));
        game.spawn_foods(tally);
        proof {
            lemma_spawned_clip(mid.snakes, mid.foods, due, game@.foods);
        }
        let ghost grown = game@;
        proof {
            lemma_free_cells(mid.snakes, mid.foods);
            if grown.foods.len() == 0 {
                assert(grown.foods =~= mid.foods);
            } else if mid.foods.len() == 0 {
                assert(grown.foods.take(0) =~= mid.foods);
                assert(is_free(mid.snakes, mid.foods, grown.foods[0].food.position));
                assert(free_cells(mid.snakes, mid.foods).contains(grown.foods[0].food.position));
            }
        }
        if !game.restock() {
            return Game::new();
        }
        let ghost stocked = game@;
        assert(!mid.starved());
        assert(stocked.snakes == mid.snakes);
        game.remove_terminated();
        if game.snakes.len() == 0 {
            return Game::new();
        }
        proof {
            if mid.foods.len() == 0 && due == 0 {
                assert(grown.foods.len() == 0);
                assert(mid.restocked(GameView { snakes: mid.snakes, ..game@ }));
            } else {
                assert(grown.foods.len() > 0);
                assert(spawned(mid.snakes, mid.foods, due, game@.foods));
            }
        }
        game
    }
}

/// Dropping and aging foods leaves a sound state sound.
pub proof fn lemma_expire_keeps_sound(g: GameView, delta: u64)
    requires
        g.sound(),
    ensures
        g.expire_foods(delta).sound(),
        g.expire_foods(delta).foods.len() <= g.foods.len(),
{
    let fresh = |e: FoodEntry| !e.expires(delta);
    let kept = g.foods.filter(fresh);
    let aged = g.expire_foods(delta).foods;
    g.foods.lemma_filter_len(fresh);
    lemma_filter_ascends(g.foods, fresh);
    assert forall|i: int| 0 <= i < aged.len() implies (#[trigger] aged[i]).food.position.in_grid() by {
        let a = choose|a: int| 0 <= a < g.foods.len() && g.foods[a] == kept[i];
    }
    assert forall|i: int, j: int| 0 <= i < j < aged.len() implies (#[trigger] aged[i]).food.position
        != (#[trigger] aged[j]).food.position by {
        let (a, b): (int, int) = choose|a: int, b: int|
            0 <= a < b < g.foods.len() && g.foods[a] == kept[i] && g.foods[b] == kept[j];
    }
}

/// What a filter keeps, it keeps in order: any two kept items come from two
/// places of the sequence that ascend likewise.
pub proof fn lemma_filter_ascends<A>(s: Seq<A>, pred: spec_fn(A) -> bool)
    ensures
        forall|i: int|
            0 <= i < s.filter(pred).len() ==> exists|a: int|
                0 <= a < s.len() && s[a] == #[trigger] s.filter(pred)[i],
        forall|i: int, j: int|
            0 <= i < j < s.filter(pred).len() ==> exists|a: int, b: int|
                0 <= a < b < s.len() && s[a] == #[trigger] s.filter(pred)[i] && s[b]
                    == #[trigger] s.filter(pred)[j],
    decreases s.len(),
{
    reveal(Seq::filter);
    if s.len() > 0 {
        let front = s.drop_last();
        let out = s.filter(pred);
        let sub = front.filter(pred);
        lemma_filter_ascends(front, pred);
        assert forall|i: int| 0 <= i < out.len() implies exists|a: int|
            0 <= a < s.len() && s[a] == #[trigger] out[i] by {
            if i < sub.len() {
                let a = choose|a: int| 0 <= a < front.len() && front[a] == sub[i];
                assert(s[a] == out[i]);
            } else {
                assert(s[s.len() - 1] == out[i]);
            }
        }
        assert forall|i: int, j: int| 0 <= i < j < out.len() implies exists|a: int, b: int|
            0 <= a < b < s.len() && s[a] == #[trigger] out[i] && s[b] == #[trigger] out[j] by {
            if j < sub.len() {
                let (a, b): (int, int) = choose|a: int, b: int|
                    0 <= a < b < front.len() && front[a] == sub[i] && front[b] == sub[j];
                assert(s[a] == out[i] && s[b] == out[j]);
            } else {
                let a = choose|a: int| 0 <= a < front.len() && front[a] == sub[i];
                assert(s[a] == out[i] && s[s.len() - 1] == out[j]);
            }
        }
    }
}

/// A sound state stays sound when a food is put on a free cell.
pub proof fn lemma_push_free_keeps_sound(
    snakes: Seq<SnakeView>,
    foods: Seq<FoodEntry>,
    more: Seq<FoodEntry>,
)
    requires
        foods_apart(foods),
        foods_on_grid(foods),
        more.len() == foods.len() + 1,
        more.drop_last() =~= foods,
        is_free(snakes, foods, more.last().food.position),
    ensures
        foods_apart(more),
        foods_on_grid(more),
{
    assert forall|i: int| 0 <= i < more.len() implies (#[trigger] more[i]).food.position.in_grid() by {
        if i < foods.len() {
            assert(more[i] == foods[i]);
        }
    }
    assert forall|i: int, j: int| 0 <= i < j < more.len() implies (#[trigger] more[i]).food.position
        != (#[trigger] more[j]).food.position by {
        assert(more[i] == foods[i]);
        if j < foods.len() {
            assert(more[j] == foods[j]);
        }
    }
}

/// Spawning for a tally that was cut down to the largest `usize` is
/// spawning for the tally itself: the foods are full long before.
pub proof fn lemma_spawned_clip(
    snakes: Seq<SnakeView>,
    before: Seq<FoodEntry>,
    tally: nat,
    after: Seq<FoodEntry>,
)
    requires
        before.len() <= MAX_FOODS,
        spawned(snakes, before, clip(tally) as nat, after),
    ensures
        spawned(snakes, before, tally, after),
{
}

} // verus!
