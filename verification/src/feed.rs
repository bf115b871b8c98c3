//! The eating pass of a frame: every food is offered to every snake, and a
//! snake whose head is on the food eats it.

use vstd::prelude::*;

use crate::cell::Cell;
use crate::config::DOUBLE_FOOD_TIME;
use crate::food::{Food, FoodEntry, FoodType};
use crate::game::{foods_apart, foods_on_grid, Game, GameView};
use crate::snake::{Snake, SnakeView};
use crate::spawn::{all_wf, views};

verus! {

/// The state of an eating pass.
pub struct Feeding {
    pub snakes: Seq<SnakeView>,
    pub score: u32,
    pub double_food_time_left: u64,
    /// The number of foods that are to be spawned for the eaten ones.
    pub tally: nat,
    /// The snakes that splits have brought forth so far.
    pub born: Seq<SnakeView>,
    /// The foods that were offered and not eaten.
    pub left: Seq<FoodEntry>,
    /// Whether the food that is on offer has been eaten.
    pub eaten: bool,
}

impl Feeding {
    /// Snake `j` eats `food` if its head is on it: the score rises by the
    /// score of the kind, up to the largest score that fits; `DoubleFood`
    /// opens the double-food window and `Multiply` brings forth the two
    /// neighbors of the snake; the snake takes the effect and grows; and
    /// one food is to be spawned, or two while the window is open.
    pub open spec fn bite(self, food: Food, j: int) -> Feeding {
        let snake = self.snakes[j];
        if snake.eats(food.position) {
            let double_food_time_left = if food.typ == FoodType::DoubleFood {
                DOUBLE_FOOD_TIME
            } else {
                self.double_food_time_left
            };
            Feeding {
                snakes: self.snakes.update(j, snake.eat(food.typ)),
                score: self.score.saturating_add(food.typ.score()),
                double_food_time_left,
                tally: self.tally + if double_food_time_left > 0 {
                    2nat
                } else {
                    1nat
                },
                born: if food.typ == FoodType::Multiply {
                    self.born.push(snake.neighbor(Cell { x: 0, y: 1 })).push(
                        snake.neighbor(Cell { x: 0, y: -1i32 }),
                    )
                } else {
                    self.born
                },
                eaten: true,
                ..self
            }
        } else {
            self
        }
    }

    /// `food` is offered to the first `n` snakes, in order.
    pub open spec fn offer(self, food: Food, n: nat) -> Feeding
        decreases n,
    {
        if n == 0 {
            self
        } else {
            self.offer(food, (n - 1) as nat).bite(food, n - 1)
        }
    }

    /// `entry` is offered to every snake, and is left if none eats it.
    pub open spec fn serve(self, entry: FoodEntry) -> Feeding {
        let after = (Feeding { eaten: false, ..self }).offer(entry.food, self.snakes.len());
        if after.eaten {
            after
        } else {
            Feeding { left: after.left.push(entry), ..after }
        }
    }

    /// The foods are served one after the other.
    pub open spec fn serve_all(self, foods: Seq<FoodEntry>) -> Feeding
        decreases foods.len(),
    {
        if foods.len() == 0 {
            self
        } else {
            self.serve_all(foods.drop_last()).serve(foods.last())
        }
    }
}

impl GameView {
    /// The eating pass over the foods of the game, from the oldest on.
    pub open spec fn feeding(self) -> Feeding {
        (Feeding {
            snakes: self.snakes,
            score: self.score,
            double_food_time_left: self.double_food_time_left,
            tally: 0,
            born: Seq::empty(),
            left: Seq::empty(),
            eaten: false,
        }).serve_all(self.foods)
    }

    /// The game after the eating pass: the eaten foods are gone, and the
    /// snakes that splits brought forth have joined the roster at its end.
    pub open spec fn feed(self) -> GameView {
        let f = self.feeding();
        GameView {
            score: f.score,
            snakes: f.snakes + f.born,
            foods: f.left,
            double_food_time_left: f.double_food_time_left,
        }
    }

    /// The number of foods that are to be spawned after the eating pass.
    pub open spec fn tally(self) -> nat {
        self.feeding().tally
    }
}

/// Offering a food never lowers the score, and keeps the number of snakes.
pub proof fn lemma_offer_keeps_score(f: Feeding, food: Food, n: nat)
    requires
        n <= f.snakes.len(),
    ensures
        f.offer(food, n).score >= f.score,
        f.offer(food, n).snakes.len() == f.snakes.len(),
    decreases n,
{
    if n > 0 {
        lemma_offer_keeps_score(f, food, (n - 1) as nat);
    }
}

/// Serving foods never lowers the score, and keeps the number of snakes.
pub proof fn lemma_serve_all_keeps_score(f: Feeding, foods: Seq<FoodEntry>)
    ensures
        f.serve_all(foods).score >= f.score,
        f.serve_all(foods).snakes.len() == f.snakes.len(),
    decreases foods.len(),
{
    if foods.len() > 0 {
        let before = f.serve_all(foods.drop_last());
        lemma_serve_all_keeps_score(f, foods.drop_last());
        lemma_offer_keeps_score(
            Feeding { eaten: false, ..before },
            foods.last().food,
            before.snakes.len(),
        );
    }
}

/// `n` as a `usize`, or the largest `usize` if `n` does not fit.
pub open spec fn clip(n: nat) -> usize {
    if n > usize::MAX {
        usize::MAX
    } else {
        n as usize
    }
}

impl Game {
    /// The eating pass. Returns the number of foods that are to be spawned,
    /// or the largest `usize` if it does not fit.
    pub fn feed(&mut self) -> (tally: usize)
        requires
            old(self)@.sound(),
        ensures
            final(self)@ == old(self)@.feed(),
            tally == clip(old(self)@.tally()),
            final(self)@.sound(),
            final(self).snakes@.len() >= old(self).snakes@.len(),
            final(self)@.score >= old(self)@.score,
    {
        let ghost start = Feeding {
            snakes: self@.snakes,
            score: self.score,
            double_food_time_left: self.double_food_time_left,
            tally: 0,
            born: Seq::empty(),
            left: Seq::empty(),
            eaten: false,
        };
        proof {
            lemma_serve_all_keeps_score(start, self.foods@);
        }
        let ghost mut st = start;
        let mut tally: usize = 0;
        let mut born: Vec<Snake> = Vec::new();
        let mut left: Vec<FoodEntry> = Vec::new();
        let n: usize = self.foods.len();
        let m: usize = self.snakes.len();
        let mut i: usize = 0;
        assert(views(born@) =~= Seq::<SnakeView>::empty());
        while i < n
            invariant
                i <= n,
                n == self.foods@.len(),
                self.foods == old(self).foods,
                foods_apart(self.foods@),
                foods_on_grid(self.foods@),
                m == self.snakes@.len(),
                m == old(self).snakes@.len(),
                st == start.serve_all(self.foods@.take(i as int)),
                st.snakes == views(self.snakes@),
                st.score == self.score,
                st.double_food_time_left == self.double_food_time_left,
                tally == clip(st.tally),
                st.born == views(born@),
                st.left == left@,
                all_wf(views(self.snakes@)),
                all_wf(views(born@)),
                left@.len() <= i,
                forall|a: int|
                    0 <= a < left@.len() ==> exists|b: int|
                        0 <= b < i && #[trigger] self.foods@[b] == #[trigger] left@[a],
                foods_apart(left@),
            decreases n - i,
        {
            let entry = self.foods[i];
            let ghost before = st;
            proof {
                st = Feeding { eaten: false, ..st };
            }
            let mut eaten = false;
            let mut j: usize = 0;
            while j < m
                invariant
                    j <= m,
                    i < n,
                    n == self.foods@.len(),
                    self.foods == old(self).foods,
                    entry == self.foods@[i as int],
                    m == self.snakes@.len(),
                    m == before.snakes.len(),
                    st == (Feeding { eaten: false, ..before }).offer(entry.food, j as nat),
                    st.snakes == views(self.snakes@),
                    st.score == self.score,
                    st.double_food_time_left == self.double_food_time_left,
                    tally == clip(st.tally),
                    st.born == views(born@),
                    st.left == left@,
                    st.eaten == eaten,
                    all_wf(views(self.snakes@)),
                    all_wf(views(born@)),
                decreases m - j,
            {
                let ghost snakes_before = self.snakes@;
                let ghost born_before = born@;
                assert(views(snakes_before)[j as int].wf());
                if self.snakes[j].eats(entry.food.position) {
                    eaten = true;
                    self.score = self.score.saturating_add(entry.food.typ.score());
                    if entry.food.typ == FoodType::DoubleFood {
                        self.double_food_time_left = DOUBLE_FOOD_TIME;
                    }
                    if entry.food.typ == FoodType::Multiply {
                        let (first, second) = self.snakes[j].spawn_neighbors();
                        born.push(first);
                        born.push(second);
                        assert(views(born@) =~= views(born_before).push(first@).push(second@));
                        assert forall|k: int| 0 <= k < born@.len() implies (#[trigger] views(
                            born@,
                        )[k]).wf() by {
                            if k < born_before.len() {
                                assert(views(born_before)[k].wf());
                            }
                        }
                    }
                    self.snakes[j].eat(entry.food.typ);
                    tally = tally.saturating_add(
                        if self.double_food_time_left > 0 {
                            2
                        } else {
                            1
                        },
                    );
                    assert(views(self.snakes@) =~= views(snakes_before).update(
                        j as int,
                        views(snakes_before)[j as int].eat(entry.food.typ),
                    ));
                    assert forall|k: int| 0 <= k < m implies (#[trigger] views(
                        self.snakes@,
                    )[k]).wf() by {
                        if k != j {
                            assert(views(snakes_before)[k].wf());
                        }
                    }
                }
                proof {
                    st = st.bite(entry.food, j as int);
                }
                j = j + 1;
            }
            proof {
                assert(self.foods@.take(i + 1).drop_last() =~= self.foods@.take(i as int));
                assert(self.foods@.take(i + 1).last() == entry);
                st = if st.eaten {
                    st
                } else {
                    Feeding { left: st.left.push(entry), ..st }
                };
            }
            if !eaten {
                left.push(entry);
            }
            i = i + 1;
        }
        assert(self.foods@.take(n as int) =~= self.foods@);
        self.foods = left;
        let ghost snakes_before = self.snakes@;
        self.snakes.append(&mut born);
        proof {
            assert(views(self.snakes@) =~= views(snakes_before) + st.born);
            assert forall|k: int| 0 <= k < self.snakes@.len() implies (#[trigger] views(
                self.snakes@,
            )[k]).wf() by {
                if k < m {
                    assert(views(snakes_before)[k].wf());
                } else {
                    assert(st.born[k - m].wf());
                }
            }
        }
        tally
    }
}

} // verus!
