//! The kinds of food, their scores, and a food on the grid.

use quad_rand::RandGenerator;
use vstd::prelude::*;

use crate::cell::Cell;
use crate::random::{gen_range_u8, gen_range_u8_with_state};

verus! {

/// What a food does to the snake that eats it, besides making it grow. The
/// kinds are ordered as they are listed.
#[derive(Debug, Clone, Copy, PartialEq, Eq, Hash, Structural)]
pub enum FoodType {
    /// Nothing more.
    Grow,
    /// For a while, every eaten food is replaced by two.
    DoubleFood,
    /// The snake loses the rear half of its body.
    Cut,
    /// The snake takes half the time per step for a while.
    Slow,
    /// The snake takes more time per step for a while.
    Fast,
    /// The snake turns end for end.
    Reverse,
    /// Two new snakes appear beside the snake.
    Multiply,
    /// The snake cannot collide for a while.
    Invisible,
    /// The snake wraps around the grid for a while.
    Portal,
}

/// A food of some kind at some position.
#[derive(Debug, Clone, Copy, PartialEq, Eq, Hash, Structural)]
pub struct Food {
    pub typ: FoodType,
    pub position: Cell,
}

/// A food together with the time after which it disappears.
#[derive(Debug, Clone, Copy, PartialEq, Eq, Hash, Structural)]
pub struct FoodEntry {
    pub food: Food,
    pub time_left: u64,
}

impl Default for FoodType {
    fn default() -> (r: FoodType)
        ensures
            r == FoodType::Grow,
    {
        FoodType::Grow
    }
}

impl FoodType {
    pub open spec fn spec_score(self) -> u32 {
        match self {
            FoodType::Grow => 100,
            FoodType::DoubleFood => 200,
            FoodType::Cut => 500,
            FoodType::Slow => 200,
            FoodType::Fast => 500,
            FoodType::Reverse => 500,
            FoodType::Multiply => 300,
            FoodType::Invisible => 200,
            FoodType::Portal => 200,
        }
    }

    /// The place of the kind in the order of the kinds, counted from zero.
    pub open spec fn spec_to_u8(self) -> u8 {
        match self {
            FoodType::Grow => 0,
            FoodType::DoubleFood => 1,
            FoodType::Cut => 2,
            FoodType::Slow => 3,
            FoodType::Fast => 4,
            FoodType::Reverse => 5,
            FoodType::Multiply => 6,
            FoodType::Invisible => 7,
            FoodType::Portal => 8,
        }
    }

    /// The kind at place `n`, if there is one.
    pub open spec fn spec_from_u8(n: u8) -> Option<FoodType> {
        match n {
            0 => Some(FoodType::Grow),
            1 => Some(FoodType::DoubleFood),
            2 => Some(FoodType::Cut),
            3 => Some(FoodType::Slow),
            4 => Some(FoodType::Fast),
            5 => Some(FoodType::Reverse),
            6 => Some(FoodType::Multiply),
            7 => Some(FoodType::Invisible),
            8 => Some(FoodType::Portal),
            _ => None,
        }
    }

    /// The points that eating a food of this kind is worth.
    #[verifier::when_used_as_spec(spec_score)]
    pub fn score(self) -> (r: u32)
        ensures
            r == self.spec_score(),
            r > 0,
    {
        match self {
            FoodType::Grow => 100,
            FoodType::DoubleFood => 200,
            FoodType::Cut => 500,
            FoodType::Slow => 200,
            FoodType::Fast => 500,
            FoodType::Reverse => 500,
            FoodType::Multiply => 300,
            FoodType::Invisible => 200,
            FoodType::Portal => 200,
        }
    }

    /// The place of the kind in the order of the kinds, counted from zero.
    #[verifier::when_used_as_spec(spec_to_u8)]
    pub fn to_u8(self) -> (r: u8)
        ensures
            r == self.spec_to_u8(),
            r <= 8,
            FoodType::spec_from_u8(r) == Some(self),
    {
        match self {
            FoodType::Grow => 0,
            FoodType::DoubleFood => 1,
            FoodType::Cut => 2,
            FoodType::Slow => 3,
            FoodType::Fast => 4,
            FoodType::Reverse => 5,
            FoodType::Multiply => 6,
            FoodType::Invisible => 7,
            FoodType::Portal => 8,
        }
    }

    /// The kind at place `n`, if `n` is at most eight.
    #[verifier::when_used_as_spec(spec_from_u8)]
    pub fn from_u8(n: u8) -> (r: Option<FoodType>)
        ensures
            r == FoodType::spec_from_u8(n),
            r is Some <==> n <= 8,
            r matches Some(t) ==> t.spec_to_u8() == n,
    {
        match n {
            0 => Some(FoodType::Grow),
            1 => Some(FoodType::DoubleFood),
            2 => Some(FoodType::Cut),
            3 => Some(FoodType::Slow),
            4 => Some(FoodType::Fast),
            5 => Some(FoodType::Reverse),
            6 => Some(FoodType::Multiply),
            7 => Some(FoodType::Invisible),
            8 => Some(FoodType::Portal),
            _ => None,
        }
    }

    /// The first kind.
    pub fn min_value() -> (r: FoodType)
        ensures
            r == FoodType::Grow,
            forall|t: FoodType| r.spec_to_u8() <= t.spec_to_u8(),
    {
        FoodType::Grow
    }

    /// The last kind.
    pub fn max_value() -> (r: FoodType)
        ensures
            r == FoodType::Portal,
            forall|t: FoodType| t.spec_to_u8() <= r.spec_to_u8(),
    {
        FoodType::Portal
    }

    /// Whether a draw between `low` and `high` may yield `self`: from `low`
    /// to `high`, both included, if they ascend, and otherwise from the kind
    /// after `high` to `low`.
    pub open spec fn within(self, low: FoodType, high: FoodType) -> bool {
        if low.spec_to_u8() <= high.spec_to_u8() {
            low.spec_to_u8() <= self.spec_to_u8() <= high.spec_to_u8()
        } else {
            high.spec_to_u8() < self.spec_to_u8() <= low.spec_to_u8()
        }
    }

    /// A kind drawn between `low` and `high` from the generator that the
    /// whole process shares.
    pub fn gen_range(low: FoodType, high: FoodType) -> (r: FoodType)
        ensures
            r.within(low, high),
    {
        let n: u8 = gen_range_u8(low.to_u8(), high.to_u8() + 1);
        FoodType::from_u8(n).unwrap()
    }

    /// A kind drawn between `low` and `high` from `state`.
    pub fn gen_range_with_state(state: &RandGenerator, low: FoodType, high: FoodType) -> (r:
        FoodType)
        ensures
            r.within(low, high),
    {
        let n: u8 = gen_range_u8_with_state(state, low.to_u8(), high.to_u8() + 1);
        FoodType::from_u8(n).unwrap()
    }
}

impl FoodEntry {
    /// Whether the food is gone once `delta` has passed: it had less time
    /// left than that, and is of a kind that time removes.
    pub open spec fn spec_expires(self, delta: u64) -> bool {
        self.time_left < delta && self.food.typ != FoodType::Grow
    }

    /// The entry after `delta` has passed.
    pub open spec fn spec_aged(self, delta: u64) -> FoodEntry {
        FoodEntry { time_left: self.time_left.saturating_sub(delta), ..self }
    }

    #[verifier::when_used_as_spec(spec_expires)]
    pub fn expires(self, delta: u64) -> (r: bool)
        ensures
            r == self.spec_expires(delta),
    {
        self.time_left < delta && self.food.typ != FoodType::Grow
    }

    #[verifier::when_used_as_spec(spec_aged)]
    pub fn aged(self, delta: u64) -> (r: FoodEntry)
        ensures
            r == self.spec_aged(delta),
    {
        FoodEntry { food: self.food, time_left: self.time_left.saturating_sub(delta) }
    }
}

} // verus!
