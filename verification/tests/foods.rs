use quad_rand::RandGenerator;
use xnake::food::{Food, FoodEntry, FoodType};

fn all_kinds() -> Vec<FoodType> {
    vec![
        FoodType::Grow,
        FoodType::DoubleFood,
        FoodType::Cut,
        FoodType::Slow,
        FoodType::Fast,
        FoodType::Reverse,
        FoodType::Multiply,
        FoodType::Invisible,
        FoodType::Portal,
    ]
}

#[test]
fn every_kind_has_its_score() {
    assert_eq!(FoodType::Grow.score(), 100);
    assert_eq!(FoodType::DoubleFood.score(), 200);
    assert_eq!(FoodType::Cut.score(), 500);
    assert_eq!(FoodType::Slow.score(), 200);
    assert_eq!(FoodType::Fast.score(), 500);
    assert_eq!(FoodType::Reverse.score(), 500);
    assert_eq!(FoodType::Multiply.score(), 300);
    assert_eq!(FoodType::Invisible.score(), 200);
    assert_eq!(FoodType::Portal.score(), 200);
}

#[test]
fn kinds_are_numbered_in_their_order() {
    let kinds = all_kinds();
    for (place, kind) in kinds.iter().enumerate() {
        assert_eq!(kind.to_u8() as usize, place);
        assert_eq!(FoodType::from_u8(place as u8), Some(*kind));
    }
}

#[test]
fn no_kind_lies_beyond_the_last() {
    for n in 9..=255u8 {
        assert_eq!(FoodType::from_u8(n), None);
    }
}

#[test]
fn grow_is_the_default_and_the_first_kind() {
    assert_eq!(FoodType::default(), FoodType::Grow);
    assert_eq!(FoodType::min_value(), FoodType::Grow);
    assert_eq!(FoodType::max_value(), FoodType::Portal);
}

#[test]
fn a_draw_from_a_single_kind_is_that_kind() {
    for kind in all_kinds() {
        for _ in 0..20 {
            assert_eq!(FoodType::gen_range(kind, kind), kind);
        }
    }
}

#[test]
fn a_draw_stays_between_its_bounds() {
    for _ in 0..500 {
        let kind = FoodType::gen_range(FoodType::Cut, FoodType::Reverse);
        assert!(2 <= kind.to_u8() && kind.to_u8() <= 5);
    }
}

#[test]
fn a_draw_over_all_kinds_yields_more_than_one() {
    let first = FoodType::gen_range(FoodType::min_value(), FoodType::max_value());
    let mut other = false;
    for _ in 0..500 {
        if FoodType::gen_range(FoodType::min_value(), FoodType::max_value()) != first {
            other = true;
        }
    }
    assert!(other);
}

#[test]
fn a_draw_with_descending_bounds_stays_above_the_upper() {
    for _ in 0..500 {
        let kind = FoodType::gen_range(FoodType::Portal, FoodType::Grow);
        assert!(1 <= kind.to_u8() && kind.to_u8() <= 8);
    }
}

#[test]
fn a_seeded_generator_yields_its_sequence() {
    let state = RandGenerator::new();
    state.srand(42);
    let drawn: Vec<u8> = (0..12)
        .map(|_| {
            FoodType::gen_range_with_state(&state, FoodType::Grow, FoodType::Portal).to_u8()
        })
        .collect();
    assert_eq!(drawn, vec![6, 3, 4, 2, 8, 3, 7, 7, 4, 8, 6, 3]);
}

#[test]
fn a_seeded_generator_respects_narrow_bounds() {
    let state = RandGenerator::new();
    state.srand(42);
    let drawn: Vec<u8> = (0..12)
        .map(|_| FoodType::gen_range_with_state(&state, FoodType::Slow, FoodType::Reverse).to_u8())
        .collect();
    assert_eq!(drawn, vec![5, 4, 4, 3, 5, 4, 5, 5, 4, 5, 5, 4]);
}

#[test]
fn equal_seeds_give_equal_draws() {
    let one = RandGenerator::new();
    let two = RandGenerator::new();
    one.srand(7);
    two.srand(7);
    for _ in 0..100 {
        assert_eq!(
            FoodType::gen_range_with_state(&one, FoodType::Grow, FoodType::Portal),
            FoodType::gen_range_with_state(&two, FoodType::Grow, FoodType::Portal)
        );
    }
}

#[test]
fn food_expires_when_its_time_is_exceeded() {
    let position = xnake::cell::Cell::new(1, 1);
    let cut = FoodEntry { food: Food { typ: FoodType::Cut, position }, time_left: 1_000 };
    assert!(!cut.expires(999));
    assert!(!cut.expires(1_000));
    assert!(cut.expires(1_001));
    assert_eq!(cut.aged(400).time_left, 600);
    assert_eq!(cut.aged(1_000).time_left, 0);
    assert_eq!(cut.aged(400).food, cut.food);
}

#[test]
fn grow_food_never_expires() {
    let position = xnake::cell::Cell::new(1, 1);
    let grow = FoodEntry { food: Food { typ: FoodType::Grow, position }, time_left: 0 };
    assert!(!grow.expires(1));
    assert!(!grow.expires(u64::MAX));
    assert_eq!(grow.aged(u64::MAX).time_left, 0);
}
