use xnake::cell::Cell;
use xnake::config::{
    INIT_TICK_RATE, INVISIBLE_TIME, PORTAL_TIME, SLOW_DOWN_STEP, SPEED_CHANGE_TIME,
};
use xnake::food::FoodType;
use xnake::snake::Snake;

fn c(x: i32, y: i32) -> Cell {
    Cell { x, y }
}

fn straight(len: i32) -> Snake {
    Snake::new(c(10, 10), Cell::right(), len)
}

#[test]
fn new_snake_lies_behind_its_head() {
    let snake = straight(3);
    assert_eq!(snake.segments, vec![c(10, 10), c(9, 10), c(8, 10)]);
    assert_eq!(snake.dir, Cell::right());
    assert_eq!(snake.time, 0);
    assert_eq!(snake.tick_rate, INIT_TICK_RATE);
    assert!(snake.input_queue.is_empty());
    assert_eq!(snake.portal_time_left, 0);
    assert_eq!(snake.invisible_time_left, 0);
    assert_eq!(snake.speed_change_time_left, 0);
    let down = Snake::new(c(0, 0), Cell::down(), 2);
    assert_eq!(down.segments, vec![c(0, 0), c(0, -1)]);
}

#[test]
fn step_without_input_moves_straight_on() {
    let mut snake = straight(3);
    snake.step();
    assert_eq!(snake.segments, vec![c(11, 10), c(10, 10), c(9, 10)]);
    assert_eq!(snake.dir, Cell::right());
}

#[test]
fn step_takes_the_oldest_pending_turn() {
    let mut snake = straight(3);
    snake.queue_input(Cell::down());
    snake.queue_input(Cell::left());
    snake.step();
    assert_eq!(snake.dir, Cell::down());
    assert_eq!(snake.segments, vec![c(10, 11), c(10, 10), c(9, 10)]);
    assert_eq!(snake.input_queue, vec![Cell::left()]);
    snake.step();
    assert_eq!(snake.dir, Cell::left());
    assert_eq!(snake.segments, vec![c(9, 11), c(10, 11), c(10, 10)]);
    assert!(snake.input_queue.is_empty());
}

#[test]
fn reversal_is_rejected_and_a_turn_accepted() {
    let mut snake = straight(3);
    snake.queue_input(Cell::left());
    assert!(snake.input_queue.is_empty());
    snake.queue_input(Cell::down());
    assert_eq!(snake.input_queue, vec![Cell::down()]);
}

#[test]
fn reversal_of_the_last_pending_turn_is_rejected() {
    let mut snake = straight(3);
    snake.queue_input(Cell::down());
    snake.queue_input(Cell::up());
    assert_eq!(snake.input_queue, vec![Cell::down()]);
    snake.queue_input(Cell::left());
    assert_eq!(snake.input_queue, vec![Cell::down(), Cell::left()]);
    assert_eq!(snake.last_input(), Cell::left());
}

#[test]
fn input_queue_holds_three_turns() {
    let mut snake = straight(3);
    snake.queue_inputs(&vec![Cell::down(), Cell::left(), Cell::up(), Cell::right()]);
    assert_eq!(snake.input_queue, vec![Cell::down(), Cell::left(), Cell::up()]);
    snake.queue_input(Cell::right());
    assert_eq!(snake.input_queue.len(), 3);
}

#[test]
fn the_same_direction_may_be_queued_again() {
    let mut snake = straight(3);
    snake.queue_input(Cell::right());
    snake.queue_input(Cell::right());
    assert_eq!(snake.input_queue, vec![Cell::right(), Cell::right()]);
}

#[test]
fn last_input_is_the_heading_when_nothing_is_pending() {
    let snake = straight(3);
    assert_eq!(snake.last_input(), Cell::right());
}

#[test]
fn direction_never_turns_straight_back() {
    let offers = [
        Cell::left(),
        Cell::down(),
        Cell::up(),
        Cell::left(),
        Cell::right(),
        Cell::right(),
        Cell::up(),
        Cell::down(),
        Cell::left(),
        Cell::left(),
        Cell::up(),
        Cell::right(),
    ];
    let mut snake = Snake::new(c(0, 0), Cell::right(), 4);
    for round in 0..40 {
        snake.queue_input(offers[round % offers.len()]);
        snake.queue_input(offers[(round * 7 + 3) % offers.len()]);
        let before = snake.dir;
        snake.step();
        assert_ne!(snake.dir, before.negate());
        assert_eq!(snake.segments.len(), 4);
    }
}

#[test]
fn step_leaves_the_grid_without_a_portal() {
    let mut snake = Snake::new(c(19, 10), Cell::right(), 3);
    assert!(!snake.is_outside());
    snake.step();
    assert_eq!(snake.head(), c(20, 10));
    assert!(snake.is_outside());
}

#[test]
fn step_wraps_with_a_portal() {
    let mut snake = Snake::new(c(19, 10), Cell::right(), 3);
    snake.portal();
    assert!(snake.can_portal());
    snake.step();
    assert_eq!(snake.segments, vec![c(0, 10), c(19, 10), c(18, 10)]);
    assert!(!snake.is_outside());
    let mut up = Snake::new(c(4, 0), Cell::up(), 2);
    up.portal();
    up.step();
    assert_eq!(up.head(), c(4, 19));
}

#[test]
fn portal_brings_a_far_head_back_onto_the_grid() {
    let mut snake = Snake::new(c(1000, -500), Cell::right(), 3);
    snake.portal();
    snake.step();
    assert_eq!(snake.head(), c(1, 0));
    let mut far = Snake::new(c(i32::MAX, i32::MIN), Cell::right(), 2);
    far.portal();
    far.step();
    assert!(far.head().in_grid());
    assert_eq!(far.head(), c(12, 12));
}

#[test]
fn update_takes_no_step_until_the_tick_is_exceeded() {
    let mut snake = straight(3);
    snake.update(INIT_TICK_RATE);
    assert_eq!(snake.head(), c(10, 10));
    assert_eq!(snake.time, INIT_TICK_RATE);
    snake.update(1);
    assert_eq!(snake.head(), c(11, 10));
    assert_eq!(snake.time, 1);
}

#[test]
fn update_takes_a_step_for_every_tick() {
    let mut snake = straight(3);
    snake.update(500_000);
    assert_eq!(snake.segments, vec![c(12, 10), c(11, 10), c(10, 10)]);
    assert_eq!(snake.time, 100_000);
    snake.update(0);
    assert_eq!(snake.head(), c(12, 10));
    snake.update(1_000_000);
    assert_eq!(snake.head(), c(17, 10));
    assert_eq!(snake.time, 100_000);
}

#[test]
fn update_on_an_exact_multiple_keeps_one_tick() {
    let mut snake = straight(3);
    snake.update(600_000);
    assert_eq!(snake.head(), c(12, 10));
    assert_eq!(snake.time, 200_000);
}

#[test]
fn update_spends_pending_turns_one_per_step() {
    let mut snake = straight(3);
    snake.queue_inputs(&vec![Cell::down(), Cell::left()]);
    snake.update(700_000);
    assert_eq!(snake.segments, vec![c(8, 11), c(9, 11), c(10, 11)]);
    assert_eq!(snake.dir, Cell::left());
    assert_eq!(snake.time, 100_000);
}

#[test]
fn update_decays_the_effects() {
    let mut snake = straight(3);
    snake.portal();
    snake.invisible();
    snake.update(1_000_000);
    assert_eq!(snake.portal_time_left, PORTAL_TIME - 1_000_000);
    assert_eq!(snake.invisible_time_left, INVISIBLE_TIME - 1_000_000);
    snake.update(PORTAL_TIME);
    assert_eq!(snake.portal_time_left, 0);
    assert_eq!(snake.invisible_time_left, 0);
    assert!(!snake.can_portal());
    assert!(!snake.is_invisible());
}

#[test]
fn update_with_a_huge_delta_saturates_the_time() {
    let mut snake = straight(3);
    snake.time = u64::MAX - 5;
    snake.tick_rate = u64::MAX - 1;
    snake.speed_change_time_left = u64::MAX;
    snake.update(10);
    assert_eq!(snake.time, 1);
    assert_eq!(snake.head(), c(11, 10));
    assert_eq!(snake.tick_rate, u64::MAX - 1);
}

#[test]
fn speed_up_halves_the_tick_and_wears_off() {
    let mut snake = straight(3);
    snake.speed_up();
    assert_eq!(snake.tick_rate, INIT_TICK_RATE / 2);
    assert_eq!(snake.speed_change_time_left, SPEED_CHANGE_TIME);
    snake.update(250_000);
    assert_eq!(snake.head(), c(12, 10));
    assert_eq!(snake.time, 50_000);
    assert_eq!(snake.tick_rate, INIT_TICK_RATE / 2);
    snake.update(SPEED_CHANGE_TIME - 250_000);
    assert_eq!(snake.speed_change_time_left, 0);
    assert_eq!(snake.tick_rate, INIT_TICK_RATE);
}

#[test]
fn speed_up_never_reaches_zero() {
    let mut snake = straight(3);
    for _ in 0..100 {
        snake.speed_up();
    }
    assert_eq!(snake.tick_rate, 1);
    snake.tick_rate = 3;
    snake.speed_up();
    assert_eq!(snake.tick_rate, 1);
}

#[test]
fn slow_down_lengthens_the_tick() {
    let mut snake = straight(3);
    snake.slow_down();
    assert_eq!(snake.tick_rate, INIT_TICK_RATE + SLOW_DOWN_STEP);
    assert_eq!(snake.speed_change_time_left, SPEED_CHANGE_TIME);
    snake.slow_down();
    assert_eq!(snake.tick_rate, INIT_TICK_RATE + 2 * SLOW_DOWN_STEP);
    snake.tick_rate = u64::MAX - 1;
    snake.slow_down();
    assert_eq!(snake.tick_rate, u64::MAX);
}

#[test]
fn grow_doubles_the_last_segment() {
    let mut snake = straight(3);
    snake.grow();
    assert_eq!(snake.segments, vec![c(10, 10), c(9, 10), c(8, 10), c(8, 10)]);
    snake.step();
    assert_eq!(snake.segments, vec![c(11, 10), c(10, 10), c(9, 10), c(8, 10)]);
}

#[test]
fn cut_keeps_the_front_half_rounded_up() {
    let mut five = straight(5);
    five.cut();
    assert_eq!(five.segments, vec![c(10, 10), c(9, 10), c(8, 10)]);
    let mut four = straight(4);
    four.cut();
    assert_eq!(four.segments, vec![c(10, 10), c(9, 10)]);
    let mut one = straight(1);
    one.cut();
    assert_eq!(one.segments, vec![c(10, 10)]);
    let mut two = straight(2);
    two.cut();
    assert_eq!(two.segments.len(), 1);
}

#[test]
fn eating_applies_the_effect_and_then_grows() {
    let mut snake = straight(5);
    snake.eat(FoodType::Cut);
    assert_eq!(snake.segments, vec![c(10, 10), c(9, 10), c(8, 10), c(8, 10)]);
    let mut plain = straight(3);
    plain.eat(FoodType::Grow);
    assert_eq!(plain.segments.len(), 4);
    let mut fast = straight(3);
    fast.eat(FoodType::Slow);
    assert_eq!(fast.tick_rate, INIT_TICK_RATE / 2);
    let mut slow = straight(3);
    slow.eat(FoodType::Fast);
    assert_eq!(slow.tick_rate, INIT_TICK_RATE + SLOW_DOWN_STEP);
    let mut ghost = straight(3);
    ghost.eat(FoodType::Invisible);
    assert_eq!(ghost.invisible_time_left, INVISIBLE_TIME);
    let mut wrap = straight(3);
    wrap.eat(FoodType::Portal);
    assert_eq!(wrap.portal_time_left, PORTAL_TIME);
    let mut turned = straight(3);
    turned.eat(FoodType::Reverse);
    assert_eq!(turned.segments, vec![c(8, 10), c(9, 10), c(10, 10), c(10, 10)]);
    assert_eq!(turned.dir, Cell::left());
    let mut same = straight(3);
    same.eat(FoodType::Multiply);
    same.eat(FoodType::DoubleFood);
    assert_eq!(same.segments.len(), 5);
    assert_eq!(same.dir, Cell::right());
}

#[test]
fn reverse_turns_the_snake_end_for_end() {
    let mut snake = straight(3);
    snake.queue_input(Cell::down());
    snake.reverse();
    assert_eq!(snake.segments, vec![c(8, 10), c(9, 10), c(10, 10)]);
    assert_eq!(snake.dir, Cell::left());
    assert!(snake.input_queue.is_empty());
}

#[test]
fn reverse_follows_the_end_of_a_bent_body() {
    let mut snake = straight(3);
    snake.queue_input(Cell::down());
    snake.step();
    assert_eq!(snake.segments, vec![c(10, 11), c(10, 10), c(9, 10)]);
    snake.reverse();
    assert_eq!(snake.segments, vec![c(9, 10), c(10, 10), c(10, 11)]);
    assert_eq!(snake.dir, Cell::left());
}

#[test]
fn reverse_of_a_lone_head_flips_the_heading() {
    let mut snake = straight(1);
    snake.reverse();
    assert_eq!(snake.segments, vec![c(10, 10)]);
    assert_eq!(snake.dir, Cell::left());
}

#[test]
fn reverse_twice_restores_a_straight_snake() {
    for len in 2..7 {
        let mut snake = Snake::new(c(5, 6), Cell::up(), len);
        let segments = snake.segments.clone();
        snake.reverse();
        assert_eq!(snake.dir, Cell::down());
        snake.reverse();
        assert_eq!(snake.dir, Cell::up());
        assert_eq!(snake.segments, segments);
    }
}

#[test]
fn spawn_neighbors_puts_a_snake_on_either_side() {
    let snake = Snake::new(c(5, 5), Cell::right(), 3);
    let (first, second) = snake.spawn_neighbors();
    assert_eq!(first.segments, vec![c(5, 8), c(4, 8), c(3, 8)]);
    assert_eq!(second.segments, vec![c(5, 2), c(4, 2), c(3, 2)]);
    assert_eq!(first.dir, Cell::right());
    assert_eq!(second.dir, Cell::right());
    assert_eq!(first.tick_rate, INIT_TICK_RATE);
    assert!(first.input_queue.is_empty());
}

#[test]
fn spawn_neighbors_wraps_onto_the_grid() {
    let snake = Snake::new(c(18, 1), Cell::down(), 3);
    let (first, second) = snake.spawn_neighbors();
    assert_eq!(first.head(), c(15, 1));
    assert_eq!(second.head(), c(1, 1));
    assert_eq!(second.segments, vec![c(1, 1), c(1, 0), c(1, -1)]);
    assert_eq!(first.dir, Cell::down());
}

#[test]
fn short_snakes_do_not_eat_themselves() {
    let one = straight(1);
    assert!(!one.eats_self());
    let two = straight(2);
    assert!(!two.eats_self());
    let mut moved = straight(2);
    moved.queue_input(Cell::down());
    for _ in 0..10 {
        moved.step();
        assert!(!moved.eats_self());
    }
}

#[test]
fn a_grown_lone_head_lies_on_itself() {
    let mut snake = straight(1);
    snake.grow();
    assert_eq!(snake.segments, vec![c(10, 10), c(10, 10)]);
    assert!(snake.eats_self());
}

#[test]
fn a_snake_that_circles_eats_itself() {
    let mut snake = straight(5);
    snake.queue_inputs(&vec![Cell::down(), Cell::left(), Cell::up()]);
    snake.step();
    snake.step();
    assert!(!snake.eats_self());
    snake.step();
    assert_eq!(snake.head(), c(9, 10));
    assert!(snake.eats_self());
}

#[test]
fn eats_compares_the_head() {
    let snake = straight(3);
    assert!(snake.eats(c(10, 10)));
    assert!(!snake.eats(c(9, 10)));
    assert!(snake.covers(c(9, 10)));
    assert!(snake.covers(c(8, 10)));
    assert!(!snake.covers(c(7, 10)));
}

#[test]
fn eats_other_looks_behind_the_head_of_the_other() {
    let snake = straight(3);
    let crossing = Snake::new(c(10, 11), Cell::down(), 3);
    assert_eq!(crossing.segments, vec![c(10, 11), c(10, 10), c(10, 9)]);
    assert!(snake.eats_other(&crossing));
    assert!(!crossing.eats_other(&snake));
    let facing = Snake::new(c(10, 10), Cell::left(), 3);
    assert!(!snake.eats_other(&facing));
}

#[test]
fn tail_is_the_body_behind_the_head() {
    let snake = straight(3);
    assert_eq!(snake.tail(), &[c(9, 10), c(8, 10)]);
    assert_eq!(snake.head(), c(10, 10));
    let one = straight(1);
    assert!(one.tail().is_empty());
}

#[test]
fn head_mut_moves_the_head_only() {
    let mut snake = straight(3);
    *snake.head_mut() = c(0, 0);
    assert_eq!(snake.segments, vec![c(0, 0), c(9, 10), c(8, 10)]);
}

#[test]
fn is_valid_tells_well_formed_snakes() {
    let snake = straight(3);
    assert!(snake.is_valid());
    let mut queued = straight(3);
    queued.queue_inputs(&vec![Cell::down(), Cell::left(), Cell::up()]);
    assert!(queued.is_valid());
    let mut headless = straight(3);
    headless.segments.clear();
    assert!(!headless.is_valid());
    let mut frozen = straight(3);
    frozen.tick_rate = 0;
    assert!(!frozen.is_valid());
    let mut crowded = straight(3);
    crowded.input_queue = vec![Cell::down(), Cell::left(), Cell::up(), Cell::right()];
    assert!(!crowded.is_valid());
    let mut turning_back = straight(3);
    turning_back.input_queue = vec![Cell::left()];
    assert!(!turning_back.is_valid());
    let mut turning_back_later = straight(3);
    turning_back_later.input_queue = vec![Cell::down(), Cell::up()];
    assert!(!turning_back_later.is_valid());
}
