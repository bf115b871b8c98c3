use xnake::cell::Cell;
use xnake::food::{Food, FoodEntry, FoodType};
use xnake::snake::Snake;
use xnake::spawn::{food_at, free_positions, random_food_location, snake_at};

fn c(x: i32, y: i32) -> Cell {
    Cell { x, y }
}

fn entry(typ: FoodType, x: i32, y: i32) -> FoodEntry {
    FoodEntry { food: Food { typ, position: c(x, y) }, time_left: 1_000_000 }
}

fn columns(from: i32, to: i32) -> Vec<Snake> {
    (from..to).map(|x| Snake::new(c(x, 0), Cell::up(), 20)).collect()
}

#[test]
fn empty_grid_is_free_column_by_column() {
    let free = free_positions(&vec![], &vec![]);
    assert_eq!(free.len(), 400);
    assert_eq!(free[0], c(0, 0));
    assert_eq!(free[1], c(0, 1));
    assert_eq!(free[19], c(0, 19));
    assert_eq!(free[20], c(1, 0));
    assert_eq!(free[399], c(19, 19));
    for (k, cell) in free.iter().enumerate() {
        assert_eq!(*cell, c(k as i32 / 20, k as i32 % 20));
    }
}

#[test]
fn snakes_and_foods_are_not_free() {
    let snakes = vec![Snake::new(c(10, 10), Cell::right(), 3)];
    let foods = vec![entry(FoodType::Cut, 0, 0), entry(FoodType::Grow, 19, 19)];
    let free = free_positions(&snakes, &foods);
    assert_eq!(free.len(), 395);
    for taken in [c(10, 10), c(9, 10), c(8, 10), c(0, 0), c(19, 19)] {
        assert!(!free.contains(&taken));
    }
    assert!(free.contains(&c(11, 10)));
    assert!(free.contains(&c(7, 10)));
    assert_eq!(free[0], c(0, 1));
}

#[test]
fn segments_off_the_grid_take_no_cell() {
    let snakes = vec![Snake::new(c(1, 0), Cell::right(), 3)];
    let free = free_positions(&snakes, &vec![]);
    assert_eq!(free.len(), 398);
}

#[test]
fn occupancy_is_told_cell_by_cell() {
    let snakes = vec![Snake::new(c(10, 10), Cell::right(), 3), Snake::new(c(0, 5), Cell::down(), 2)];
    let foods = vec![entry(FoodType::Cut, 3, 3)];
    assert!(snake_at(&snakes, c(8, 10)));
    assert!(snake_at(&snakes, c(0, 4)));
    assert!(!snake_at(&snakes, c(3, 3)));
    assert!(food_at(&foods, c(3, 3)));
    assert!(!food_at(&foods, c(8, 10)));
    assert!(!food_at(&vec![], c(3, 3)));
    assert!(!snake_at(&vec![], c(3, 3)));
}

#[test]
fn random_location_is_a_free_cell() {
    let snakes = vec![Snake::new(c(10, 10), Cell::right(), 3)];
    let foods = vec![entry(FoodType::Cut, 0, 0)];
    for _ in 0..300 {
        let cell = random_food_location(&snakes, &foods).unwrap();
        assert!(cell.in_grid());
        assert!(!snake_at(&snakes, cell));
        assert!(!food_at(&foods, cell));
    }
}

#[test]
fn random_location_varies() {
    let first = random_food_location(&vec![], &vec![]).unwrap();
    let mut other = false;
    for _ in 0..300 {
        if random_food_location(&vec![], &vec![]).unwrap() != first {
            other = true;
        }
    }
    assert!(other);
}

#[test]
fn the_last_free_cell_is_found() {
    let mut snakes = columns(0, 19);
    snakes.push(Snake::new(c(19, 1), Cell::up(), 19));
    assert_eq!(free_positions(&snakes, &vec![]), vec![c(19, 0)]);
    for _ in 0..20 {
        assert_eq!(random_food_location(&snakes, &vec![]), Some(c(19, 0)));
    }
    let foods = vec![entry(FoodType::Grow, 19, 0)];
    assert_eq!(random_food_location(&snakes, &foods), None);
}

#[test]
fn a_full_grid_has_no_location() {
    let snakes = columns(0, 20);
    assert!(free_positions(&snakes, &vec![]).is_empty());
    assert_eq!(random_food_location(&snakes, &vec![]), None);
}
