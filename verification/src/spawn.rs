//! Where a new food may appear: the cells of the grid that no snake and no
//! food occupies.

use vstd::prelude::*;

use crate::cell::Cell;
use crate::config::{NUM_COLS, NUM_ROWS};
use crate::food::FoodEntry;
use crate::random::choose_cell;
use crate::snake::{Snake, SnakeView};

verus! {

/// The states of the snakes of a roster.
pub open spec fn views(snakes: Seq<Snake>) -> Seq<SnakeView> {
    snakes.map_values(|s: Snake| s@)
}

/// Every snake of the roster is well formed.
pub open spec fn all_wf(snakes: Seq<SnakeView>) -> bool {
    forall|i: int| 0 <= i < snakes.len() ==> (#[trigger] snakes[i]).wf()
}

/// Whether a segment of some snake lies on `cell`.
pub open spec fn on_snake(snakes: Seq<SnakeView>, cell: Cell) -> bool {
    exists|i: int| 0 <= i < snakes.len() && (#[trigger] snakes[i]).covers(cell)
}

/// Whether some food lies on `cell`.
pub open spec fn on_food(foods: Seq<FoodEntry>, cell: Cell) -> bool {
    exists|i: int| 0 <= i < foods.len() && (#[trigger] foods[i]).food.position == cell
}

/// Whether `cell` is on the grid and holds neither a snake nor a food.
pub open spec fn is_free(snakes: Seq<SnakeView>, foods: Seq<FoodEntry>, cell: Cell) -> bool {
    cell.in_grid() && !on_snake(snakes, cell) && !on_food(foods, cell)
}

/// `is_free` as a predicate on cells.
pub open spec fn free_pred(snakes: Seq<SnakeView>, foods: Seq<FoodEntry>) -> spec_fn(Cell) -> bool {
    |cell: Cell| is_free(snakes, foods, cell)
}

/// The cells of the grid, column by column.
pub open spec fn grid_cells() -> Seq<Cell> {
    Seq::new(
        (NUM_COLS * NUM_ROWS) as nat,
        |k: int| Cell { x: (k / NUM_ROWS as int) as i32, y: (k % NUM_ROWS as int) as i32 },
    )
}

/// The free cells of the grid, column by column.
pub open spec fn free_cells(snakes: Seq<SnakeView>, foods: Seq<FoodEntry>) -> Seq<Cell> {
    grid_cells().filter(free_pred(snakes, foods))
}

/// The free cells are the cells for which `is_free` holds.
pub proof fn lemma_free_cells(snakes: Seq<SnakeView>, foods: Seq<FoodEntry>)
    ensures
        forall|cell: Cell| #[trigger]
            free_cells(snakes, foods).contains(cell) <==> is_free(snakes, foods, cell),
        free_cells(snakes, foods).len() <= NUM_COLS * NUM_ROWS,
{
    let grid = grid_cells();
    let pred = free_pred(snakes, foods);
    let free = free_cells(snakes, foods);
    grid.lemma_filter_len(pred);
    assert forall|cell: Cell| #[trigger] free.contains(cell) <==> is_free(snakes, foods, cell) by {
        if free.contains(cell) {
            let i = choose|i: int| 0 <= i < free.len() && free[i] == cell;
            grid.lemma_filter_pred(pred, i);
        }
        if is_free(snakes, foods, cell) {
            let k = cell.x * NUM_ROWS + cell.y;
            assert(grid[k] == cell);
            grid.lemma_filter_contains(pred, k);
        }
    }
}

/// Whether some food lies on `cell`.
pub fn food_at(foods: &Vec<FoodEntry>, cell: Cell) -> (r: bool)
    ensures
        r == on_food(foods@, cell),
{
    let mut i: usize = 0;
    while i < foods.len()
        invariant
            forall|k: int| 0 <= k < i && k < foods@.len() ==> foods@[k].food.position != cell,
        decreases foods.len() - i,
    {
        if foods[i].food.position == cell {
            return true;
        }
        i = i + 1;
    }
    false
}

/// Whether a segment of some snake lies on `cell`.
pub fn snake_at(snakes: &Vec<Snake>, cell: Cell) -> (r: bool)
    ensures
        r == on_snake(views(snakes@), cell),
{
    let mut i: usize = 0;
    while i < snakes.len()
        invariant
            forall|k: int| 0 <= k < i && k < snakes@.len() ==> !views(snakes@)[k].covers(cell),
        decreases snakes.len() - i,
    {
        if snakes[i].covers(cell) {
            assert(views(snakes@)[i as int].covers(cell));
            return true;
        }
        i = i + 1;
    }
    false
}

/// The free cells of the grid, column by column.
pub fn free_positions(snakes: &Vec<Snake>, foods: &Vec<FoodEntry>) -> (r: Vec<Cell>)
    ensures
        r@ == free_cells(views(snakes@), foods@),
{
    let ghost grid = grid_cells();
    let ghost pred = free_pred(views(snakes@), foods@);
    let mut free: Vec<Cell> = Vec::new();
    let mut x: i32 = 0;
    proof {
        reveal(Seq::filter);
        assert(grid.take(0).filter(pred) =~= Seq::<Cell>::empty());
    }
    while x < NUM_COLS
        invariant
            0 <= x <= NUM_COLS,
            grid == grid_cells(),
            pred == free_pred(views(snakes@), foods@),
            free@ == grid.take(x * NUM_ROWS).filter(pred),
        decreases NUM_COLS - x,
    {
        let mut y: i32 = 0;
        while y < NUM_ROWS
            invariant
                0 <= x < NUM_COLS,
                0 <= y <= NUM_ROWS,
                grid == grid_cells(),
                pred == free_pred(views(snakes@), foods@),
                free@ == grid.take(x * NUM_ROWS + y).filter(pred),
            decreases NUM_ROWS - y,
        {
            let cell = Cell { x, y };
            let ghost k = x * NUM_ROWS + y;
            proof {
                assert(grid[k] == cell);
                assert(grid.take(k + 1) =~= grid.take(k).push(cell));
                grid.take(k).lemma_filter_push(cell, pred);
            }
            if !snake_at(snakes, cell) && !food_at(foods, cell) {
                free.push(cell);
            }
            y = y + 1;
        }
        x = x + 1;
    }
    assert(grid.take(NUM_COLS * NUM_ROWS) =~= grid);
    free
}

/// A free cell drawn at random, if there is one.
pub fn random_food_location(snakes: &Vec<Snake>, foods: &Vec<FoodEntry>) -> (r: Option<Cell>)
    ensures
        r is None <==> free_cells(views(snakes@), foods@).len() == 0,
        r matches Some(cell) ==> is_free(views(snakes@), foods@, cell),
{
    let free = free_positions(snakes, foods);
    proof {
        lemma_free_cells(views(snakes@), foods@);
    }
    choose_cell(&free)
}

} // verus!
