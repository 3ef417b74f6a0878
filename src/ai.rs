use vstd::prelude::*;
use crate::direction::Direction;
use crate::food::{round_div, Food};
use crate::grid::{is_occupied, position_in, GameGrid, GridPosition};
use crate::players::BuiltinAi;
use crate::snakes::Snake;

verus! {

/// Utility taken off a move that leaves the grid (medium and hard agents).
pub const OUT_OF_BOUNDS_PENALTY: i64 = 500;

/// Utility taken off a move onto a snake (medium and hard agents).
pub const SNAKE_PENALTY: i64 = 1000;

pub open spec fn abs(v: int) -> int {
    if v < 0 {
        -v
    } else {
        v
    }
}

pub open spec fn manhattan(a: GridPosition, b: GridPosition) -> int {
    abs(a.x - b.x) + abs(a.y - b.y)
}

/// The place of the first of the first `k` foods closest to `p`.
pub open spec fn nearest_food(foods: Seq<Food>, p: GridPosition, k: int) -> Option<int>
    decreases k,
{
    if k <= 0 {
        None
    } else {
        match nearest_food(foods, p, k - 1) {
            None => Some(k - 1),
            Some(b) => if manhattan(foods[k - 1].position, p) < manhattan(foods[b].position, p) {
                Some(k - 1)
            } else {
                Some(b)
            },
        }
    }
}

/// A neighbour cell's crowding, in quarters: outside the grid 1, on a snake 4,
/// free -1.
pub open spec fn crowding(grid: GameGrid, cells: Seq<GridPosition>, q: GridPosition) -> int {
    if !grid.contains(q) {
        1
    } else if is_occupied(cells, q) {
        4
    } else {
        -1
    }
}

/// The crowding around `p`, in quarters, over its four neighbours.
pub open spec fn crowding_around(grid: GameGrid, cells: Seq<GridPosition>, p: GridPosition) -> int {
    crowding(grid, cells, p.stepped(Direction::North)) + crowding(
        grid,
        cells,
        p.stepped(Direction::East),
    ) + crowding(grid, cells, p.stepped(Direction::South)) + crowding(
        grid,
        cells,
        p.stepped(Direction::West),
    )
}

/// How much a built-in agent on `p` at `level` likes moving in `d`. It prefers the
/// cell closest to the nearest food; medium and hard agents add the food's value
/// (a tenth of its lifetime) and avoid the edge and snakes; hard agents also avoid
/// crowded cells.
pub open spec fn utility_spec(
    level: BuiltinAi,
    p: GridPosition,
    d: Direction,
    foods: Seq<Food>,
    cells: Seq<GridPosition>,
    grid: GameGrid,
) -> int {
    let next = p.stepped(d);
    let food_part = match nearest_food(foods, next, foods.len() as int) {
        None => 0,
        Some(b) => {
            let dist = manhattan(next, foods[b].position);
            if level != BuiltinAi::Easy {
                -dist + (foods[b].lifetime / 10) - dist
            } else {
                -dist
            }
        },
    };
    let hazard_part = if level == BuiltinAi::Easy {
        0
    } else if !grid.contains(next) {
        -OUT_OF_BOUNDS_PENALTY
    } else if is_occupied(cells, next) {
        -SNAKE_PENALTY
    } else {
        0
    };
    let crowd_part = if level == BuiltinAi::Hard {
        -5 * round_div(crowding_around(grid, cells, next), 4)
    } else {
        0
    };
    food_part + hazard_part + crowd_part
}

/// Among the first `k` of `options`, the last one of highest utility.
pub open spec fn best_option(
    level: BuiltinAi,
    p: GridPosition,
    options: Seq<Direction>,
    k: int,
    foods: Seq<Food>,
    cells: Seq<GridPosition>,
    grid: GameGrid,
) -> Direction
    decreases k,
{
    if k <= 1 {
        options[0]
    } else {
        let b = best_option(level, p, options, k - 1, foods, cells, grid);
        if utility_spec(level, p, options[k - 1], foods, cells, grid) >= utility_spec(
            level,
            p,
            b,
            foods,
            cells,
            grid,
        ) {
            options[k - 1]
        } else {
            b
        }
    }
}

pub open spec fn legal_for(snake: Snake) -> spec_fn(Direction) -> bool {
    |d: Direction| snake.may_move(d)
}

/// The headings a snake may take, in the order North, East, South, West.
pub open spec fn legal_options(snake: Snake) -> Seq<Direction> {
    seq![Direction::North, Direction::East, Direction::South, Direction::West].filter(
        legal_for(snake),
    )
}

/// The move a built-in agent makes: the legal heading of highest utility, the last
/// of them on a tie.
pub open spec fn choice_spec(
    level: BuiltinAi,
    snake: Snake,
    foods: Seq<Food>,
    cells: Seq<GridPosition>,
    grid: GameGrid,
) -> Direction {
    let options = legal_options(snake);
    best_option(level, snake.head, options, options.len() as int, foods, cells, grid)
}

fn distance(a: GridPosition, b: GridPosition) -> (r: i64)
    ensures
        r == manhattan(a, b),
        0 <= r <= 0x2_0000_0000,
{
    let dx: i64 = a.x as i64 - b.x as i64;
    let dy: i64 = a.y as i64 - b.y as i64;
    let ax: i64 = if dx < 0 {
        -dx
    } else {
        dx
    };
    let ay: i64 = if dy < 0 {
        -dy
    } else {
        dy
    };
    ax + ay
}

fn closest_food(foods: &Vec<Food>, p: GridPosition) -> (r: Option<usize>)
    ensures
        r matches Some(b) ==> b < foods@.len() && nearest_food(foods@, p, foods@.len() as int)
            == Some(b as int),
        r is None ==> nearest_food(foods@, p, foods@.len() as int) is None,
{
    let mut best: Option<usize> = None;
    let mut best_distance: i64 = 0;
    let mut k: usize = 0;
    while k < foods.len()
        invariant
            k <= foods@.len(),
            best matches Some(b) ==> b < k && nearest_food(foods@, p, k as int) == Some(b as int)
                && best_distance == manhattan(foods@[b as int].position, p),
            best is None ==> nearest_food(foods@, p, k as int) is None,
            best is None ==> k == 0,
        decreases foods@.len() - k,
    {
        let d = distance(foods[k].position, p);
        match best {
            None => {
                best = Some(k);
                best_distance = d;
            },
            Some(_) => {
                if d < best_distance {
                    best = Some(k);
                    best_distance = d;
                }
            },
        }
        k = k + 1;
    }
    best
}

fn crowding_of(grid: &GameGrid, cells: &Vec<GridPosition>, q: GridPosition) -> (r: i64)
    ensures
        r == crowding(*grid, cells@, q),
        -1 <= r <= 4,
{
    if !grid.contains_position(&q) {
        1
    } else if position_in(cells, &q) {
        4
    } else {
        -1
    }
}

/// The utility of moving in `d` for a built-in agent on `p`; see `utility_spec`.
pub fn utility(
    level: BuiltinAi,
    p: GridPosition,
    d: Direction,
    foods: &Vec<Food>,
    cells: &Vec<GridPosition>,
    grid: &GameGrid,
) -> (r: i64)
    requires
        grid.wf(),
        grid.contains(p),
    ensures
        r == utility_spec(level, p, d, foods@, cells@, *grid),
{
    let next = p.step(d);
    let food_part: i64 = match closest_food(foods, next) {
        None => 0,
        Some(b) => {
            let dist = distance(next, foods[b].position);
            if level != BuiltinAi::Easy {
                -dist + (foods[b].lifetime / 10) as i64 - dist
            } else {
                -dist
            }
        },
    };
    let hazard_part: i64 = if level == BuiltinAi::Easy {
        0
    } else if !grid.contains_position(&next) {
        -OUT_OF_BOUNDS_PENALTY
    } else if position_in(cells, &next) {
        -SNAKE_PENALTY
    } else {
        0
    };
    let crowd_part: i64 = if level == BuiltinAi::Hard {
        let q = crowding_of(grid, cells, next.step(Direction::North)) + crowding_of(
            grid,
            cells,
            next.step(Direction::East),
        ) + crowding_of(grid, cells, next.step(Direction::South)) + crowding_of(
            grid,
            cells,
            next.step(Direction::West),
        );
        assert(-4 <= q <= 16);
        let rounded: i64 = if q >= 0 {
            let t: i64 = 2 * q + 4;
            assert(0 <= t / 8 <= 4) by (nonlinear_arith)
                requires
                    4 <= t <= 36,
            ;
            t / 8
        } else {
            let t: i64 = 2 * (-q) + 4;
            assert(0 <= t / 8 <= 4) by (nonlinear_arith)
                requires
                    4 <= t <= 12,
            ;
            -(t / 8)
        };
        assert(-4 <= rounded <= 4);
        let penalty: i64 = 5 * rounded;
        -penalty
    } else {
        0
    };
    food_part + hazard_part + crowd_part
}

/// The move a built-in agent at `level` makes for `snake`; see `choice_spec`.
pub fn choose_move(
    level: BuiltinAi,
    snake: &Snake,
    foods: &Vec<Food>,
    cells: &Vec<GridPosition>,
    grid: &GameGrid,
) -> (r: Direction)
    requires
        grid.wf(),
        grid.contains(snake.head),
    ensures
        r == choice_spec(level, *snake, foods@, cells@, *grid),
{
    let cardinals = Direction::cardinals();
    let ghost all = seq![Direction::North, Direction::East, Direction::South, Direction::West];
    let ghost pred = legal_for(*snake);
    let mut options: Vec<Direction> = Vec::new();
    let mut k: usize = 0;
    while k < 4
        invariant
            k <= 4,
            cardinals@ == all,
            all == seq![Direction::North, Direction::East, Direction::South, Direction::West],
            pred == legal_for(*snake),
            options@ == all.take(k as int).filter(pred),
        decreases 4 - k,
    {
        let d = cardinals[k];
        let ghost before = options@;
        proof {
            reveal(Seq::filter);
            assert(all.take(k + 1).drop_last() =~= all.take(k as int));
            assert(all.take(k + 1).last() == d);
            assert(pred(d) == snake.may_move(d));
        }
        if snake.can_move(d) {
            options.push(d);
            assert(options@ == all.take(k + 1).filter(pred));
        } else {
            assert(options@ == all.take(k + 1).filter(pred));
        }
        k = k + 1;
    }
    assert(all.take(4) =~= all);
    let ghost opts = options@;
    assert(opts == legal_options(*snake));
    proof {
        // A snake can always go on the way it faces, so some heading is legal.
        lemma_some_option(*snake);
    }
    let mut best = options[0];
    let mut best_utility = utility(level, snake.head, best, foods, cells, grid);
    let mut j: usize = 1;
    while j < options.len()
        invariant
            grid.wf(),
            grid.contains(snake.head),
            options@ == opts,
            1 <= j <= opts.len(),
            best == best_option(level, snake.head, opts, j as int, foods@, cells@, *grid),
            best_utility == utility_spec(level, snake.head, best, foods@, cells@, *grid),
        decreases opts.len() - j,
    {
        let u = utility(level, snake.head, options[j], foods, cells, grid);
        if u >= best_utility {
            best = options[j];
            best_utility = u;
        }
        j = j + 1;
    }
    best
}

proof fn lemma_some_option(snake: Snake)
    ensures
        legal_options(snake).len() > 0,
{
    let all = seq![Direction::North, Direction::East, Direction::South, Direction::West];
    let pred = legal_for(snake);
    assert(snake.may_move(snake.direction));
    let i: int = match snake.direction {
        Direction::North => 0,
        Direction::East => 1,
        Direction::South => 2,
        Direction::West => 3,
    };
    assert(all[i] == snake.direction);
    all.lemma_filter_contains(pred, i);
    assert(all.filter(pred).contains(snake.direction));
}

} // verus!
