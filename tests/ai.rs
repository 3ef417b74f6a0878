use snake_arena::ai::{choose_move, utility};
use snake_arena::direction::Direction;
use snake_arena::food::Food;
use snake_arena::grid::{GameGrid, GridPosition};
use snake_arena::players::BuiltinAi;
use snake_arena::snakes::Snake;

fn corner_food() -> Vec<Food> {
    vec![Food::new(50, GridPosition::new(4, 4))]
}

#[test]
fn easy_agents_only_count_distance() {
    let g = GameGrid::new(5, 5);
    let u = utility(BuiltinAi::Easy, GridPosition::new(0, 0), Direction::East, &corner_food(), &vec![], &g);
    assert_eq!(u, -7);
    let off = utility(BuiltinAi::Easy, GridPosition::new(0, 0), Direction::West, &corner_food(), &vec![], &g);
    assert_eq!(off, -9);
}

#[test]
fn medium_agents_add_food_value() {
    let g = GameGrid::new(5, 5);
    let u = utility(BuiltinAi::Medium, GridPosition::new(0, 0), Direction::North, &corner_food(), &vec![], &g);
    assert_eq!(u, -9);
    let off = utility(BuiltinAi::Medium, GridPosition::new(0, 0), Direction::West, &corner_food(), &vec![], &g);
    assert_eq!(off, -513);
}

#[test]
fn hard_agents_avoid_edges_snakes_and_crowds() {
    let g = GameGrid::new(5, 5);
    let off = utility(BuiltinAi::Hard, GridPosition::new(0, 0), Direction::West, &corner_food(), &vec![], &g);
    assert_eq!(off, -518);
    let cells = vec![GridPosition::new(0, 1)];
    let onto = utility(BuiltinAi::Hard, GridPosition::new(0, 0), Direction::North, &corner_food(), &cells, &g);
    assert_eq!(onto, -1004);
}

#[test]
fn no_food_leaves_only_hazards() {
    let g = GameGrid::new(5, 5);
    let u = utility(BuiltinAi::Medium, GridPosition::new(2, 2), Direction::South, &vec![], &vec![], &g);
    assert_eq!(u, 0);
}

#[test]
fn ties_go_to_the_last_best_heading() {
    let g = GameGrid::new(10, 10);
    let snake = Snake {
        length: 6,
        head: GridPosition::new(2, 2),
        body: vec![GridPosition::new(1, 2)],
        direction: Direction::East,
        intent: None,
    };
    let foods = vec![Food::new(50, GridPosition::new(5, 5))];
    assert_eq!(choose_move(BuiltinAi::Easy, &snake, &foods, &vec![], &g), Direction::East);
    let west_food = vec![Food::new(50, GridPosition::new(0, 2))];
    // West would be best, but the snake may not turn back on itself.
    assert_ne!(choose_move(BuiltinAi::Easy, &snake, &west_food, &vec![], &g), Direction::West);
}
