use snake_arena::direction::Direction;
use snake_arena::food::{eat_food, remove_and_rot, Food, FoodConfig};
use snake_arena::grid::GridPosition;
use snake_arena::players::{AgentKind, Player, Score};
use snake_arena::snakes::Snake;

fn player_at(id: u32, x: i32, y: i32, length: u32) -> Player {
    Player {
        id,
        agent: AgentKind::Random,
        score: Score::new(),
        is_dead: false,
        snake: Some(Snake {
            length,
            head: GridPosition::new(x, y),
            body: vec![],
            direction: Direction::North,
            intent: None,
        }),
        respawn_in: None,
    }
}

fn aged(lifetime: u32, initial: u32, x: i32, y: i32) -> Food {
    Food { initial_lifetime: initial, lifetime, position: GridPosition::new(x, y) }
}

#[test]
fn food_config_defaults() {
    let c = FoodConfig::default();
    assert_eq!(c.initial_lifetime, 50);
    assert_eq!(c.initial_value, 5);
}

#[test]
fn growth_depends_on_remaining_lifetime() {
    assert_eq!(aged(50, 50, 0, 0).growth(5), 5);
    assert_eq!(aged(25, 50, 0, 0).growth(5), 0);
    assert_eq!(aged(0, 50, 0, 0).growth(5), -5);
    // 5 * (2 * 37 / 50 - 1) = 2.4
    assert_eq!(aged(37, 50, 0, 0).growth(5), 2);
    // 5 * (2 * 5 / 20 - 1) = -2.5, rounded away from zero
    assert_eq!(aged(5, 20, 0, 0).growth(5), -3);
    assert_eq!(aged(0, 0, 0, 0).growth(5), 0);
}

#[test]
fn fresh_food_grows_by_the_amount() {
    let mut players = vec![player_at(0, 2, 2, 6)];
    let foods = vec![Food::new(50, GridPosition::new(2, 2))];
    let events = eat_food(&mut players, &foods, 4);
    assert!(events.is_empty());
    assert_eq!(players[0].snake.as_ref().unwrap().length, 10);
}

#[test]
fn rotten_food_shrinks_or_starves() {
    let mut players = vec![player_at(0, 2, 2, 6), player_at(1, 3, 3, 2)];
    let foods = vec![aged(0, 50, 2, 2), aged(0, 50, 3, 3)];
    let events = eat_food(&mut players, &foods, 4);
    assert_eq!(players[0].snake.as_ref().unwrap().length, 2);
    assert_eq!(players[1].snake.as_ref().unwrap().length, 2);
    assert_eq!(events.len(), 1);
    assert_eq!(events[0].target, 1);
    assert_eq!(events[0].culprit, None);
}

#[test]
fn shared_food_is_removed_once() {
    let players = vec![player_at(0, 1, 1, 6), player_at(1, 1, 1, 6), player_at(2, 1, 1, 6)];
    let mut foods = vec![aged(10, 10, 1, 1), aged(0, 10, 4, 4), aged(3, 10, 6, 6)];
    let removed = remove_and_rot(&players, &mut foods);
    assert_eq!(removed, vec![0, 1]);
    assert_eq!(foods, vec![aged(2, 10, 6, 6)]);
}

#[test]
fn rot_takes_one_turn_and_stops_at_zero() {
    let f = aged(1, 5, 0, 0);
    let g = f.rot().unwrap();
    assert_eq!(g.lifetime, 0);
    assert_eq!(g.rot(), None);
}
