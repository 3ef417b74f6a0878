use rand::rngs::StdRng;
use rand::SeedableRng;
use snake_arena::arena::Arena;
use snake_arena::death::DeathConfig;
use snake_arena::direction::Direction;
use snake_arena::food::{Food, FoodConfig};
use snake_arena::grid::{GameGrid, GridPosition};
use snake_arena::players::{AgentKind, BuiltinAi, Score};
use std::cmp::Ordering;
use snake_arena::snakes::Snake;
use snake_arena::turns::TurnConfig;

fn lock_step() -> TurnConfig {
    TurnConfig { turn_time: None, end_early: false, max_turns: 100, start_paused: false }
}

fn arena(agents: Vec<AgentKind>) -> Arena {
    Arena::new(GameGrid::new(10, 10), &agents, lock_step(), FoodConfig::default(), DeathConfig::default())
}

fn place(a: &mut Arena, id: usize, head: (i32, i32), body: &[(i32, i32)], direction: Direction) {
    a.players[id].snake = Some(Snake {
        length: 6,
        head: GridPosition::new(head.0, head.1),
        body: body.iter().map(|&(x, y)| GridPosition::new(x, y)).collect(),
        direction,
        intent: None,
    });
    a.players[id].is_dead = false;
}

#[test]
fn easy_agent_heads_for_food() {
    let mut a = arena(vec![AgentKind::Builtin { difficulty: BuiltinAi::Easy }]);
    place(&mut a, 0, (2, 2), &[(1, 2)], Direction::East);
    a.food.push(Food::new(50, GridPosition::new(5, 5)));
    let mut rng = StdRng::seed_from_u64(1);
    a.pre_turn(&mut rng);
    a.request_moves(&mut rng);
    assert!(a.turn.turn_requested());
    a.begin_frame(0, false);
    assert!(a.turn.turn_ready());
    a.resolve_turn();
    let s = a.players[0].snake.as_ref().expect("no death event");
    assert_eq!(s.head, GridPosition::new(3, 2));
    assert_eq!(s.body, vec![GridPosition::new(2, 2), GridPosition::new(1, 2)]);
    assert_eq!(a.players[0].score.deaths, 0);
    assert_eq!(a.turn.current, 1);
    assert!(!a.turn.turn_ready() && !a.turn.turn_requested());
}

#[test]
fn lock_step_turn_waits_for_both_players() {
    let mut a = arena(vec![AgentKind::Keyboard, AgentKind::Custom { silent: true }]);
    place(&mut a, 0, (1, 1), &[], Direction::North);
    place(&mut a, 1, (8, 8), &[], Direction::South);
    a.set_intent(0, Direction::East);
    a.begin_frame(1_000_000, false);
    assert!(!a.turn.turn_ready());
    a.set_intent(1, Direction::West);
    a.begin_frame(0, false);
    assert!(a.turn.turn_ready());
}

#[test]
fn head_on_collision_kills_both_with_credit() {
    let mut a = arena(vec![AgentKind::Keyboard, AgentKind::Keyboard]);
    place(&mut a, 0, (3, 5), &[(2, 5)], Direction::East);
    place(&mut a, 1, (5, 5), &[(6, 5)], Direction::West);
    a.set_intent(0, Direction::East);
    a.set_intent(1, Direction::West);
    a.begin_frame(0, false);
    a.resolve_turn();
    for p in &a.players {
        assert!(p.snake.is_none());
        assert!(p.is_dead);
        assert_eq!(p.score.deaths, 1);
        assert_eq!(p.score.kills, 1);
        assert_eq!(p.respawn_in, Some(10));
    }
}

#[test]
fn reversal_is_not_applied() {
    let mut a = arena(vec![AgentKind::Keyboard]);
    place(&mut a, 0, (5, 5), &[(4, 5)], Direction::East);
    a.set_intent(0, Direction::West);
    a.begin_frame(0, false);
    a.resolve_turn();
    let s = a.players[0].snake.as_ref().unwrap();
    assert_eq!(s.head, GridPosition::new(6, 5));
    assert_eq!(s.direction, Direction::East);
}

#[test]
fn food_spawns_and_players_respawn_before_the_request() {
    let mut a = arena(vec![AgentKind::Random, AgentKind::Random]);
    let mut rng = StdRng::seed_from_u64(5);
    a.pre_turn(&mut rng);
    assert_eq!(a.food.len(), 1);
    assert_eq!(a.food[0].lifetime, 50);
    let heads: Vec<GridPosition> = a.players.iter().map(|p| p.snake.as_ref().unwrap().head).collect();
    assert_ne!(heads[0], heads[1]);
    assert!(heads.iter().all(|h| *h != a.food[0].position && a.grid.contains_position(h)));
    assert!(a.players.iter().all(|p| !p.is_dead));
    a.request_moves(&mut rng);
    assert!(a.players.iter().all(|p| p.snake.as_ref().unwrap().intent.is_some()));
}

#[test]
fn scores_track_lengths() {
    let mut a = arena(vec![AgentKind::Keyboard]);
    place(&mut a, 0, (5, 5), &[(4, 5), (3, 5)], Direction::East);
    a.update_scores();
    assert_eq!(a.players[0].score.current_length, 3);
    assert_eq!(a.players[0].score.max_length, 3);
}

#[test]
fn food_spawns_only_when_none_is_left() {
    let mut a = arena(vec![AgentKind::Keyboard]);
    assert!(a.can_spawn_food());
    a.food.push(Food::new(50, GridPosition::new(5, 5)));
    assert!(!a.can_spawn_food());
    let mut rng = StdRng::seed_from_u64(9);
    a.spawn_food(&mut rng);
    assert_eq!(a.food.len(), 1);
}

#[test]
fn scores_rank_by_longest_then_kills_then_fewest_deaths() {
    let base = Score { kills: 1, deaths: 1, max_length: 5, current_length: 3 };
    assert_eq!(base.cmp(&Score { max_length: 6, ..base }), Ordering::Less);
    assert_eq!(base.cmp(&Score { kills: 0, ..base }), Ordering::Greater);
    assert_eq!(base.cmp(&Score { deaths: 2, ..base }), Ordering::Greater);
    assert_eq!(base.cmp(&Score { current_length: 4, ..base }), Ordering::Less);
    assert_eq!(base.cmp(&base), Ordering::Equal);
}
