use snake_arena::collisions::{detect_collisions, DeathEvent};
use snake_arena::death::{apply_deaths, count_down_respawns, DeathConfig};
use snake_arena::direction::Direction;
use snake_arena::grid::{GameGrid, GridPosition};
use snake_arena::players::{AgentKind, Player, Score};
use snake_arena::snakes::Snake;

fn player(id: u32, head: (i32, i32), body: &[(i32, i32)]) -> Player {
    Player {
        id,
        agent: AgentKind::Keyboard,
        score: Score::new(),
        is_dead: false,
        snake: Some(Snake {
            length: 6,
            head: GridPosition::new(head.0, head.1),
            body: body.iter().map(|&(x, y)| GridPosition::new(x, y)).collect(),
            direction: Direction::North,
            intent: None,
        }),
        respawn_in: None,
    }
}

#[test]
fn head_on_collision_credits_each_other() {
    let grid = GameGrid::new(10, 10);
    let players = vec![player(0, (4, 4), &[(3, 4)]), player(1, (4, 4), &[(5, 4)])];
    let events = detect_collisions(&players, &grid);
    assert_eq!(
        events,
        vec![
            DeathEvent { target: 0, culprit: Some(1) },
            DeathEvent { target: 1, culprit: Some(0) },
        ]
    );
    assert!(events.iter().all(|e| e.culprit.is_some()));
}

#[test]
fn leaving_the_grid_credits_nobody() {
    let grid = GameGrid::new(5, 5);
    let players = vec![player(0, (5, 2), &[(4, 2)])];
    let events = detect_collisions(&players, &grid);
    assert_eq!(events, vec![DeathEvent { target: 0, culprit: None }]);
}

#[test]
fn own_body_credits_nobody() {
    let grid = GameGrid::new(8, 8);
    let players = vec![player(0, (2, 2), &[(2, 1), (3, 1), (3, 2), (2, 2)])];
    let events = detect_collisions(&players, &grid);
    assert_eq!(events, vec![DeathEvent { target: 0, culprit: None }]);
}

#[test]
fn running_into_a_body_credits_its_owner() {
    let grid = GameGrid::new(8, 8);
    let players = vec![player(0, (1, 1), &[(1, 0)]), player(1, (3, 3), &[(2, 3), (1, 1)])];
    let events = detect_collisions(&players, &grid);
    assert_eq!(events, vec![DeathEvent { target: 0, culprit: Some(1) }]);
}

#[test]
fn deaths_update_scores_once_per_victim() {
    let mut players = vec![player(0, (4, 4), &[]), player(1, (4, 4), &[]), player(2, (0, 0), &[])];
    let events = vec![
        DeathEvent { target: 0, culprit: Some(1) },
        DeathEvent { target: 1, culprit: Some(0) },
        DeathEvent { target: 0, culprit: Some(2) },
        DeathEvent { target: 2, culprit: Some(2) },
    ];
    apply_deaths(&mut players, &events, DeathConfig::default().respawn_time);
    assert!(players.iter().all(|p| p.snake.is_none() && p.is_dead));
    assert_eq!(players[0].score.deaths, 1);
    assert_eq!(players[0].score.kills, 1);
    assert_eq!(players[1].score.kills, 1);
    assert_eq!(players[2].score.kills, -1);
    assert_eq!(players[2].score.deaths, 1);
    assert_eq!(players[0].respawn_in, Some(10));
}

#[test]
fn respawn_countdown_ends_at_zero() {
    let mut p = player(0, (0, 0), &[]);
    p.snake = None;
    p.respawn_in = Some(1);
    let mut players = vec![p];
    count_down_respawns(&mut players);
    assert_eq!(players[0].respawn_in, Some(0));
    count_down_respawns(&mut players);
    assert_eq!(players[0].respawn_in, None);
}
