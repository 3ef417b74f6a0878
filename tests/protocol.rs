use snake_arena::direction::Direction;
use snake_arena::food::Food;
use snake_arena::grid::{GameGrid, GridPosition};
use snake_arena::players::{AgentKind, Player, Score};
use snake_arena::protocol::{handshake, snapshot};
use snake_arena::replays::{
    replay_turn, OptionalReplayConfig, ReplayConfig, ReplaySetting, ReplaySettingError,
};
use snake_arena::snakes::Snake;
use snake_arena::turns::TurnConfig;

fn sample_players() -> Vec<Player> {
    let alive = Player {
        id: 0,
        agent: AgentKind::Keyboard,
        score: Score { kills: 2, deaths: 1, max_length: 2, current_length: 2 },
        is_dead: false,
        snake: Some(Snake {
            length: 6,
            head: GridPosition::new(3, 4),
            body: vec![GridPosition::new(3, 3)],
            direction: Direction::North,
            intent: None,
        }),
        respawn_in: None,
    };
    let mut dead = Player::new(1, AgentKind::Random);
    dead.respawn_in = Some(3);
    let waiting = Player::new(2, AgentKind::Random);
    vec![alive, dead, waiting]
}

#[test]
fn handshake_lines() {
    let grid = GameGrid::new(10, 8);
    let timed = TurnConfig { turn_time: Some(100), end_early: false, max_turns: 1500, start_paused: false };
    let r = handshake(&grid, 50, 5, 2, 1, &timed);
    assert_eq!(String::from_utf8(r).unwrap(), "10 8\n50 5\n2 1\n1500 100\n");
    let lock = TurnConfig { turn_time: None, ..timed };
    let r = handshake(&grid, 50, -3, 2, 0, &lock);
    assert_eq!(String::from_utf8(r).unwrap(), "10 8\n50 -3\n2 0\n1500 -1\n");
}

#[test]
fn snapshot_lines() {
    let foods = vec![Food { initial_lifetime: 50, lifetime: 7, position: GridPosition::new(1, 2) }];
    let r = snapshot(&sample_players(), &foods);
    assert_eq!(String::from_utf8(r).unwrap(), "1\n7 1 2\n0 2 1 2 3 4 3 3\n2 0 0 0\n");
}

#[test]
fn replay_turn_lines() {
    let foods = vec![
        Food { initial_lifetime: 50, lifetime: 7, position: GridPosition::new(1, 2) },
        Food { initial_lifetime: 50, lifetime: 12, position: GridPosition::new(-1, 0) },
    ];
    let r = replay_turn(&sample_players(), &foods);
    assert_eq!(String::from_utf8(r).unwrap(), "7 1 2 12 -1 0 \n0 3 4 3 3,\n");
}

fn replay_setting(yaml: &str) -> ReplaySetting {
    let value: serde_yaml::Value = serde_yaml::from_str(yaml).unwrap();
    match value {
        serde_yaml::Value::Bool(b) => ReplaySetting::Flag(b),
        serde_yaml::Value::Mapping(m) => ReplaySetting::Fields {
            path: m.get("path").and_then(|v| v.as_str()).map(|s| s.to_string()),
            format: m.get("format").and_then(|v| v.as_str()).map(|s| s.to_string()),
        },
        _ => ReplaySetting::Other,
    }
}

#[test]
fn test_replay_deserialization_true() {
    let config_str = r#"
            true
        "#;
    let option = OptionalReplayConfig::from_setting(&replay_setting(config_str)).unwrap();
    assert!(option.is_some());
    let replay_config = option.0.unwrap();
    assert_eq!(replay_config.path, ReplayConfig::default_path());
    assert_eq!(replay_config.format, ReplayConfig::default_format());
}

#[test]
fn test_replay_deserialization_false() {
    let config_str = r#"
            false
        "#;
    let option = OptionalReplayConfig::from_setting(&replay_setting(config_str)).unwrap();
    assert!(option.is_none(), "Expected None, got {:?}", option);
}

#[test]
fn test_replay_deserialization_with_path() {
    let config_str = r#"
              path: /path/to/replays
              format: my-replay-%Y-%m-%d
        "#;
    let option = OptionalReplayConfig::from_setting(&replay_setting(config_str)).unwrap();
    assert!(option.is_some());
    let replay_config = option.0.unwrap();
    assert_eq!(replay_config.path, "/path/to/replays");
    assert_eq!(replay_config.format, "my-replay-%Y-%m-%d");
}

#[test]
fn test_replay_deserialization_with_path_and_default_format() {
    let config_str = r#"
              path: /path/to/replays
        "#;
    let option = OptionalReplayConfig::from_setting(&replay_setting(config_str)).unwrap();
    assert!(option.is_some());
    let replay_config = option.0.unwrap();
    assert_eq!(replay_config.path, "/path/to/replays");
    assert_eq!(replay_config.format, ReplayConfig::default_format());
}

#[test]
fn test_replay_deserialization_with_format_only() {
    let config_str = r#"
              format: custom-format-%H-%M-%S
        "#;
    let option = OptionalReplayConfig::from_setting(&replay_setting(config_str)).unwrap();
    assert!(option.is_some());
    let replay_config = option.0.unwrap();
    assert_eq!(replay_config.path, ReplayConfig::default_path());
    assert_eq!(replay_config.format, "custom-format-%H-%M-%S");
}

#[test]
fn test_replay_deserialization_invalid_value() {
    let config_str = r#"
            invalid
        "#;
    let result = OptionalReplayConfig::from_setting(&replay_setting(config_str));
    assert!(result.is_err());
    assert_eq!(result, Err(ReplaySettingError::ExpectedBooleanOrMapping));
}

#[test]
fn replay_defaults() {
    assert_eq!(ReplayConfig::default_path(), "replays");
    assert_eq!(ReplayConfig::default_format(), "{seed}-{time:%Y-%m-%dT%H-%M-%S}");
}
