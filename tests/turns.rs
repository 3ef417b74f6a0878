use snake_arena::turns::{GameState, TimeoutError, TimeoutSetting, Turn, TurnConfig, TurnTimer};

fn timeout_setting(yaml: &str) -> TimeoutSetting {
    let value: serde_yaml::Value = serde_yaml::from_str(yaml).unwrap();
    match value.get("timeout") {
        Some(serde_yaml::Value::Bool(b)) => TimeoutSetting::Flag(*b),
        Some(v) => match v.as_u64() {
            Some(n) => TimeoutSetting::Unsigned(n),
            None => TimeoutSetting::Other,
        },
        None => TimeoutSetting::Other,
    }
}

#[test]
fn test_deserialize_timeout_with_value() {
    let yaml = r#"
            timeout: 100
        "#;
    let turn_time = TurnConfig::deserialize_timeout(&timeout_setting(yaml));
    assert_eq!(turn_time, Ok(Some(100)));
}

#[test]
fn test_deserialize_timeout_with_false() {
    let yaml = r#"
            timeout: false
        "#;
    let turn_time = TurnConfig::deserialize_timeout(&timeout_setting(yaml));
    assert_eq!(turn_time, Ok(None));
}

#[test]
fn test_deserialize_timeout_with_true() {
    let yaml = r#"
            timeout: true
        "#;
    let result = TurnConfig::deserialize_timeout(&timeout_setting(yaml));
    assert!(result.is_err());
}

#[test]
fn test_deserialize_timeout_with_invalid_value() {
    let yaml = r#"
            timeout: 23.1
        "#;
    let result = TurnConfig::deserialize_timeout(&timeout_setting(yaml));
    assert_eq!(result, Err(TimeoutError::ExpectedIntegerOrFalse));
}

#[test]
fn turn_config_defaults() {
    let c = TurnConfig::default();
    assert_eq!(c.turn_time, Some(100));
    assert!(!c.end_early);
    assert_eq!(c.max_turns, 1500);
    assert!(!c.start_paused);
}

#[test]
fn end_turn_advances_by_exactly_one_and_clears_flags() {
    let mut t = Turn::new(Some(50), false, 10);
    t.request();
    t.tick_timer(60);
    t.update_ready(false);
    assert!(t.turn_ready());
    t.end_turn();
    assert_eq!(t.current, 1);
    assert!(!t.turn_ready());
    assert!(!t.turn_requested());
    assert_eq!(t.timer, Some(TurnTimer { duration: 50, elapsed: 0 }));
}

#[test]
fn lock_step_waits_for_every_reply() {
    // Two players, no timer: one reply is not enough, however long it takes.
    let mut t = Turn::from_config(TurnConfig { turn_time: None, end_early: false, max_turns: 5, start_paused: false });
    t.tick_timer(10_000);
    let replies = [true, false];
    t.update_ready(replies.iter().all(|r| *r));
    assert!(!t.turn_ready());
    let replies = [true, true];
    t.update_ready(replies.iter().all(|r| *r));
    assert!(t.turn_ready());
}

#[test]
fn timer_makes_the_turn_ready_without_replies() {
    let mut t = Turn::new(Some(100), false, 5);
    t.tick_timer(60);
    t.update_ready(false);
    assert!(!t.turn_ready());
    t.tick_timer(60);
    assert_eq!(t.timer, Some(TurnTimer { duration: 100, elapsed: 100 }));
    t.update_ready(false);
    assert!(t.turn_ready());
}

#[test]
fn end_early_resolves_once_all_have_replied() {
    let mut t = Turn::new(Some(100), true, 5);
    t.update_ready(true);
    assert!(t.turn_ready());
    let mut u = Turn::new(Some(100), false, 5);
    u.update_ready(true);
    assert!(!u.turn_ready());
}

#[test]
fn no_turn_is_ready_after_the_last() {
    let mut t = Turn::new(None, false, 1);
    t.update_ready(true);
    t.end_turn();
    assert!(t.turns_finished());
    t.update_ready(true);
    assert!(!t.turn_ready());
}

#[test]
fn reset_keeps_the_counter() {
    let mut t = Turn::new(Some(20), false, 3);
    t.request();
    t.tick_timer(5);
    t.reset();
    assert_eq!(t.current, 0);
    assert!(!t.turn_requested());
    assert_eq!(t.timer, Some(TurnTimer { duration: 20, elapsed: 0 }));
}

#[test]
fn turn_from_config() {
    let t = Turn::from(TurnConfig { turn_time: Some(40), end_early: true, max_turns: 9, start_paused: true });
    assert_eq!(t.timer, Some(TurnTimer { duration: 40, elapsed: 0 }));
    assert!(t.end_early);
    assert_eq!(t.max, 9);
    assert_eq!(t.current, 0);
    assert!(!t.ready && !t.requested);
}

#[test]
fn a_single_step_pauses_after_its_turn() {
    assert_eq!(GameState::Step.after_pass(false), GameState::Step);
    assert_eq!(GameState::Step.after_pass(true), GameState::Paused);
    assert_eq!(GameState::Running.after_pass(true), GameState::Running);
    assert!(GameState::Paused.is_paused());
    assert!(!GameState::Step.is_paused());
}
