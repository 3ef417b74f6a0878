use snake_arena::direction::{keyboard_move, Direction};

#[test]
fn deltas_follow_the_compass() {
    assert_eq!(Direction::North.delta_x(), 0);
    assert_eq!(Direction::North.delta_y(), 1);
    assert_eq!(Direction::South.delta_y(), -1);
    assert_eq!(Direction::East.delta_x(), 1);
    assert_eq!(Direction::West.delta_x(), -1);
    assert_eq!(Direction::East.delta_y(), 0);
}

#[test]
fn opposite_reverses_each_heading() {
    assert_eq!(Direction::North.opposite(), Direction::South);
    assert_eq!(Direction::East.opposite(), Direction::West);
    assert_eq!(Direction::South.opposite(), Direction::North);
    assert_eq!(Direction::West.opposite(), Direction::East);
}

#[test]
fn cardinals_are_in_clockwise_order() {
    assert_eq!(
        Direction::cardinals(),
        [Direction::North, Direction::East, Direction::South, Direction::West]
    );
}

#[test]
fn reply_tokens_are_read_without_case() {
    assert_eq!(Direction::from_str("north"), Ok(Direction::North));
    assert_eq!(Direction::from_str("N"), Ok(Direction::North));
    assert_eq!(Direction::from_str("0"), Ok(Direction::North));
    assert_eq!(Direction::from_str("EaSt"), Ok(Direction::East));
    assert_eq!(Direction::from_str("e"), Ok(Direction::East));
    assert_eq!(Direction::from_str("1"), Ok(Direction::East));
    assert_eq!(Direction::from_str("SOUTH"), Ok(Direction::South));
    assert_eq!(Direction::from_str("s"), Ok(Direction::South));
    assert_eq!(Direction::from_str("2"), Ok(Direction::South));
    assert_eq!(Direction::from_str("West"), Ok(Direction::West));
    assert_eq!(Direction::from_str("w"), Ok(Direction::West));
    assert_eq!(Direction::from_str("3"), Ok(Direction::West));
}

#[test]
fn malformed_replies_are_refused() {
    assert_eq!(Direction::from_str(""), Err(()));
    assert_eq!(Direction::from_str("4"), Err(()));
    assert_eq!(Direction::from_str("up"), Err(()));
    assert_eq!(Direction::from_str("north "), Err(()));
    assert_eq!(Direction::from_str("nort"), Err(()));
    assert_eq!(Direction::from_str("northh"), Err(()));
}

#[test]
fn folded_tokens_must_already_be_lower_case() {
    assert_eq!(Direction::from_folded(b"west"), Some(Direction::West));
    assert_eq!(Direction::from_folded(b"WEST"), None);
}

#[test]
fn keyboard_takes_the_first_key_pressed() {
    assert_eq!(keyboard_move(false, false, false, false), None);
    assert_eq!(keyboard_move(false, true, true, false), Some(Direction::East));
    assert_eq!(keyboard_move(true, false, false, true), Some(Direction::North));
    assert_eq!(keyboard_move(false, false, false, true), Some(Direction::West));
}
