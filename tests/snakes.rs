use snake_arena::direction::Direction;
use snake_arena::grid::GridPosition;
use snake_arena::snakes::Snake;

fn snake_with_body(direction: Direction, intent: Option<Direction>) -> Snake {
    Snake {
        length: 4,
        head: GridPosition::new(5, 5),
        body: vec![GridPosition::new(4, 5), GridPosition::new(3, 5)],
        direction,
        intent,
    }
}

#[test]
fn reversal_is_replaced_by_current_heading() {
    let mut s = snake_with_body(Direction::East, Some(Direction::West));
    s.limit_move();
    assert_eq!(s.intent, Some(Direction::East));
}

#[test]
fn legal_turn_is_kept() {
    let mut s = snake_with_body(Direction::East, Some(Direction::North));
    s.settle_intent();
    assert_eq!(s.intent, Some(Direction::North));
}

#[test]
fn bodiless_snake_may_turn_back() {
    let mut s = Snake::new(GridPosition::new(1, 1));
    s.intent = Some(Direction::South);
    s.limit_move();
    assert_eq!(s.intent, Some(Direction::South));
}

#[test]
fn missing_intent_defaults_to_heading() {
    let mut s = snake_with_body(Direction::South, None);
    s.default_move();
    assert_eq!(s.intent, Some(Direction::South));
}

#[test]
fn new_snake_defaults() {
    let s = Snake::new(GridPosition::new(2, 3));
    assert_eq!(s.length, 6);
    assert!(s.body.is_empty());
    assert_eq!(s.direction, Direction::North);
    assert_eq!(s.intent, None);
}

#[test]
fn slither_grows_until_length_then_trims() {
    let mut s = Snake::new(GridPosition::new(0, 0));
    s.length = 3;
    for _ in 0..4 {
        s.intent = Some(Direction::East);
        s.slither();
    }
    assert_eq!(s.head, GridPosition::new(4, 0));
    assert_eq!(s.body, vec![GridPosition::new(3, 0), GridPosition::new(2, 0)]);
    assert_eq!(s.direction, Direction::East);
    assert_eq!(s.intent, None);
}

#[test]
fn zero_length_snake_keeps_no_body() {
    let mut s = snake_with_body(Direction::East, Some(Direction::East));
    s.length = 0;
    s.slither();
    assert!(s.body.is_empty());
    assert_eq!(s.head, GridPosition::new(6, 5));
}

#[test]
fn feeding_grows_and_shrinks() {
    let mut s = Snake::new(GridPosition::new(0, 0));
    assert!(!s.feed(5));
    assert_eq!(s.length, 11);
    assert!(!s.feed(-11));
    assert_eq!(s.length, 0);
    let mut t = Snake::new(GridPosition::new(0, 0));
    assert!(t.feed(-7));
    assert_eq!(t.length, 6);
    t.length = u32::MAX - 1;
    assert!(!t.feed(5));
    assert_eq!(t.length, u32::MAX);
}
