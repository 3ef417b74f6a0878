use rand::rngs::StdRng;
use rand::SeedableRng;
use snake_arena::grid::{GameGrid, GridPosition};

#[test]
fn grid_new_and_default_sizes() {
    let g = GameGrid::new(7, 3);
    assert_eq!((g.width, g.height), (7, 3));
    let d = GameGrid::default();
    assert_eq!((d.width, d.height), (32, 32));
}

#[test]
fn contains_position_checks_all_four_edges() {
    let g = GameGrid::new(10, 5);
    assert!(g.contains_position(&GridPosition::new(0, 0)));
    assert!(g.contains_position(&GridPosition::new(9, 4)));
    assert!(!g.contains_position(&GridPosition::new(10, 0)));
    assert!(!g.contains_position(&GridPosition::new(0, 5)));
    assert!(!g.contains_position(&GridPosition::new(-1, 2)));
    assert!(!g.contains_position(&GridPosition::new(3, -1)));
}

#[test]
fn step_moves_one_cell() {
    let p = GridPosition::new(4, 4);
    assert_eq!(p.step(snake_arena::direction::Direction::North), GridPosition::new(4, 5));
    assert_eq!(p.step(snake_arena::direction::Direction::West), GridPosition::new(3, 4));
}

#[test]
fn unoccupied_position_is_free_and_inside() {
    let g = GameGrid::new(3, 2);
    let occupied = vec![
        GridPosition::new(0, 0),
        GridPosition::new(1, 0),
        GridPosition::new(2, 0),
        GridPosition::new(0, 1),
        GridPosition::new(2, 1),
    ];
    let mut rng = StdRng::seed_from_u64(7);
    for _ in 0..20 {
        let p = g.get_unoccupied_position(&occupied, &mut rng);
        assert_eq!(p, Some(GridPosition::new(1, 1)));
    }
}

#[test]
fn random_positions_stay_on_the_grid() {
    let g = GameGrid::new(4, 4);
    let mut rng = StdRng::seed_from_u64(11);
    for _ in 0..50 {
        let p = g.get_unoccupied_position(&vec![], &mut rng).unwrap();
        assert!(g.contains_position(&p));
    }
}

#[test]
fn full_grid_has_no_free_cell() {
    let g = GameGrid::new(2, 1);
    let occupied = vec![GridPosition::new(0, 0), GridPosition::new(1, 0)];
    let mut rng = StdRng::seed_from_u64(3);
    assert_eq!(g.get_unoccupied_position(&occupied, &mut rng), None);
    assert_eq!(g.first_unoccupied(&occupied), None);
}

#[test]
fn first_unoccupied_scans_row_by_row() {
    let g = GameGrid::new(2, 2);
    let occupied = vec![GridPosition::new(0, 0), GridPosition::new(1, 0)];
    assert_eq!(g.first_unoccupied(&occupied), Some(GridPosition::new(0, 1)));
}
