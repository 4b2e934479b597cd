use survivor_core::entities::Enemy;
use survivor_core::geometry::Pos;
use survivor_core::grid::{cell_of_pos, enemy_collision, SpatialGrid};

fn enemy_at(x: i64, y: i64) -> Enemy {
    Enemy::new(Pos { x, y })
}

#[test]
fn rebuild_files_enemies_by_cell() {
    let enemies = vec![
        enemy_at(10, 10),
        enemy_at(400_000, 10),
        enemy_at(20, 299_999),
        enemy_at(-5, 0),
    ];
    let mut grid = SpatialGrid::new();
    grid.rebuild(&enemies);
    assert_eq!(grid.neighbors_of((0, 0)), vec![0, 2]);
    assert_eq!(grid.neighbors_of((1, 0)), vec![1]);
    assert_eq!(grid.neighbors_of((-1, 0)), vec![3]);
    assert_eq!(grid.neighbors_of((5, 5)), Vec::<usize>::new());
    assert_eq!(cell_of_pos(Pos { x: -5, y: 0 }), (-1, 0));
}

#[test]
fn rebuilding_twice_gives_identical_buckets() {
    let enemies = vec![enemy_at(10, 10), enemy_at(700_000, -900_000), enemy_at(15, 12)];
    let mut grid = SpatialGrid::new();
    grid.rebuild(&enemies);
    let first: Vec<Vec<usize>> = [(0, 0), (2, -3), (1, 1)]
        .iter()
        .map(|&c| grid.neighbors_of(c))
        .collect();
    grid.rebuild(&enemies);
    let second: Vec<Vec<usize>> = [(0, 0), (2, -3), (1, 1)]
        .iter()
        .map(|&c| grid.neighbors_of(c))
        .collect();
    assert_eq!(first, second);
    assert_eq!(first[0], vec![0, 2]);
    assert_eq!(first[1], vec![1]);
}

#[test]
fn rebuild_forgets_old_positions() {
    let mut grid = SpatialGrid::new();
    grid.rebuild(&vec![enemy_at(10, 10)]);
    grid.rebuild(&vec![enemy_at(400_000, 10)]);
    assert!(grid.neighbors_of((0, 0)).is_empty());
    assert_eq!(grid.neighbors_of((1, 0)), vec![0]);
}

#[test]
fn overlapping_enemies_are_pushed_apart() {
    let mut enemies = vec![enemy_at(0, 0), enemy_at(10_000, 0), enemy_at(100_000, 0)];
    let mut grid = SpatialGrid::new();
    grid.rebuild(&enemies);
    enemy_collision(&grid, &mut enemies);
    assert_eq!(enemies[0].pos, Pos { x: -2000, y: 0 });
    assert_eq!(enemies[1].pos, Pos { x: 12_000, y: 0 });
    assert_eq!(enemies[2].pos, Pos { x: 100_000, y: 0 });
}

#[test]
fn enemies_in_different_cells_are_not_separated() {
    let mut enemies = vec![enemy_at(299_990, 0), enemy_at(300_010, 0)];
    let mut grid = SpatialGrid::new();
    grid.rebuild(&enemies);
    enemy_collision(&grid, &mut enemies);
    assert_eq!(enemies[0].pos, Pos { x: 299_990, y: 0 });
    assert_eq!(enemies[1].pos, Pos { x: 300_010, y: 0 });
}

#[test]
fn coinciding_enemies_do_not_move() {
    let mut enemies = vec![enemy_at(5, 5), enemy_at(5, 5)];
    let mut grid = SpatialGrid::new();
    grid.rebuild(&enemies);
    enemy_collision(&grid, &mut enemies);
    assert_eq!(enemies[0].pos, Pos { x: 5, y: 5 });
}

#[test]
fn separation_is_symmetric_on_a_diagonal_pair() {
    let mut enemies = vec![enemy_at(10_000, 10_000), enemy_at(0, 0)];
    let mut grid = SpatialGrid::new();
    grid.rebuild(&enemies);
    enemy_collision(&grid, &mut enemies);
    assert_eq!(enemies[0].pos, Pos { x: 11_414, y: 11_414 });
    assert_eq!(enemies[1].pos, Pos { x: -1414, y: -1414 });
}

#[test]
fn a_chain_of_three_pushes_the_middle_both_ways() {
    let mut enemies = vec![enemy_at(0, 0), enemy_at(10_000, 0), enemy_at(20_000, 0)];
    let mut grid = SpatialGrid::new();
    grid.rebuild(&enemies);
    enemy_collision(&grid, &mut enemies);
    assert_eq!(enemies[0].pos, Pos { x: -2000, y: 0 });
    assert_eq!(enemies[1].pos, Pos { x: 10_000, y: 0 });
    assert_eq!(enemies[2].pos, Pos { x: 22_000, y: 0 });
}
