use survivor_core::geometry::{
    clamp_coord, isqrt, move_toward, scale_toward_zero, squared_distance, Pos, COORD_LIMIT,
};
use survivor_core::grid::cell_index;
use survivor_core::sampling::annulus_offset;

#[test]
fn integer_square_root() {
    assert_eq!(isqrt(0), 0);
    assert_eq!(isqrt(1), 1);
    assert_eq!(isqrt(99), 9);
    assert_eq!(isqrt(100), 10);
    assert_eq!(isqrt(25_000_000), 5000);
}

#[test]
fn squared_distance_of_a_3_4_5_triangle() {
    let a = Pos { x: 0, y: 0 };
    let b = Pos { x: 3000, y: -4000 };
    assert_eq!(squared_distance(a, b), 25_000_000);
}

#[test]
fn scaling_rounds_toward_zero() {
    assert_eq!(scale_toward_zero(7, 1, 2), 3);
    assert_eq!(scale_toward_zero(-7, 1, 2), -3);
}

#[test]
fn move_toward_steps_along_the_direction() {
    let from = Pos { x: 0, y: 0 };
    let to = Pos { x: 30_000, y: 40_000 };
    assert_eq!(move_toward(from, to, 5000), Pos { x: 3000, y: 4000 });
    assert_eq!(move_toward(from, from, 5000), from);
}

#[test]
fn coordinates_are_clamped_to_the_world() {
    assert_eq!(clamp_coord(i128::MAX), COORD_LIMIT);
    assert_eq!(clamp_coord(-(COORD_LIMIT as i128) - 5), -COORD_LIMIT);
    assert_eq!(clamp_coord(12), 12);
}

#[test]
fn cell_index_rounds_down() {
    assert_eq!(cell_index(0), 0);
    assert_eq!(cell_index(299_999), 0);
    assert_eq!(cell_index(300_000), 1);
    assert_eq!(cell_index(-1), -1);
    assert_eq!(cell_index(-300_000), -1);
    assert_eq!(cell_index(-300_001), -2);
}

#[test]
fn annulus_offset_scales_the_direction() {
    assert_eq!(annulus_offset(1024, 0, 1_500_000), Some((1_500_000, 0)));
    assert_eq!(annulus_offset(0, -512, 1_000_000), Some((0, -1_000_000)));
    assert_eq!(annulus_offset(0, 0, 1_500_000), None);
    assert_eq!(annulus_offset(100, 0, 1_500_000), None);
    assert_eq!(annulus_offset(1024, 1024, 1_500_000), None);
    assert_eq!(annulus_offset(1024, 0, 500_000), None);
}
