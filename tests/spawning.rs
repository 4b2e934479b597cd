use rand::rngs::SmallRng;
use rand::SeedableRng;
use survivor_core::enemy::{
    batch_bounds, next_spawn_interval, spawn_enemies, SpawnTimer, MAX_ENEMIES,
};
use survivor_core::entities::{Enemy, Pickup, ENEMY_HEALTH};
use survivor_core::geometry::{squared_distance, Pos};
use survivor_core::pickups::spawn_pickups;
use survivor_core::sampling::random_point_within_radius;
use survivor_core::timer::{Timer, TimerMode};

const MIN_SQ: u128 = 1_000_000 * 1_000_000;
const MAX_SQ: u128 = 2_000_000 * 2_000_000;

fn due_timer() -> SpawnTimer {
    SpawnTimer { countdown: Timer::new(1000, TimerMode::Repeating) }
}

#[test]
fn spawn_interval_shrinks_to_a_floor() {
    assert_eq!(next_spawn_interval(0), 1_000_000_000);
    assert_eq!(next_spawn_interval(60_000_000_000), 500_000_000);
    assert_eq!(next_spawn_interval(200_000_000_000), 100_000_000);
}

#[test]
fn batch_range_grows_with_run_time() {
    assert_eq!(batch_bounds(0), (1, 2));
    assert_eq!(batch_bounds(90_000_000_000), (2, 3));
    assert_eq!(batch_bounds(600_000_000_000), (10, 20));
}

#[test]
fn spawn_points_lie_on_the_ring() {
    let center = Pos { x: 123_456, y: -654_321 };
    for seed in 0..50u64 {
        let mut rng = SmallRng::seed_from_u64(seed);
        let p = random_point_within_radius(&mut rng, center);
        let d = squared_distance(center, p);
        assert!(d >= MIN_SQ && d <= MAX_SQ, "seed {} gave {:?}", seed, p);
    }
}

#[test]
fn spawn_points_vary() {
    let mut rng = SmallRng::seed_from_u64(3);
    let a = random_point_within_radius(&mut rng, Pos { x: 0, y: 0 });
    let b = random_point_within_radius(&mut rng, Pos { x: 0, y: 0 });
    assert_ne!(a, b);
}

#[test]
fn first_wave_timer_is_drawn_in_range() {
    for seed in 0..20u64 {
        let mut rng = SmallRng::seed_from_u64(seed);
        let t = SpawnTimer::new(&mut rng);
        assert!(t.countdown.duration_ns >= 500_000_000);
        assert!(t.countdown.duration_ns < 2_000_000_000);
    }
}

#[test]
fn first_wave_at_run_start_is_one_enemy_on_the_ring() {
    let mut rng = SmallRng::seed_from_u64(11);
    let mut enemies: Vec<Enemy> = Vec::new();
    let mut timer = due_timer();
    let origin = Pos { x: 0, y: 0 };
    let n = spawn_enemies(&mut enemies, &mut timer, origin, 1000, 0, &mut rng);
    assert_eq!(n, 1);
    assert_eq!(enemies.len(), 1);
    assert_eq!(enemies[0].health, ENEMY_HEALTH);
    assert_eq!(enemies[0].last_damage_ns, None);
    assert!(squared_distance(origin, enemies[0].pos) >= MIN_SQ);
    assert_eq!(timer.countdown.duration_ns, 1_000_000_000);
}

#[test]
fn no_wave_before_the_timer_completes() {
    let mut rng = SmallRng::seed_from_u64(1);
    let mut enemies: Vec<Enemy> = Vec::new();
    let mut timer = due_timer();
    let n = spawn_enemies(&mut enemies, &mut timer, Pos { x: 0, y: 0 }, 999, 0, &mut rng);
    assert_eq!(n, 0);
    assert!(enemies.is_empty());
    assert_eq!(timer.countdown.elapsed_ns, 999);
}

#[test]
fn waves_never_exceed_the_cap() {
    let mut rng = SmallRng::seed_from_u64(5);
    let mut enemies: Vec<Enemy> = vec![Enemy::new(Pos { x: 0, y: 0 }); MAX_ENEMIES - 3];
    let mut timer = due_timer();
    let n = spawn_enemies(&mut enemies, &mut timer, Pos { x: 0, y: 0 }, 1000, 600_000_000_000, &mut rng);
    assert_eq!(n, 3);
    assert_eq!(enemies.len(), MAX_ENEMIES);
    let mut timer = due_timer();
    let n = spawn_enemies(&mut enemies, &mut timer, Pos { x: 0, y: 0 }, 1000, 600_000_000_000, &mut rng);
    assert_eq!(n, 0);
    assert_eq!(enemies.len(), MAX_ENEMIES);
    enemies.push(Enemy::new(Pos { x: 0, y: 0 }));
    let mut timer = due_timer();
    let n = spawn_enemies(&mut enemies, &mut timer, Pos { x: 0, y: 0 }, 1000, 0, &mut rng);
    assert_eq!(n, 0);
    assert_eq!(enemies.len(), MAX_ENEMIES + 1);
}

#[test]
fn pickups_spawn_on_their_timer() {
    let mut rng = SmallRng::seed_from_u64(8);
    let mut pickups: Vec<Pickup> = Vec::new();
    let mut timer = survivor_core::pickups::SpawnTimer {
        countdown: Timer::new(10_000, TimerMode::Repeating),
    };
    let center = Pos { x: 1000, y: 1000 };
    assert!(!spawn_pickups(&mut pickups, &mut timer, center, 9_999, &mut rng));
    assert!(pickups.is_empty());
    assert!(spawn_pickups(&mut pickups, &mut timer, center, 1, &mut rng));
    assert_eq!(pickups.len(), 1);
    let d = squared_distance(center, pickups[0].pos);
    assert!(d >= MIN_SQ && d <= MAX_SQ);
}

#[test]
fn pickup_timer_is_drawn_in_range() {
    let mut rng = SmallRng::seed_from_u64(2);
    let t = survivor_core::pickups::SpawnTimer::new(&mut rng);
    assert!(t.countdown.duration_ns >= 10_000_000_000 && t.countdown.duration_ns < 30_000_000_000);
}
