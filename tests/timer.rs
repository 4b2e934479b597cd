use survivor_core::timer::{Stopwatch, Timer, TimerMode};

#[test]
fn timer_ticked_by_its_duration_finishes_once() {
    let mut t = Timer::new(500, TimerMode::Once);
    t.tick(500);
    assert!(t.just_finished());
    assert!(t.finished());
    assert_eq!(t.times_finished_this_tick, 1);
    t.tick(500);
    assert!(!t.just_finished());
    assert!(t.finished());
}

#[test]
fn timer_ticked_by_less_never_finishes() {
    let mut t = Timer::new(500, TimerMode::Once);
    t.tick(499);
    assert!(!t.just_finished());
    assert!(!t.finished());
}

#[test]
fn repeating_timer_wraps_and_counts_cycles() {
    let mut t = Timer::new(100, TimerMode::Repeating);
    t.tick(250);
    assert_eq!(t.times_finished_this_tick, 2);
    assert_eq!(t.elapsed_ns, 50);
    assert!(t.finished());
    t.tick(10);
    assert!(!t.finished());
    assert!(!t.just_finished());
    assert_eq!(t.elapsed_ns, 60);
}

#[test]
fn paused_timer_ignores_ticks() {
    let mut t = Timer::new(100, TimerMode::Once);
    t.pause();
    t.tick(1000);
    assert!(!t.finished());
    assert_eq!(t.elapsed_ns, 0);
    t.unpause();
    t.tick(100);
    assert!(t.just_finished());
}

#[test]
fn set_duration_keeps_progress() {
    let mut t = Timer::new(1000, TimerMode::Once);
    t.tick(400);
    t.set_duration(500);
    assert_eq!(t.elapsed_ns, 400);
    assert_eq!(t.duration_ns, 500);
    t.tick(100);
    assert!(t.just_finished());
}

#[test]
fn zero_duration_is_clamped() {
    let mut t = Timer::new(0, TimerMode::Repeating);
    assert_eq!(t.duration_ns, 1);
    t.set_duration(0);
    assert_eq!(t.duration_ns, 1);
    t.tick(3);
    assert_eq!(t.times_finished_this_tick, 3);
}

#[test]
fn reset_starts_a_new_cycle() {
    let mut t = Timer::new(100, TimerMode::Once);
    t.tick(100);
    t.reset();
    assert!(!t.finished());
    assert_eq!(t.elapsed_ns, 0);
}

#[test]
fn stopwatch_accumulates_unless_paused() {
    let mut w = Stopwatch::new();
    w.tick(10);
    w.pause();
    w.tick(10);
    assert_eq!(w.elapsed_ns, 10);
    w.unpause();
    w.tick(u64::MAX);
    assert_eq!(w.elapsed_ns, u64::MAX);
    w.reset();
    assert_eq!(w.elapsed_ns, 0);
}
