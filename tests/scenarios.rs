use rand::rngs::SmallRng;
use rand::SeedableRng;
use survivor_core::entities::{Attack, Enemy, Pickup, Player};
use survivor_core::geometry::{squared_distance, Pos};
use survivor_core::player::MenuButtonAction;
use survivor_core::timer::{Timer, TimerMode};
use survivor_core::world::{GameState, TickInput, World};

fn running_world(seed: u64) -> World {
    let mut w = World::new(SmallRng::seed_from_u64(seed));
    assert_eq!(w.state, GameState::Loading);
    w.tick(0, TickInput::idle());
    assert_eq!(w.state, GameState::Running);
    w
}

#[test]
fn loading_starts_a_run_with_a_fresh_player() {
    let w = running_world(1);
    let p = w.player.unwrap();
    assert_eq!(p.health, 100_000);
    assert_eq!(p.pos, Pos { x: 0, y: 0 });
    assert_eq!(w.clock.elapsed_ns, 0);
}

#[test]
fn first_wave_lands_outside_the_inner_radius() {
    let mut w = running_world(2);
    w.spawn_timer.countdown = Timer::new(1000, TimerMode::Repeating);
    w.tick(1000, TickInput::idle());
    assert_eq!(w.enemies.len(), 1);
    let d = squared_distance(Pos { x: 0, y: 0 }, w.enemies[0].pos);
    assert!(d >= 1_000_000u128 * 1_000_000);
}

#[test]
fn touching_enemy_deals_contact_damage_once() {
    let mut w = running_world(3);
    w.enemies.push(Enemy::new(Pos { x: 10_000, y: 0 }));
    w.attack_timer.countdown.elapsed_ns = w.attack_timer.countdown.duration_ns;
    let ev = w.tick(0, TickInput::idle());
    assert_eq!(w.player.unwrap().health, 100_000 - 1_200);
    assert!(ev.hit_cue);
    assert!(w.hit_cue.is_some());
    assert!(w.player.unwrap().recent_damage);
}

#[test]
fn hit_cue_is_not_repeated_while_one_plays() {
    let mut w = running_world(4);
    w.enemies.push(Enemy::new(Pos { x: 10_000, y: 0 }));
    w.hit_cue = Some(Timer::new(5_000_000_000, TimerMode::Once));
    w.attack_timer.countdown.elapsed_ns = w.attack_timer.countdown.duration_ns;
    let ev = w.tick(0, TickInput::idle());
    assert_eq!(w.player.unwrap().health, 100_000 - 1_200);
    assert!(!ev.hit_cue);
}

#[test]
fn reaching_the_threshold_opens_the_level_up_choice() {
    let mut w = running_world(5);
    let mut p = w.player.unwrap();
    p.xp = p.next_level;
    w.player = Some(p);
    w.tick(1_000_000, TickInput::idle());
    assert_eq!(w.state, GameState::LevelUpScreen);
    assert!(w.state.is_paused());
    assert_eq!(w.player.unwrap().next_level, 2000);
    assert_eq!(w.player.unwrap().level, 2);
    let clock = w.clock.elapsed_ns;
    w.tick(1_000_000, TickInput::idle());
    assert_eq!(w.state, GameState::LevelUpScreen);
    assert_eq!(w.clock.elapsed_ns, clock);
    let mut input = TickInput::idle();
    input.choice = Some(MenuButtonAction::AttackSpeed);
    w.tick(1_000_000, input);
    assert_eq!(w.state, GameState::Running);
    assert!(w.player.unwrap().attack_speed_mod > 0);
}

#[test]
fn death_ends_the_run_and_restart_clears_it() {
    let mut w = running_world(6);
    let mut p = w.player.unwrap();
    p.health = 0;
    w.player = Some(p);
    w.tick(1_000_000, TickInput::idle());
    assert_eq!(w.state, GameState::GameOver);
    assert!(w.player.is_none());
    w.enemies.push(Enemy::new(Pos { x: 5, y: 5 }));
    w.attacks.push(Attack::new(Pos { x: 5, y: 5 }));
    w.pickups.push(Pickup { pos: Pos { x: 5, y: 5 } });
    w.tick(1_000_000, TickInput::idle());
    assert_eq!(w.state, GameState::GameOver);
    assert_eq!(w.enemies.len(), 1);
    let mut input = TickInput::idle();
    input.restart = true;
    w.tick(1_000_000, input);
    assert_eq!(w.state, GameState::Running);
    assert!(w.enemies.is_empty());
    assert!(w.attacks.is_empty());
    assert!(w.pickups.is_empty());
    let p = w.player.unwrap();
    assert_eq!(p.health, p.max_health);
    assert_eq!(p.health, 100_000);
    assert_eq!(p.pos, Pos { x: 0, y: 0 });
    assert_eq!(w.clock.elapsed_ns, 0);
}

#[test]
fn manual_pause_holds_the_simulation() {
    let mut w = running_world(7);
    let mut input = TickInput::idle();
    input.pause = true;
    w.tick(1_000_000, input);
    assert_eq!(w.state, GameState::Paused);
    w.tick(1_000_000_000, TickInput::idle());
    assert_eq!(w.clock.elapsed_ns, 0);
    let mut input = TickInput::idle();
    input.unpause = true;
    w.tick(0, input);
    assert_eq!(w.state, GameState::Running);
    w.tick(5, TickInput::idle());
    assert_eq!(w.clock.elapsed_ns, 5);
}

#[test]
fn enemy_count_stays_under_the_cap_over_many_ticks() {
    let mut w = running_world(8);
    w.clock.elapsed_ns = 3_600_000_000_000;
    for _ in 0..200 {
        w.spawn_timer.countdown = Timer::new(1, TimerMode::Repeating);
        w.tick(16_000_000, TickInput::idle());
        assert!(w.enemies.len() <= 10_000);
        if w.state != GameState::Running {
            break;
        }
    }
    assert!(!w.enemies.is_empty());
}

#[test]
fn player_movement_input_moves_the_player() {
    let mut w = running_world(9);
    let mut input = TickInput::idle();
    input.move_x = 1;
    w.tick(1_000_000_000, input);
    assert_eq!(w.player.unwrap().pos, Pos { x: 100_000, y: 0 });
}

#[test]
fn fresh_enemy_defaults() {
    let e = Enemy::new(Pos { x: 1, y: 2 });
    assert_eq!(e.health, 10_000);
    assert_eq!(e.last_damage_ns, None);
    let p: Player = Player::new();
    assert!(!p.recent_damage);
}

#[test]
fn nothing_advances_outside_running() {
    let mut w = running_world(10);
    let mut input = TickInput::idle();
    input.pause = true;
    w.tick(1_000_000, input);
    let spawn_elapsed = w.spawn_timer.countdown.elapsed_ns;
    let contact_elapsed = w.attack_timer.countdown.elapsed_ns;
    w.enemies.push(Enemy::new(Pos { x: 10_000, y: 0 }));
    w.tick(3_000_000_000, TickInput::idle());
    assert_eq!(w.spawn_timer.countdown.elapsed_ns, spawn_elapsed);
    assert_eq!(w.attack_timer.countdown.elapsed_ns, contact_elapsed);
    assert_eq!(w.enemies.len(), 1);
    assert_eq!(w.enemies[0].pos, Pos { x: 10_000, y: 0 });
    assert_eq!(w.player.unwrap().health, 100_000);
}

#[test]
fn several_touching_enemies_start_one_cue_and_one_hit() {
    let mut w = running_world(11);
    w.enemies.push(Enemy::new(Pos { x: 10_000, y: 0 }));
    w.enemies.push(Enemy::new(Pos { x: -10_000, y: 0 }));
    w.enemies.push(Enemy::new(Pos { x: 0, y: 10_000 }));
    w.attack_timer.countdown.elapsed_ns = w.attack_timer.countdown.duration_ns;
    let ev = w.tick(0, TickInput::idle());
    assert!(ev.hit_cue);
    assert_eq!(w.player.unwrap().health, 100_000 - 1_200);
    assert_eq!(w.hit_cue.unwrap().duration_ns, 5_000_000_000);
}
