use survivor_core::attacks::{
    attack_collision, attack_lifetime, cooldown_for, nearest_enemy, spawn_attacks, AttackSpawner,
};
use survivor_core::enemy::{
    despawn_enemies, enemy_attack, enemy_movement, AttackTimer, XP_PER_KILL,
};
use survivor_core::entities::{Attack, Enemy, Pickup, Player};
use survivor_core::geometry::Pos;
use survivor_core::pickups::pickup_collision;

fn enemy_at(x: i64, y: i64) -> Enemy {
    Enemy::new(Pos { x, y })
}

#[test]
fn attack_cooldown_formula() {
    assert_eq!(cooldown_for(0), 2_000_000_000);
    assert_eq!(cooldown_for(10), 1_800_000_000);
    assert_eq!(cooldown_for(100), 0);
    assert_eq!(cooldown_for(250), 0);
}

#[test]
fn nearest_live_enemy_first_on_ties() {
    let mut dead = enemy_at(1000, 0);
    dead.health = 0;
    let enemies = vec![dead, enemy_at(0, 5000), enemy_at(5000, 0), enemy_at(9000, 0)];
    assert_eq!(nearest_enemy(&enemies, Pos { x: 0, y: 0 }), Some(1));
    assert_eq!(nearest_enemy(&vec![dead], Pos { x: 0, y: 0 }), None);
    assert_eq!(nearest_enemy(&Vec::new(), Pos { x: 0, y: 0 }), None);
}

#[test]
fn attacks_come_in_bursts_toward_the_nearest_enemy() {
    let mut spawner = AttackSpawner::new();
    let mut attacks: Vec<Attack> = Vec::new();
    let player = Player::new();
    let enemies = vec![enemy_at(300_000, 0)];
    assert!(!spawn_attacks(&mut spawner, &mut attacks, &player, &enemies, 1_999_999_999));
    assert!(spawn_attacks(&mut spawner, &mut attacks, &player, &enemies, 1));
    assert_eq!(attacks.len(), 1);
    assert_eq!(attacks[0].pos, Pos { x: 50_000, y: 0 });
    assert_eq!(spawner.attack_i, 1);
    assert!(!spawner.next_attack.paused);
    assert!(!spawn_attacks(&mut spawner, &mut attacks, &player, &enemies, 499_999_999));
    assert!(spawn_attacks(&mut spawner, &mut attacks, &player, &enemies, 1));
    assert_eq!(attacks.len(), 2);
    assert_eq!(spawner.attack_i, 0);
    assert!(spawner.next_attack.paused);
}

#[test]
fn no_attack_without_live_enemies() {
    let mut spawner = AttackSpawner::new();
    let mut attacks: Vec<Attack> = Vec::new();
    let player = Player::new();
    assert!(!spawn_attacks(&mut spawner, &mut attacks, &player, &Vec::new(), 5_000_000_000));
    assert!(attacks.is_empty());
    assert_eq!(spawner.cooldown.elapsed_ns, 0);
}

#[test]
fn attack_removed_exactly_when_its_lifetime_finishes() {
    let mut attacks = vec![Attack::new(Pos { x: 0, y: 0 })];
    attack_lifetime(&mut attacks, 499_999_999);
    assert_eq!(attacks.len(), 1);
    attack_lifetime(&mut attacks, 1);
    assert!(attacks.is_empty());
}

#[test]
fn attack_lifetime_keeps_order() {
    let mut old = Attack::new(Pos { x: 1, y: 1 });
    old.lifetime.tick(400_000_000);
    let mut attacks = vec![Attack::new(Pos { x: 0, y: 0 }), old, Attack::new(Pos { x: 2, y: 2 })];
    attack_lifetime(&mut attacks, 100_000_000);
    assert_eq!(attacks.len(), 2);
    assert_eq!(attacks[0].pos, Pos { x: 0, y: 0 });
    assert_eq!(attacks[1].pos, Pos { x: 2, y: 2 });
}

#[test]
fn attacks_hit_live_enemies_in_range() {
    let attacks = vec![Attack::new(Pos { x: 0, y: 0 })];
    let mut far = enemy_at(50_000, 0);
    far.health = 30_000;
    let mut near = enemy_at(49_999, 0);
    near.health = 30_000;
    let mut dead = enemy_at(0, 0);
    dead.health = 0;
    let mut enemies = vec![far, near, dead];
    attack_collision(&attacks, &mut enemies, 777);
    assert_eq!(enemies[0].health, 30_000);
    assert_eq!(enemies[0].last_damage_ns, None);
    assert_eq!(enemies[1].health, 20_000);
    assert_eq!(enemies[1].last_damage_ns, Some(777));
    assert_eq!(enemies[2].health, 0);
    assert_eq!(enemies[2].last_damage_ns, None);
}

#[test]
fn enemies_walk_toward_the_player_unless_frozen() {
    let mut frozen = enemy_at(100_000, 0);
    frozen.last_damage_ns = Some(1_000_000_000);
    let mut dead = enemy_at(0, 100_000);
    dead.health = -5;
    let mut enemies = vec![enemy_at(100_000, 0), frozen, dead, enemy_at(-100_000, 0)];
    enemy_movement(&mut enemies, Pos { x: 0, y: 0 }, 1_400_000_000, 100_000_000);
    assert_eq!(enemies[0].pos, Pos { x: 90_000, y: 0 });
    assert!(enemies[0].flip_x);
    assert_eq!(enemies[1].pos, Pos { x: 100_000, y: 0 });
    assert_eq!(enemies[2].pos, Pos { x: 0, y: 100_000 });
    assert_eq!(enemies[3].pos, Pos { x: -90_000, y: 0 });
    assert!(!enemies[3].flip_x);
    enemy_movement(&mut enemies, Pos { x: 0, y: 0 }, 1_500_000_000, 100_000_000);
    assert_eq!(enemies[1].pos, Pos { x: 90_000, y: 0 });
}

#[test]
fn contact_damage_uses_a_shared_cooldown() {
    let mut player = Player::new();
    let enemies = vec![enemy_at(10_000, 0), enemy_at(0, 10_000)];
    let mut timer = AttackTimer::new();
    assert!(!enemy_attack(&mut player, &enemies, &mut timer, 5, 99_999_999));
    assert_eq!(player.health, 100_000);
    assert!(enemy_attack(&mut player, &enemies, &mut timer, 6, 1));
    assert_eq!(player.health, 98_800);
    assert!(player.recent_damage);
    assert_eq!(player.last_damage_ns, 6);
}

#[test]
fn dead_enemies_do_not_touch() {
    let mut player = Player::new();
    let mut dead = enemy_at(10_000, 0);
    dead.health = 0;
    let mut timer = AttackTimer::new();
    assert!(!enemy_attack(&mut player, &vec![dead, enemy_at(32_000, 0)], &mut timer, 0, 100_000_000));
    assert_eq!(player.health, 100_000);
}

#[test]
fn dead_enemy_stays_for_the_grace_window_and_pays_once() {
    let mut player = Player::new();
    let mut e = enemy_at(1000, 0);
    e.health = 0;
    e.last_damage_ns = Some(1_000_000_000);
    let mut enemies = vec![e, enemy_at(2000, 0)];
    despawn_enemies(&mut enemies, &mut player, 1_500_000_000);
    assert_eq!(enemies.len(), 2);
    assert_eq!(player.xp, 0);
    despawn_enemies(&mut enemies, &mut player, 1_500_000_001);
    assert_eq!(enemies.len(), 1);
    assert_eq!(enemies[0].pos, Pos { x: 2000, y: 0 });
    assert_eq!(player.xp, XP_PER_KILL);
    despawn_enemies(&mut enemies, &mut player, 9_000_000_000);
    assert_eq!(player.xp, XP_PER_KILL);
}

#[test]
fn far_enemies_are_culled_without_experience() {
    let mut player = Player::new();
    let mut far_dead = enemy_at(4_000_001, 0);
    far_dead.health = 0;
    let mut enemies = vec![enemy_at(4_000_000, 0), enemy_at(0, -4_000_001), far_dead];
    despawn_enemies(&mut enemies, &mut player, 10_000_000_000);
    assert_eq!(enemies.len(), 1);
    assert_eq!(player.xp, 0);
}

#[test]
fn pickups_heal_up_to_the_maximum() {
    let mut player = Player::new();
    player.health = 60_000;
    let mut pickups = vec![
        Pickup { pos: Pos { x: 32_000, y: 0 } },
        Pickup { pos: Pos { x: 40_000, y: 0 } },
        Pickup { pos: Pos { x: 0, y: -1000 } },
    ];
    pickup_collision(&mut player, &mut pickups);
    assert_eq!(player.health, 100_000);
    assert_eq!(pickups.len(), 1);
    assert_eq!(pickups[0].pos, Pos { x: 40_000, y: 0 });
    player.health = 10_000;
    let mut one = vec![Pickup { pos: Pos { x: 0, y: 0 } }];
    pickup_collision(&mut player, &mut one);
    assert_eq!(player.health, 35_000);
}

#[test]
fn enemy_damage_flash() {
    let mut e = enemy_at(0, 0);
    assert_eq!(survivor_core::enemy::color_change_cooldown(&e, 5), Some(false));
    e.last_damage_ns = Some(1_000_000_000);
    assert_eq!(survivor_core::enemy::color_change_cooldown(&e, 1_100_000_000), Some(true));
    assert_eq!(survivor_core::enemy::color_change_cooldown(&e, 1_300_000_000), None);
    assert_eq!(survivor_core::enemy::color_change_cooldown(&e, 1_600_000_000), Some(false));
}
