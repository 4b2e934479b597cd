use vstd::prelude::*;
use crate::attacks::{attacks_in_world, attacks_wf};
use crate::entities::{sat_add, Attack, Player};
use crate::enemy::BASE_MOVE_SPEED;
use crate::geometry::{clamp_coord, clamp_spec, Pos};
use crate::sampling::ARENA_LIMIT;
use crate::timer::{Timer, TimerMode, NANOS_PER_SEC};

verus! {

/// Attack-speed bonus of one level-up choice, in percent.
pub const ATTACK_SPEED_BONUS: u64 = 10;
/// Movement-speed bonus of one level-up choice, in thousandths of a unit per second.
pub const MOVEMENT_SPEED_BONUS: u64 = 250;
/// Maximum-health bonus of one level-up choice.
pub const HEALTH_BONUS: i64 = 25_000;
/// How long a hit cue plays.
pub const HIT_CUE_NS: u64 = 5_000_000_000;
/// A hit cue only counts down once this long has passed since the hit.
pub const HIT_CUE_SETTLE_NS: u64 = 1_000_000;

/// The three permanent upgrades offered on a level-up.
#[derive(Clone, Copy, Debug, PartialEq, Eq, Structural)]
pub enum MenuButtonAction {
    AttackSpeed,
    MovementSpeed,
    Health,
}

/// `v` brought into the bound on the player's coordinates.
pub open spec fn clamp_arena(v: int) -> i64 {
    if v < -ARENA_LIMIT {
        (-ARENA_LIMIT) as i64
    } else if v > ARENA_LIMIT {
        ARENA_LIMIT
    } else {
        v as i64
    }
}

/// The player's speed, in thousandths of a unit per second.
pub open spec fn player_speed(p: Player) -> u64 {
    sat_add(BASE_MOVE_SPEED, p.movement_speed_mod as int)
}

/// Where the player stands after walking along (dx, dy) for `delta`.
pub open spec fn walked(p: Player, dx: int, dy: int, delta: u64) -> Pos {
    let step = (player_speed(p) * delta) / (NANOS_PER_SEC as int);
    Pos { x: clamp_arena(p.pos.x + dx * step), y: clamp_arena(p.pos.y + dy * step) }
}

/// Which way the player faces after walking along `dx` horizontally.
pub open spec fn facing(flip_x: bool, dx: int) -> bool {
    if dx < 0 {
        true
    } else if dx > 0 {
        false
    } else {
        flip_x
    }
}

/// An attack carried along by the player's displacement (ox, oy).
pub open spec fn carried(a: Attack, ox: int, oy: int) -> Attack {
    Attack {
        pos: Pos { x: clamp_spec(a.pos.x + ox) as i64, y: clamp_spec(a.pos.y + oy) as i64 },
        ..a
    }
}

fn clamp_to_arena(v: i128) -> (r: i64)
    ensures
        r == clamp_arena(v as int),
{
    if v < -(ARENA_LIMIT as i128) {
        -ARENA_LIMIT
    } else if v > ARENA_LIMIT as i128 {
        ARENA_LIMIT
    } else {
        v as i64
    }
}

/// Moves every attack by (ox, oy), within the world bound.
fn carry_attacks(attacks: &mut Vec<Attack>, ox: i64, oy: i64)
    requires
        attacks_in_world(old(attacks)@),
        -2 * ARENA_LIMIT <= ox <= 2 * ARENA_LIMIT,
        -2 * ARENA_LIMIT <= oy <= 2 * ARENA_LIMIT,
    ensures
        final(attacks)@.len() == old(attacks)@.len(),
        forall|k: int|
            0 <= k < old(attacks)@.len() ==> #[trigger] final(attacks)@[k] == carried(
                old(attacks)@[k],
                ox as int,
                oy as int,
            ),
        attacks_in_world(final(attacks)@),
        attacks_wf(old(attacks)@) ==> attacks_wf(final(attacks)@),
{
    let ghost s = attacks@;
    let n = attacks.len();
    let mut i: usize = 0;
    while i < n
        invariant
            n == s.len(),
            attacks@.len() == n,
            attacks_in_world(s),
            -2 * ARENA_LIMIT <= ox <= 2 * ARENA_LIMIT,
            -2 * ARENA_LIMIT <= oy <= 2 * ARENA_LIMIT,
            forall|k: int| 0 <= k < i ==> #[trigger] attacks@[k] == carried(s[k], ox as int, oy as int),
            forall|k: int| i <= k < n ==> #[trigger] attacks@[k] == s[k],
            forall|k: int| 0 <= k < n ==> (#[trigger] attacks@[k]).lifetime == s[k].lifetime,
            attacks_in_world(attacks@),
        decreases n - i,
    {
        let mut a = attacks[i];
        assert(s[i as int].pos.in_world());
        a.pos = Pos { x: clamp_coord(a.pos.x as i128 + ox as i128), y: clamp_coord(a.pos.y as i128 + oy as i128) };
        attacks.set(i, a);
        i += 1;
    }
}

/// Walks the player along the input direction at its speed, facing the
/// horizontal direction of travel; live attacks move with the player.
pub fn move_player(player: &mut Player, attacks: &mut Vec<Attack>, dir_x: i8, dir_y: i8, delta_ns: u64)
    requires
        -1 <= dir_x <= 1,
        -1 <= dir_y <= 1,
        old(player).pos.in_arena(),
        attacks_in_world(old(attacks)@),
    ensures
        final(player).pos == walked(*old(player), dir_x as int, dir_y as int, delta_ns),
        final(player).flip_x == facing(old(player).flip_x, dir_x as int),
        *final(player) == (Player { pos: final(player).pos, flip_x: final(player).flip_x, ..*old(player) }),
        final(player).pos.in_arena(),
        final(attacks)@.len() == old(attacks)@.len(),
        forall|k: int|
            0 <= k < old(attacks)@.len() ==> #[trigger] final(attacks)@[k] == carried(
                old(attacks)@[k],
                final(player).pos.x - old(player).pos.x,
                final(player).pos.y - old(player).pos.y,
            ),
        attacks_in_world(final(attacks)@),
        attacks_wf(old(attacks)@) ==> attacks_wf(final(attacks)@),
{
    let speed: u64 = BASE_MOVE_SPEED.saturating_add(player.movement_speed_mod);
    assert((speed as int) * (delta_ns as int) <= 0xffff_ffff_ffff_fffe_0000_0000_0000_0001int)
        by (nonlinear_arith)
        requires
            0 <= speed <= 0xffff_ffff_ffff_ffffu64,
            0 <= delta_ns <= 0xffff_ffff_ffff_ffffu64,
    ;
    let step: u128 = (speed as u128) * (delta_ns as u128) / (NANOS_PER_SEC as u128);
    assert(step <= (speed as int) * (delta_ns as int)) by (nonlinear_arith)
        requires
            step == ((speed as int) * (delta_ns as int)) / (NANOS_PER_SEC as int),
            (speed as int) * (delta_ns as int) >= 0,
    ;
    let old_pos = player.pos;
    proof {
        let top: int = 0xffff_ffff_ffff_fffe_0000_0000_0000_0001int;
        vstd::arithmetic::div_mod::lemma_div_is_ordered(
            (speed as int) * (delta_ns as int),
            top,
            NANOS_PER_SEC as int,
        );
        vstd::arithmetic::div_mod::lemma_fundamental_div_mod(top, NANOS_PER_SEC as int);
        vstd::arithmetic::div_mod::lemma_mod_pos_bound(top, NANOS_PER_SEC as int);
        assert(top / (NANOS_PER_SEC as int) < 0x10_0000_0000_0000_0000_0000_0000);
    }
    let sx: i128 = if dir_x < 0 {
        -(step as i128)
    } else if dir_x > 0 {
        step as i128
    } else {
        0
    };
    let sy: i128 = if dir_y < 0 {
        -(step as i128)
    } else if dir_y > 0 {
        step as i128
    } else {
        0
    };
    assert(sx == (dir_x as int) * (step as int)) by (nonlinear_arith)
        requires
            dir_x == -1 ==> sx == -step,
            dir_x == 1 ==> sx == step,
            dir_x == 0 ==> sx == 0,
            -1 <= dir_x <= 1,
    ;
    assert(sy == (dir_y as int) * (step as int)) by (nonlinear_arith)
        requires
            dir_y == -1 ==> sy == -step,
            dir_y == 1 ==> sy == step,
            dir_y == 0 ==> sy == 0,
            -1 <= dir_y <= 1,
    ;
    assert(speed == player_speed(*player));
    player.pos = Pos {
        x: clamp_to_arena(old_pos.x as i128 + sx),
        y: clamp_to_arena(old_pos.y as i128 + sy),
    };
    if dir_x < 0 {
        player.flip_x = true;
    } else if dir_x > 0 {
        player.flip_x = false;
    }
    let ox: i64 = player.pos.x - old_pos.x;
    let oy: i64 = player.pos.y - old_pos.y;
    carry_attacks(attacks, ox, oy);
}

/// On reaching the threshold the player gains a level and the threshold
/// doubles. Returns whether a level was gained.
pub fn gain_level(player: &mut Player) -> (leveled: bool)
    ensures
        leveled == (old(player).xp >= old(player).next_level),
        leveled ==> *final(player) == (Player {
            level: sat_add(old(player).level, 1),
            next_level: sat_add(old(player).next_level, old(player).next_level as int),
            ..*old(player)
        }),
        !leveled ==> *final(player) == *old(player),
{
    if player.xp >= player.next_level {
        player.level = player.level.saturating_add(1);
        player.next_level = player.xp_to_next_level();
        true
    } else {
        false
    }
}

/// The player after choosing an upgrade.
pub open spec fn upgraded(p: Player, action: MenuButtonAction) -> Player {
    match action {
        MenuButtonAction::AttackSpeed => Player {
            attack_speed_mod: sat_add(p.attack_speed_mod, ATTACK_SPEED_BONUS as int),
            ..p
        },
        MenuButtonAction::MovementSpeed => Player {
            movement_speed_mod: sat_add(p.movement_speed_mod, MOVEMENT_SPEED_BONUS as int),
            ..p
        },
        MenuButtonAction::Health => Player {
            max_health: if p.max_health + HEALTH_BONUS > i64::MAX {
                i64::MAX
            } else {
                (p.max_health + HEALTH_BONUS) as i64
            },
            ..p
        },
    }
}

/// Applies the chosen upgrade.
pub fn menu_action(player: &mut Player, action: MenuButtonAction)
    ensures
        *final(player) == upgraded(*old(player), action),
{
    match action {
        MenuButtonAction::AttackSpeed => {
            player.attack_speed_mod = player.attack_speed_mod.saturating_add(ATTACK_SPEED_BONUS);
        },
        MenuButtonAction::MovementSpeed => {
            player.movement_speed_mod = player.movement_speed_mod.saturating_add(
                MOVEMENT_SPEED_BONUS,
            );
        },
        MenuButtonAction::Health => {
            player.max_health = if player.max_health > i64::MAX - HEALTH_BONUS {
                i64::MAX
            } else {
                player.max_health + HEALTH_BONUS
            };
        },
    }
}

/// The hit cue's timer after one tick: it counts down while the player is
/// marked as hit and the hit is more than `HIT_CUE_SETTLE_NS` old.
pub open spec fn cue_ticked(t: Timer, p: Player, now: u64, delta: u64) -> Timer {
    if now > p.last_damage_ns + HIT_CUE_SETTLE_NS {
        t.ticked(delta)
    } else {
        t
    }
}

/// The hit cue and the player after one countdown step.
pub open spec fn cue_after(cue: Option<Timer>, p: Player, now: u64, delta: u64) -> (Option<Timer>, Player) {
    match cue {
        None => (cue, p),
        Some(t) => if !p.recent_damage {
            (cue, p)
        } else {
            let t2 = cue_ticked(t, p, now, delta);
            if t2.finished {
                (None, Player { recent_damage: false, ..p })
            } else {
                (Some(t2), p)
            }
        },
    }
}

/// Counts down the hit cue; when it ends, the cue goes away and the player
/// is no longer marked as hit.
pub fn damage_audio_cooldown(player: &mut Player, cue: &mut Option<Timer>, now_ns: u64, delta_ns: u64)
    requires
        *old(cue) matches Some(t) ==> t.wf(),
    ensures
        *final(cue) matches Some(t) ==> t.wf(),
        (*final(cue), *final(player)) == cue_after(*old(cue), *old(player), now_ns, delta_ns),
{
    if !player.recent_damage {
        return ;
    }
    match cue {
        None => {},
        Some(t) => {
            let mut t2 = *t;
            if (now_ns as u128) > (player.last_damage_ns as u128) + (HIT_CUE_SETTLE_NS as u128) {
                t2.tick(delta_ns);
            }
            if t2.finished() {
                player.recent_damage = false;
                *cue = None;
            } else {
                *cue = Some(t2);
            }
        },
    }
}

/// A hit cue that has just started.
pub fn new_hit_cue() -> (r: Timer)
    ensures
        r == Timer::fresh(HIT_CUE_NS, TimerMode::Once),
        r.wf(),
{
    Timer::new(HIT_CUE_NS, TimerMode::Once)
}

/// The player's damage flash lasts this long after a hit.
pub const FLASH_NS: u64 = 100_000_000;

/// The change to the player's damage flash at `now`: none unless marked as
/// hit; on within `FLASH_NS` of the hit, off after.
pub open spec fn player_flash(p: Player, now: u64) -> Option<bool> {
    if !p.recent_damage {
        None
    } else if now > p.last_damage_ns + FLASH_NS {
        Some(false)
    } else {
        Some(true)
    }
}

pub fn color_change_cooldown(p: &Player, now_ns: u64) -> (r: Option<bool>)
    ensures
        r == player_flash(*p, now_ns),
{
    if !p.recent_damage {
        None
    } else if now_ns as u128 > p.last_damage_ns as u128 + FLASH_NS as u128 {
        Some(false)
    } else {
        Some(true)
    }
}

/// Choosing an upgrade strictly increases the chosen modifier, short of
/// its largest value.
pub proof fn lemma_upgrade_increases(p: Player, action: MenuButtonAction)
    requires
        p.attack_speed_mod < u64::MAX - ATTACK_SPEED_BONUS,
        p.movement_speed_mod < u64::MAX - MOVEMENT_SPEED_BONUS,
        p.max_health < i64::MAX - HEALTH_BONUS,
    ensures
        action == MenuButtonAction::AttackSpeed ==> upgraded(p, action).attack_speed_mod
            > p.attack_speed_mod,
        action == MenuButtonAction::MovementSpeed ==> upgraded(p, action).movement_speed_mod
            > p.movement_speed_mod,
        action == MenuButtonAction::Health ==> upgraded(p, action).max_health > p.max_health,
{
}

} // verus!
