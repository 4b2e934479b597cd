use vstd::prelude::*;
use crate::geometry::Pos;
use crate::timer::{Timer, TimerMode};

verus! {

/// Health of a fresh player, in thousandths of a point.
pub const PLAYER_HEALTH: i64 = 100_000;
/// Health lost by the player on one enemy contact.
pub const CONTACT_DAMAGE: i64 = 1_200;
/// Experience needed for the first level-up.
pub const FIRST_LEVEL_XP: u64 = 1000;
/// Health of a fresh enemy.
pub const ENEMY_HEALTH: i64 = 10_000;
/// Lifetime of an attack hitbox.
pub const ATTACK_LIFETIME_NS: u64 = 500_000_000;

/// The player character.
#[derive(Clone, Copy, Debug)]
pub struct Player {
    pub pos: Pos,
    pub health: i64,
    pub max_health: i64,
    pub recent_damage: bool,
    pub last_damage_ns: u64,
    pub xp: u64,
    pub level: u64,
    pub next_level: u64,
    /// Added to the base movement speed, in thousandths of a unit per second.
    pub movement_speed_mod: u64,
    /// Reduction of the attack cooldown, in percent.
    pub attack_speed_mod: u64,
    /// Presentation: the sprite faces left.
    pub flip_x: bool,
}

/// `a + b`, or the largest `u64` where the sum does not fit.
pub open spec fn sat_add(a: u64, b: int) -> u64 {
    if a + b > u64::MAX {
        u64::MAX
    } else {
        (a + b) as u64
    }
}

/// `a - b`, or the smallest `i64` where the difference does not fit.
pub open spec fn sat_sub(a: i64, b: i64) -> i64 {
    if a - b < i64::MIN {
        i64::MIN
    } else {
        (a - b) as i64
    }
}

impl Player {
    /// A fresh player at the origin.
    pub open spec fn fresh() -> Player {
        Player {
            pos: Pos { x: 0, y: 0 },
            health: PLAYER_HEALTH,
            max_health: PLAYER_HEALTH,
            recent_damage: false,
            last_damage_ns: 0,
            xp: 0,
            level: 1,
            next_level: FIRST_LEVEL_XP,
            movement_speed_mod: 0,
            attack_speed_mod: 0,
            flip_x: false,
        }
    }

    pub fn new() -> (r: Player)
        ensures
            r == Player::fresh(),
    {
        Player {
            pos: Pos::origin(),
            health: PLAYER_HEALTH,
            max_health: PLAYER_HEALTH,
            recent_damage: false,
            last_damage_ns: 0,
            xp: 0,
            level: 1,
            next_level: FIRST_LEVEL_XP,
            movement_speed_mod: 0,
            attack_speed_mod: 0,
            flip_x: false,
        }
    }

    /// One enemy contact: loses `CONTACT_DAMAGE` and is marked as hit.
    pub fn receive_damage(&mut self)
        ensures
            *final(self) == (Player {
                health: sat_sub(old(self).health, CONTACT_DAMAGE),
                recent_damage: true,
                ..*old(self)
            }),
    {
        self.health = if self.health < i64::MIN + CONTACT_DAMAGE {
            i64::MIN
        } else {
            self.health - CONTACT_DAMAGE
        };
        self.recent_damage = true;
    }

    /// The threshold that follows the current one: its double.
    pub fn xp_to_next_level(&self) -> (r: u64)
        ensures
            r == sat_add(self.next_level, self.next_level as int),
    {
        self.next_level.saturating_add(self.next_level)
    }

    pub fn gain_xp(&mut self, xp: u64)
        ensures
            *final(self) == (Player { xp: sat_add(old(self).xp, xp as int), ..*old(self) }),
    {
        self.xp = self.xp.saturating_add(xp);
    }
}

/// A pursuing enemy.
#[derive(Clone, Copy, Debug)]
pub struct Enemy {
    pub pos: Pos,
    pub health: i64,
    /// Run time of the last hit taken; `None` while never hit.
    pub last_damage_ns: Option<u64>,
    /// Presentation: the sprite faces left.
    pub flip_x: bool,
}

impl Enemy {
    pub open spec fn fresh(pos: Pos) -> Enemy {
        Enemy { pos, health: ENEMY_HEALTH, last_damage_ns: None, flip_x: false }
    }

    pub fn new(pos: Pos) -> (r: Enemy)
        ensures
            r == Enemy::fresh(pos),
    {
        Enemy { pos, health: ENEMY_HEALTH, last_damage_ns: None, flip_x: false }
    }

    pub open spec fn is_dead(self) -> bool {
        self.health <= 0
    }

    pub fn receive_damage(&mut self, damage: i64)
        requires
            damage >= 0,
        ensures
            *final(self) == (Enemy { health: sat_sub(old(self).health, damage), ..*old(self) }),
    {
        self.health = if self.health < i64::MIN + damage {
            i64::MIN
        } else {
            self.health - damage
        };
    }
}

/// A short-lived hitbox created by the player's attack.
#[derive(Clone, Copy, Debug)]
pub struct Attack {
    pub pos: Pos,
    pub lifetime: Timer,
}

impl Attack {
    pub open spec fn fresh(pos: Pos) -> Attack {
        Attack { pos, lifetime: Timer::fresh(ATTACK_LIFETIME_NS, TimerMode::Once) }
    }

    pub fn new(pos: Pos) -> (r: Attack)
        ensures
            r == Attack::fresh(pos),
            r.lifetime.wf(),
            !r.lifetime.paused,
    {
        Attack { pos, lifetime: Timer::new(ATTACK_LIFETIME_NS, TimerMode::Once) }
    }
}

/// A health potion lying in the world.
#[derive(Clone, Copy, Debug, PartialEq, Eq, Structural)]
pub struct Pickup {
    pub pos: Pos,
}

} // verus!
