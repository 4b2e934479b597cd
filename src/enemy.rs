use vstd::prelude::*;
use crate::entities::{sat_add, Enemy, Player, CONTACT_DAMAGE};
use crate::geometry::{move_toward, moved_toward, sq_dist, squared_distance, Pos};
use crate::grid::all_in_world;
use crate::sampling::{in_annulus, random_in, random_point_within_radius};
use crate::timer::{Timer, TimerMode, NANOS_PER_SEC};

verus! {

/// Most enemies alive at once.
pub const MAX_ENEMIES: usize = 10_000;
/// Enemy speed, in thousandths of a unit per second.
pub const BASE_MOVE_SPEED: u64 = 100_000;
/// After a hit, an enemy stands still this long.
pub const FREEZE_NS: u64 = 500_000_000;
/// A dead enemy stays this long after its last hit before it is removed.
pub const GRACE_NS: u64 = 500_000_000;
/// An enemy closer than this touches the player.
pub const CONTACT_RADIUS: i64 = 32_000;
/// An enemy farther than this from the player is removed.
pub const CULL_RADIUS: i64 = 4_000_000;
/// Experience granted for each enemy removed after dying.
pub const XP_PER_KILL: u64 = 25;
/// Cycle of the shared contact-damage cooldown.
pub const CONTACT_COOLDOWN_NS: u64 = 100_000_000;
/// Spawn interval at the start of a run.
pub const BASE_SPAWN_INTERVAL_NS: u64 = 1_000_000_000;
/// Shortest spawn interval.
pub const MIN_SPAWN_INTERVAL_NS: u64 = 100_000_000;
/// First spawn interval is drawn from `[FIRST_SPAWN_MIN_NS, FIRST_SPAWN_MAX_NS)`.
pub const FIRST_SPAWN_MIN_NS: i64 = 500_000_000;
pub const FIRST_SPAWN_MAX_NS: i64 = 2_000_000_000;
/// Run time over which the smallest batch grows by one.
pub const BATCH_LOW_STEP_NS: u64 = 60_000_000_000;
/// Run time over which the largest batch grows by one.
pub const BATCH_HIGH_STEP_NS: u64 = 30_000_000_000;

/// The repeating timer that paces enemy waves.
#[derive(Clone, Copy, Debug)]
pub struct SpawnTimer {
    pub countdown: Timer,
}

impl SpawnTimer {
    /// A wave timer whose first interval is drawn uniformly from half a
    /// second up to two seconds.
    pub fn new(rng: &mut rand::rngs::SmallRng) -> (r: SpawnTimer)
        ensures
            r.countdown.wf(),
            r.countdown.mode == TimerMode::Repeating,
            r.countdown.elapsed_ns == 0,
            !r.countdown.paused,
            !r.countdown.finished,
            FIRST_SPAWN_MIN_NS <= r.countdown.duration_ns < FIRST_SPAWN_MAX_NS,
    {
        let d = random_in(rng, FIRST_SPAWN_MIN_NS, FIRST_SPAWN_MAX_NS);
        SpawnTimer { countdown: Timer::new(d as u64, TimerMode::Repeating) }
    }
}

/// The shared cooldown of enemy contact damage.
#[derive(Clone, Copy, Debug)]
pub struct AttackTimer {
    pub countdown: Timer,
}

impl AttackTimer {
    pub fn new() -> (r: AttackTimer)
        ensures
            r.countdown == Timer::fresh(CONTACT_COOLDOWN_NS, TimerMode::Repeating),
            r.countdown.wf(),
    {
        AttackTimer { countdown: Timer::new(CONTACT_COOLDOWN_NS, TimerMode::Repeating) }
    }
}

/// `ceil(a / b)`.
pub open spec fn ceil_div(a: int, b: int) -> int {
    a / b + if a % b == 0 {
        0int
    } else {
        1int
    }
}

/// The wave interval after `elapsed` nanoseconds of run time: one second,
/// less one second per two minutes of run time, never under a tenth of a second.
pub open spec fn spawn_interval(elapsed: u64) -> u64 {
    if elapsed / 120 + MIN_SPAWN_INTERVAL_NS >= BASE_SPAWN_INTERVAL_NS {
        MIN_SPAWN_INTERVAL_NS
    } else {
        (BASE_SPAWN_INTERVAL_NS - elapsed / 120) as u64
    }
}

/// Smallest wave: one more per minute of run time, and at least one.
pub open spec fn batch_low(elapsed: u64) -> int {
    let c = ceil_div(elapsed as int, BATCH_LOW_STEP_NS as int);
    if c < 1 {
        1
    } else {
        c
    }
}

/// Bound (exclusive) on the wave size: one more per half minute of run
/// time, and above `batch_low`.
pub open spec fn batch_high(elapsed: u64) -> int {
    let c = ceil_div(elapsed as int, BATCH_HIGH_STEP_NS as int);
    if c < batch_low(elapsed) + 1 {
        batch_low(elapsed) + 1
    } else {
        c
    }
}

pub fn next_spawn_interval(elapsed: u64) -> (r: u64)
    ensures
        r == spawn_interval(elapsed),
        r >= MIN_SPAWN_INTERVAL_NS,
{
    let shrink = elapsed / 120;
    if shrink >= BASE_SPAWN_INTERVAL_NS - MIN_SPAWN_INTERVAL_NS {
        MIN_SPAWN_INTERVAL_NS
    } else {
        BASE_SPAWN_INTERVAL_NS - shrink
    }
}

fn ceil_div_u64(a: u64, b: u64) -> (r: u64)
    requires
        b >= 2,
    ensures
        r == ceil_div(a as int, b as int),
{
    assert(a / b < 0xffff_ffff_ffff_ffffu64) by (nonlinear_arith)
        requires
            b >= 2,
            0 <= a <= 0xffff_ffff_ffff_ffffu64,
    ;
    if a % b == 0 {
        a / b
    } else {
        a / b + 1
    }
}

/// The range `[lo, hi)` from which the size of a wave is drawn.
pub fn batch_bounds(elapsed: u64) -> (r: (i64, i64))
    ensures
        r.0 == batch_low(elapsed),
        r.1 == batch_high(elapsed),
        1 <= r.0 < r.1,
{
    let low = ceil_div_u64(elapsed, BATCH_LOW_STEP_NS);
    let low: u64 = if low < 1 {
        1
    } else {
        low
    };
    let high = ceil_div_u64(elapsed, BATCH_HIGH_STEP_NS);
    let high: u64 = if high < low + 1 {
        low + 1
    } else {
        high
    };
    (low as i64, high as i64)
}

/// Advances the wave timer; when it completes, spawns a wave of fresh
/// enemies on the ring around the player, as many as drawn from the
/// wave range but never more than the cap leaves room for, and restarts
/// the timer with the interval for the current run time.
pub fn spawn_enemies(
    enemies: &mut Vec<Enemy>,
    timer: &mut SpawnTimer,
    player_pos: Pos,
    delta_ns: u64,
    elapsed_ns: u64,
    rng: &mut rand::rngs::SmallRng,
) -> (spawned: usize)
    requires
        old(timer).countdown.wf(),
        player_pos.in_arena(),
    ensures
        final(timer).countdown.wf(),
        final(enemies)@.len() == old(enemies)@.len() + spawned,
        old(enemies)@.len() <= MAX_ENEMIES ==> final(enemies)@.len() <= MAX_ENEMIES,
        old(enemies)@.len() >= MAX_ENEMIES ==> spawned == 0,
        forall|k: int| 0 <= k < old(enemies)@.len() ==> #[trigger] final(enemies)@[k] == old(enemies)@[k],
        forall|k: int|
            old(enemies)@.len() <= k < final(enemies)@.len() ==> {
                &&& #[trigger] final(enemies)@[k] == Enemy::fresh(final(enemies)@[k].pos)
                &&& in_annulus(player_pos, final(enemies)@[k].pos)
                &&& final(enemies)@[k].pos.in_world()
            },
        !old(timer).countdown.ticked(delta_ns).finished ==> spawned == 0 && final(timer).countdown
            == old(timer).countdown.ticked(delta_ns),
        old(timer).countdown.ticked(delta_ns).finished ==> final(timer).countdown == Timer::fresh(
            spawn_interval(elapsed_ns),
            TimerMode::Repeating,
        ),
        old(timer).countdown.ticked(delta_ns).finished ==> exists|d: int|
            batch_low(elapsed_ns) <= d < batch_high(elapsed_ns) && spawned == #[trigger] capped(
                d,
                room_left(old(enemies)@.len()),
            ),
{
    timer.countdown.tick(delta_ns);
    if !timer.countdown.finished() {
        return 0;
    }
    let (lo, hi) = batch_bounds(elapsed_ns);
    let drawn = random_in(rng, lo, hi);
    let room: usize = MAX_ENEMIES.saturating_sub(enemies.len());
    let count: usize = if (drawn as u64) < (room as u64) {
        drawn as usize
    } else {
        room
    };
    let ghost old_es = enemies@;
    let mut k: usize = 0;
    while k < count
        invariant
            k <= count,
            count <= room,
            room == room_left(old_es.len()),
            player_pos.in_arena(),
            enemies@.len() == old_es.len() + k,
            forall|j: int| 0 <= j < old_es.len() ==> #[trigger] enemies@[j] == old_es[j],
            forall|j: int|
                old_es.len() <= j < enemies@.len() ==> {
                    &&& #[trigger] enemies@[j] == Enemy::fresh(enemies@[j].pos)
                    &&& in_annulus(player_pos, enemies@[j].pos)
                    &&& enemies@[j].pos.in_world()
                },
        decreases count - k,
    {
        let pos = random_point_within_radius(rng, player_pos);
        enemies.push(Enemy::new(pos));
        k += 1;
    }
    timer.countdown = Timer::new(next_spawn_interval(elapsed_ns), TimerMode::Repeating);
    assert(capped(drawn as int, room as int) == count);
    count
}

/// Enemies that still fit under the cap.
pub open spec fn room_left(len: nat) -> int {
    if len >= MAX_ENEMIES {
        0
    } else {
        MAX_ENEMIES - len
    }
}

/// A wave of `d` enemies where only `room` fit.
pub open spec fn capped(d: int, room: int) -> int {
    if d < room {
        d
    } else {
        room
    }
}

/// A hit at `t` still holds the enemy in place at `now`.
pub open spec fn frozen(e: Enemy, now: u64) -> bool {
    e.last_damage_ns matches Some(t) && now < t + FREEZE_NS
}

/// Distance covered in `delta` nanoseconds at the base speed.
pub open spec fn move_step(delta: u64) -> int {
    (BASE_MOVE_SPEED * delta) / (NANOS_PER_SEC as int)
}

/// An enemy after one movement phase: a live enemy outside its freeze
/// window steps toward the player and faces it; others stay.
pub open spec fn moved_enemy(e: Enemy, player_pos: Pos, now: u64, delta: u64) -> Enemy {
    if e.is_dead() || frozen(e, now) {
        e
    } else {
        let p = moved_toward(e.pos, player_pos, move_step(delta));
        Enemy { pos: p, flip_x: p.x > player_pos.x, ..e }
    }
}

/// Moves every live, unfrozen enemy toward the player.
pub fn enemy_movement(enemies: &mut Vec<Enemy>, player_pos: Pos, now_ns: u64, delta_ns: u64)
    requires
        all_in_world(old(enemies)@),
        player_pos.in_world(),
    ensures
        final(enemies)@.len() == old(enemies)@.len(),
        forall|k: int|
            0 <= k < old(enemies)@.len() ==> #[trigger] final(enemies)@[k] == moved_enemy(
                old(enemies)@[k],
                player_pos,
                now_ns,
                delta_ns,
            ),
        all_in_world(final(enemies)@),
{
    let step: u64 = ((BASE_MOVE_SPEED as u128) * (delta_ns as u128) / (NANOS_PER_SEC as u128)) as u64;
    let ghost es = enemies@;
    let n = enemies.len();
    let mut i: usize = 0;
    while i < n
        invariant
            n == es.len(),
            enemies@.len() == n,
            step == move_step(delta_ns),
            all_in_world(es),
            player_pos.in_world(),
            forall|k: int|
                0 <= k < i ==> #[trigger] enemies@[k] == moved_enemy(es[k], player_pos, now_ns, delta_ns),
            forall|k: int| 0 <= k < i ==> (#[trigger] enemies@[k]).pos.in_world(),
            forall|k: int| i <= k < n ==> #[trigger] enemies@[k] == es[k],
        decreases n - i,
    {
        let mut e = enemies[i];
        let is_frozen = match e.last_damage_ns {
            Some(t) => (now_ns as u128) < (t as u128) + (FREEZE_NS as u128),
            None => false,
        };
        if e.health > 0 && !is_frozen {
            assert(es[i as int].pos.in_world());
            e.pos = move_toward(e.pos, player_pos, step);
            e.flip_x = e.pos.x > player_pos.x;
            enemies.set(i, e);
        }
        i += 1;
    }
}

/// Some live enemy touches the player.
pub open spec fn touching(es: Seq<Enemy>, player_pos: Pos) -> bool {
    exists|k: int|
        0 <= k < es.len() && !(#[trigger] es[k]).is_dead() && sq_dist(es[k].pos, player_pos)
            < CONTACT_RADIUS * CONTACT_RADIUS
}

/// Advances the shared contact cooldown; when it completes while a live
/// enemy touches the player, the player takes contact damage once, stamped
/// with `now`. Returns whether the player was hit.
pub fn enemy_attack(
    player: &mut Player,
    enemies: &Vec<Enemy>,
    attack_timer: &mut AttackTimer,
    now_ns: u64,
    delta_ns: u64,
) -> (hit: bool)
    requires
        old(attack_timer).countdown.wf(),
        old(player).pos.in_world(),
        all_in_world(enemies@),
    ensures
        final(attack_timer).countdown == old(attack_timer).countdown.ticked(delta_ns),
        final(attack_timer).countdown.wf(),
        hit == (old(attack_timer).countdown.ticked(delta_ns).finished && touching(
            enemies@,
            old(player).pos,
        )),
        hit ==> *final(player) == (Player {
            health: crate::entities::sat_sub(old(player).health, CONTACT_DAMAGE),
            recent_damage: true,
            last_damage_ns: now_ns,
            ..*old(player)
        }),
        !hit ==> *final(player) == *old(player),
{
    attack_timer.countdown.tick(delta_ns);
    if !attack_timer.countdown.finished() {
        return false;
    }
    let p = player.pos;
    let mut i: usize = 0;
    let mut found = false;
    while i < enemies.len()
        invariant
            i <= enemies@.len(),
            all_in_world(enemies@),
            p.in_world(),
            found == exists|k: int|
                0 <= k < i && !(#[trigger] enemies@[k]).is_dead() && sq_dist(enemies@[k].pos, p)
                    < CONTACT_RADIUS * CONTACT_RADIUS,
        decreases enemies@.len() - i,
    {
        let e = enemies[i];
        assert(CONTACT_RADIUS * CONTACT_RADIUS == 1_024_000_000);
        if !found && e.health > 0 && squared_distance(e.pos, p) < 1_024_000_000 {
            found = true;
        }
        proof {
            if !found {
                assert forall|k: int|
                    0 <= k < i + 1 && !(#[trigger] enemies@[k]).is_dead() implies !(sq_dist(
                    enemies@[k].pos,
                    p,
                ) < CONTACT_RADIUS * CONTACT_RADIUS) by {
                    if k == i {
                        assert(sq_dist(e.pos, p) == sq_dist(enemies@[k].pos, p));
                    }
                }
            } else {
                if sq_dist(e.pos, p) < CONTACT_RADIUS * CONTACT_RADIUS && e.health > 0 {
                    assert(0 <= i < i + 1 && !enemies@[i as int].is_dead());
                }
            }
        }
        i += 1;
    }
    if found {
        player.receive_damage();
        player.last_damage_ns = now_ns;
    }
    found
}

/// The enemy is farther from the player than the cull radius.
pub open spec fn culled(e: Enemy, player_pos: Pos) -> bool {
    sq_dist(player_pos, e.pos) > CULL_RADIUS * CULL_RADIUS
}

/// The enemy is dead and its grace window has passed.
pub open spec fn expired(e: Enemy, now: u64) -> bool {
    e.is_dead() && match e.last_damage_ns {
        Some(t) => now > t + GRACE_NS,
        None => true,
    }
}

/// The enemy leaves in this despawn pass.
pub open spec fn despawned(e: Enemy, player_pos: Pos, now: u64) -> bool {
    culled(e, player_pos) || expired(e, now)
}

/// The enemy leaves in this despawn pass as a kill, granting experience.
pub open spec fn killed(e: Enemy, player_pos: Pos, now: u64) -> bool {
    !culled(e, player_pos) && expired(e, now)
}

/// Removes the enemies that are too far away (no experience) and the dead
/// ones whose grace window has passed (`XP_PER_KILL` each); the others keep
/// their order.
pub fn despawn_enemies(enemies: &mut Vec<Enemy>, player: &mut Player, now_ns: u64)
    requires
        all_in_world(old(enemies)@),
        old(player).pos.in_world(),
    ensures
        final(enemies)@ == old(enemies)@.filter(|e: Enemy| !despawned(e, old(player).pos, now_ns)),
        *final(player) == (Player {
            xp: sat_add(
                old(player).xp,
                XP_PER_KILL * old(enemies)@.filter(|e: Enemy| killed(e, old(player).pos, now_ns)).len(),
            ),
            ..*old(player)
        }),
        all_in_world(final(enemies)@),
        final(enemies)@.len() <= old(enemies)@.len(),
{
    let ghost es = enemies@;
    let ghost p0 = *player;
    let p = player.pos;
    let ghost keep = |e: Enemy| !despawned(e, p, now_ns);
    let ghost kill = |e: Enemy| killed(e, p, now_ns);
    let mut kept: Vec<Enemy> = Vec::new();
    let mut i: usize = 0;
    proof {
        reveal(Seq::filter);
        assert(es.take(0).filter(keep) =~= Seq::<Enemy>::empty());
        assert(es.take(0).filter(kill) =~= Seq::<Enemy>::empty());
    }
    while i < enemies.len()
        invariant
            i <= es.len(),
            enemies@ == es,
            keep == (|e: Enemy| !despawned(e, p, now_ns)),
            kill == (|e: Enemy| killed(e, p, now_ns)),
            p == p0.pos,
            p.in_world(),
            all_in_world(es),
            kept@ == es.take(i as int).filter(keep),
            all_in_world(kept@),
            *player == (Player {
                xp: sat_add(p0.xp, XP_PER_KILL * es.take(i as int).filter(kill).len()),
                ..p0
            }),
        decreases es.len() - i,
    {
        let e = enemies[i];
        assert(CULL_RADIUS * CULL_RADIUS == 16_000_000_000_000);
        let far = squared_distance(p, e.pos) > 16_000_000_000_000;
        let done = e.health <= 0 && match e.last_damage_ns {
            Some(t) => (now_ns as u128) > (t as u128) + (GRACE_NS as u128),
            None => true,
        };
        proof {
            reveal(Seq::filter);
            let s1 = es.take(i + 1);
            assert(s1.drop_last() =~= es.take(i as int));
            assert(s1.last() == e);
            assert(far == culled(e, p));
            assert(done == expired(e, now_ns));
            assert(s1.filter(keep) == if keep(e) {
                es.take(i as int).filter(keep).push(e)
            } else {
                es.take(i as int).filter(keep)
            });
            assert(s1.filter(kill) == if kill(e) {
                es.take(i as int).filter(kill).push(e)
            } else {
                es.take(i as int).filter(kill)
            });
            let c = es.take(i as int).filter(kill).len();
            assert(XP_PER_KILL * (c + 1) == XP_PER_KILL * c + XP_PER_KILL);
        }
        if far {
        } else if done {
            player.gain_xp(XP_PER_KILL);
        } else {
            kept.push(e);
        }
        i += 1;
    }
    proof {
        assert(es.take(es.len() as int) =~= es);
        es.lemma_filter_len(keep);
    }
    *enemies = kept;
}

/// An enemy's damage flash starts within this long of a hit.
pub const FLASH_ON_NS: u64 = 200_000_000;

/// The change to an enemy's damage flash at `now`: on within
/// `FLASH_ON_NS` of its last hit, off once the freeze window has passed or
/// when it was never hit, unchanged in between.
pub open spec fn enemy_flash(e: Enemy, now: u64) -> Option<bool> {
    match e.last_damage_ns {
        None => Some(false),
        Some(t) => if now < t + FLASH_ON_NS {
            Some(true)
        } else if now > t + FREEZE_NS {
            Some(false)
        } else {
            None
        },
    }
}

pub fn color_change_cooldown(e: &Enemy, now_ns: u64) -> (r: Option<bool>)
    ensures
        r == enemy_flash(*e, now_ns),
{
    match e.last_damage_ns {
        None => Some(false),
        Some(t) => {
            let now = now_ns as u128;
            if now < t as u128 + FLASH_ON_NS as u128 {
                Some(true)
            } else if now > t as u128 + FREEZE_NS as u128 {
                Some(false)
            } else {
                None
            }
        },
    }
}

/// A dead enemy within the cull radius outlasts the despawn pass until more
/// than the grace window has passed since its last hit. A kill is a
/// removal, and each removed dead enemy counts once toward the experience
/// that the pass grants.
pub proof fn lemma_dead_enemy_grace(e: Enemy, player_pos: Pos, now: u64)
    ensures
        e.is_dead() && !culled(e, player_pos) && (e.last_damage_ns matches Some(t) && now <= t
            + GRACE_NS) ==> !despawned(e, player_pos, now),
        killed(e, player_pos, now) ==> despawned(e, player_pos, now),
        seq![e].filter(|x: Enemy| killed(x, player_pos, now)).len() == if killed(
            e,
            player_pos,
            now,
        ) {
            1int
        } else {
            0int
        },
{
    reveal(Seq::filter);
    let s = seq![e];
    assert(s.drop_last() =~= Seq::<Enemy>::empty());
    assert(s.last() == e);
    assert(Seq::<Enemy>::empty().filter(|x: Enemy| killed(x, player_pos, now)) =~= Seq::<
        Enemy,
    >::empty());
}

} // verus!
