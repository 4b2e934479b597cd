use vstd::prelude::*;
use crate::entities::{sat_sub, Attack, Enemy, Player, ATTACK_LIFETIME_NS};
use crate::geometry::{move_toward, moved_toward, sq_dist, squared_distance, Pos};
use crate::grid::all_in_world;
use crate::timer::{clamped_duration, Timer, TimerMode};

verus! {

/// Base interval between attack bursts.
pub const ATTACK_INTERVAL_NS: u64 = 2_000_000_000;
/// Delay between the attacks of one burst.
pub const BURST_DELAY_NS: u64 = 500_000_000;
/// Attacks in one burst.
pub const BURST_SIZE: u32 = 2;
/// Distance from the player at which an attack appears.
pub const ATTACK_SPAWN_DISTANCE: u64 = 50_000;
/// An enemy closer than this to an attack is hit.
pub const ATTACK_RADIUS: i64 = 50_000;
/// Health an enemy loses on a hit.
pub const ATTACK_DAMAGE: i64 = 10_000;

/// Every attack lies within the world bound.
pub open spec fn attacks_in_world(s: Seq<Attack>) -> bool {
    forall|k: int| 0 <= k < s.len() ==> (#[trigger] s[k]).pos.in_world()
}

/// Every attack's lifetime is a running, well-formed `Once` timer of
/// `ATTACK_LIFETIME_NS`.
pub open spec fn attacks_wf(s: Seq<Attack>) -> bool {
    forall|k: int| 0 <= k < s.len() ==> (#[trigger] s[k]).lifetime_wf()
}

impl Attack {
    pub open spec fn lifetime_wf(self) -> bool {
        &&& self.lifetime.wf()
        &&& self.lifetime.mode == TimerMode::Once
        &&& !self.lifetime.paused
        &&& self.lifetime.duration_ns == ATTACK_LIFETIME_NS
    }
}

/// The player's automatic attack: a main cooldown, and a short timer that
/// spaces the attacks of one burst.
#[derive(Clone, Copy, Debug)]
pub struct AttackSpawner {
    pub cooldown: Timer,
    pub next_attack: Timer,
    pub n_attacks: u32,
    pub attack_i: u32,
}

/// The main cooldown for an attack-speed bonus of `pct` percent.
pub open spec fn attack_cooldown(pct: u64) -> u64 {
    if pct >= 100 {
        0
    } else {
        (ATTACK_INTERVAL_NS * (100 - pct) / 100) as u64
    }
}

impl AttackSpawner {
    pub open spec fn wf(self) -> bool {
        &&& self.cooldown.wf()
        &&& self.next_attack.wf()
        &&& self.cooldown.mode == TimerMode::Repeating
        &&& self.next_attack.mode == TimerMode::Once
        &&& 1 <= self.n_attacks
        &&& self.attack_i < self.n_attacks
    }

    pub fn new() -> (r: AttackSpawner)
        ensures
            r.cooldown == Timer::fresh(ATTACK_INTERVAL_NS, TimerMode::Repeating),
            r.next_attack == (Timer { paused: true, ..Timer::fresh(BURST_DELAY_NS, TimerMode::Once) }),
            r.n_attacks == BURST_SIZE,
            r.attack_i == 0,
            r.wf(),
    {
        let mut next = Timer::new(BURST_DELAY_NS, TimerMode::Once);
        next.pause();
        AttackSpawner {
            cooldown: Timer::new(ATTACK_INTERVAL_NS, TimerMode::Repeating),
            next_attack: next,
            n_attacks: BURST_SIZE,
            attack_i: 0,
        }
    }

    /// The spawner with its cooldown set for `pct` and both timers ticked.
    pub open spec fn armed(self, pct: u64, delta: u64) -> AttackSpawner {
        AttackSpawner {
            cooldown: Timer {
                duration_ns: clamped_duration(attack_cooldown(pct)),
                ..self.cooldown
            }.ticked(delta),
            next_attack: self.next_attack.ticked(delta),
            ..self
        }
    }

    /// An attack is due.
    pub open spec fn triggered(self) -> bool {
        self.cooldown.finished || self.next_attack.finished
    }

    /// The burst bookkeeping after an attack: the next one of the burst is
    /// scheduled, or the burst ends and the burst timer stops.
    pub open spec fn advanced(self) -> AttackSpawner {
        if self.attack_i + 1 < self.n_attacks {
            AttackSpawner {
                next_attack: Timer {
                    elapsed_ns: 0,
                    finished: false,
                    times_finished_this_tick: 0,
                    paused: false,
                    ..self.next_attack
                },
                attack_i: (self.attack_i + 1) as u32,
                ..self
            }
        } else {
            AttackSpawner {
                next_attack: Timer {
                    elapsed_ns: 0,
                    finished: false,
                    times_finished_this_tick: 0,
                    paused: true,
                    ..self.next_attack
                },
                attack_i: 0,
                ..self
            }
        }
    }
}

pub fn cooldown_for(pct: u64) -> (r: u64)
    ensures
        r == attack_cooldown(pct),
{
    if pct >= 100 {
        0
    } else {
        ATTACK_INTERVAL_NS * (100 - pct) / 100
    }
}

/// Enemy `k` is alive and nearest to `p` among the live enemies; on a tie
/// the first one wins.
pub open spec fn is_nearest(es: Seq<Enemy>, p: Pos, k: int) -> bool {
    &&& 0 <= k < es.len()
    &&& !es[k].is_dead()
    &&& forall|j: int|
        0 <= j < k && !(#[trigger] es[j]).is_dead() ==> sq_dist(p, es[j].pos) > sq_dist(
            p,
            es[k].pos,
        )
    &&& forall|j: int|
        k < j < es.len() && !(#[trigger] es[j]).is_dead() ==> sq_dist(p, es[j].pos) >= sq_dist(
            p,
            es[k].pos,
        )
}

/// Some enemy is alive.
pub open spec fn any_live(es: Seq<Enemy>) -> bool {
    exists|k: int| 0 <= k < es.len() && !(#[trigger] es[k]).is_dead()
}

/// The index of the live enemy nearest to `p`, the first on a tie.
pub fn nearest_enemy(enemies: &Vec<Enemy>, p: Pos) -> (r: Option<usize>)
    requires
        all_in_world(enemies@),
        p.in_world(),
    ensures
        r matches Some(k) ==> is_nearest(enemies@, p, k as int),
        r is None <==> !any_live(enemies@),
{
    let mut best: Option<usize> = None;
    let mut best_d: u128 = 0;
    let mut i: usize = 0;
    while i < enemies.len()
        invariant
            i <= enemies@.len(),
            all_in_world(enemies@),
            p.in_world(),
            best is None ==> forall|j: int| 0 <= j < i ==> (#[trigger] enemies@[j]).is_dead(),
            best matches Some(k) ==> {
                &&& k < i
                &&& best_d == sq_dist(p, enemies@[k as int].pos)
                &&& is_nearest(enemies@.take(i as int), p, k as int)
            },
        decreases enemies@.len() - i,
    {
        let e = enemies[i];
        if e.health > 0 {
            let d = squared_distance(p, e.pos);
            match best {
                None => {
                    best = Some(i);
                    best_d = d;
                },
                Some(k) => {
                    if d < best_d {
                        best = Some(i);
                        best_d = d;
                    }
                },
            }
        }
        proof {
            let t = enemies@.take(i + 1);
            assert(t.take(i as int) =~= enemies@.take(i as int));
            match best {
                Some(k) => {
                    if k == i {
                        assert forall|j: int|
                            0 <= j < k && !(#[trigger] t[j]).is_dead() implies sq_dist(p, t[j].pos)
                            > sq_dist(p, t[k as int].pos) by {
                            assert(enemies@.take(i as int)[j] == t[j]);
                        }
                    } else {
                        assert forall|j: int|
                            k < j < t.len() && !(#[trigger] t[j]).is_dead() implies sq_dist(
                            p,
                            t[j].pos,
                        ) >= sq_dist(p, t[k as int].pos) by {
                            if j < i {
                                assert(enemies@.take(i as int)[j] == t[j]);
                            }
                        }
                        assert forall|j: int|
                            0 <= j < k && !(#[trigger] t[j]).is_dead() implies sq_dist(p, t[j].pos)
                            > sq_dist(p, t[k as int].pos) by {
                            assert(enemies@.take(i as int)[j] == t[j]);
                        }
                    }
                },
                None => {},
            }
        }
        i += 1;
    }
    proof {
        assert(enemies@.take(enemies@.len() as int) =~= enemies@);
        if best is None {
            assert(!any_live(enemies@));
        } else {
            let k = best->0;
            assert(0 <= k < enemies@.len() && !enemies@[k as int].is_dead());
        }
    }
    best
}

/// Where a new attack appears: `ATTACK_SPAWN_DISTANCE` from the player
/// toward the nearest live enemy, or on the player when there is none.
pub open spec fn attack_spawn_pos(es: Seq<Enemy>, p: Pos) -> Pos {
    if any_live(es) {
        let k = choose|k: int| is_nearest(es, p, k);
        moved_toward(p, es[k].pos, ATTACK_SPAWN_DISTANCE as int)
    } else {
        p
    }
}

/// A new attack appears within the world.
pub proof fn lemma_spawn_pos_in_world(es: Seq<Enemy>, p: Pos)
    requires
        p.in_world(),
    ensures
        attack_spawn_pos(es, p).in_world(),
{
    if any_live(es) {
        let k = choose|k: int| is_nearest(es, p, k);
        crate::geometry::lemma_moved_along_in_world(
            p,
            es[k].pos.x - p.x,
            es[k].pos.y - p.y,
            ATTACK_SPAWN_DISTANCE as int,
        );
    }
}

proof fn lemma_nearest_unique(es: Seq<Enemy>, p: Pos, k: int)
    requires
        is_nearest(es, p, k),
    ensures
        any_live(es),
        attack_spawn_pos(es, p) == moved_toward(p, es[k].pos, ATTACK_SPAWN_DISTANCE as int),
{
    assert(!es[k].is_dead());
    let k2 = choose|k2: int| is_nearest(es, p, k2);
    if k2 < k {
        assert(!es[k2].is_dead());
    } else if k < k2 {
        assert(!es[k2].is_dead());
    }
}

/// The player's automatic attack for one tick. With no live enemy nothing
/// happens. Otherwise the cooldown is set from the player's attack-speed
/// bonus and both timers advance; when an attack is due, the burst
/// bookkeeping advances and an attack appears toward the nearest live enemy.
/// Returns whether an attack appeared.
pub fn spawn_attacks(
    spawner: &mut AttackSpawner,
    attacks: &mut Vec<Attack>,
    player: &Player,
    enemies: &Vec<Enemy>,
    delta_ns: u64,
) -> (spawned: bool)
    requires
        old(spawner).wf(),
        player.pos.in_world(),
        all_in_world(enemies@),
    ensures
        final(spawner).wf(),
        !any_live(enemies@) ==> !spawned && *final(spawner) == *old(spawner) && final(attacks)@
            == old(attacks)@,
        any_live(enemies@) ==> spawned == old(spawner).armed(
            player.attack_speed_mod,
            delta_ns,
        ).triggered(),
        any_live(enemies@) && !spawned ==> *final(spawner) == old(spawner).armed(
            player.attack_speed_mod,
            delta_ns,
        ) && final(attacks)@ == old(attacks)@,
        any_live(enemies@) && spawned ==> *final(spawner) == old(spawner).armed(
            player.attack_speed_mod,
            delta_ns,
        ).advanced() && final(attacks)@ == old(attacks)@.push(
            Attack::fresh(attack_spawn_pos(enemies@, player.pos)),
        ),
{
    let target = nearest_enemy(enemies, player.pos);
    let k = match target {
        None => {
            return false;
        },
        Some(k) => k,
    };
    spawner.cooldown.set_duration(cooldown_for(player.attack_speed_mod));
    spawner.cooldown.tick(delta_ns);
    spawner.next_attack.tick(delta_ns);
    if !(spawner.cooldown.finished() || spawner.next_attack.finished()) {
        return false;
    }
    if spawner.attack_i + 1 < spawner.n_attacks {
        spawner.next_attack.reset();
        spawner.next_attack.unpause();
        spawner.attack_i = spawner.attack_i + 1;
    } else {
        spawner.next_attack.reset();
        spawner.next_attack.pause();
        spawner.attack_i = 0;
    }
    let pos = move_toward(player.pos, enemies[k].pos, ATTACK_SPAWN_DISTANCE);
    proof {
        lemma_nearest_unique(enemies@, player.pos, k as int);
    }
    attacks.push(Attack::new(pos));
    true
}

/// An attack after its lifetime advanced by `delta`.
pub open spec fn aged(a: Attack, delta: u64) -> Attack {
    Attack { lifetime: a.lifetime.ticked(delta), ..a }
}

/// Advances every attack's lifetime and removes each attack whose lifetime
/// has finished, and no other.
pub fn attack_lifetime(attacks: &mut Vec<Attack>, delta_ns: u64)
    requires
        attacks_wf(old(attacks)@),
        attacks_in_world(old(attacks)@),
    ensures
        final(attacks)@ == old(attacks)@.map_values(|a: Attack| aged(a, delta_ns)).filter(
            |a: Attack| !a.lifetime.finished,
        ),
        attacks_wf(final(attacks)@),
        attacks_in_world(final(attacks)@),
{
    let ghost s = attacks@;
    let ghost age = |a: Attack| aged(a, delta_ns);
    let ghost alive = |a: Attack| !a.lifetime.finished;
    let mut kept: Vec<Attack> = Vec::new();
    let mut i: usize = 0;
    proof {
        reveal(Seq::filter);
        assert(s.take(0).map_values(age) =~= Seq::<Attack>::empty());
    }
    while i < attacks.len()
        invariant
            i <= s.len(),
            attacks@ == s,
            age == (|a: Attack| aged(a, delta_ns)),
            alive == (|a: Attack| !a.lifetime.finished),
            attacks_wf(s),
            attacks_in_world(s),
            kept@ == s.take(i as int).map_values(age).filter(alive),
            attacks_wf(kept@),
            attacks_in_world(kept@),
        decreases s.len() - i,
    {
        let mut a = attacks[i];
        a.lifetime.tick(delta_ns);
        proof {
            reveal(Seq::filter);
            let m1 = s.take(i + 1).map_values(age);
            assert(m1.drop_last() =~= s.take(i as int).map_values(age));
            assert(m1.last() == a);
        }
        if !a.lifetime.finished() {
            kept.push(a);
        }
        i += 1;
    }
    proof {
        assert(s.take(s.len() as int) =~= s);
    }
    *attacks = kept;
}

/// An enemy after the attacks in `atks` struck it in order: each attack
/// closer than `ATTACK_RADIUS` to a live enemy deals `ATTACK_DAMAGE` and
/// stamps the hit with `now`.
pub open spec fn struck(e: Enemy, atks: Seq<Attack>, now: u64) -> Enemy
    decreases atks.len(),
{
    if atks.len() == 0 {
        e
    } else {
        let e2 = struck(e, atks.drop_last(), now);
        if !e2.is_dead() && sq_dist(atks.last().pos, e2.pos) < ATTACK_RADIUS * ATTACK_RADIUS {
            Enemy { health: sat_sub(e2.health, ATTACK_DAMAGE), last_damage_ns: Some(now), ..e2 }
        } else {
            e2
        }
    }
}

/// Applies the hits of every attack to every live enemy.
pub fn attack_collision(attacks: &Vec<Attack>, enemies: &mut Vec<Enemy>, now_ns: u64)
    requires
        attacks_in_world(attacks@),
        all_in_world(old(enemies)@),
    ensures
        final(enemies)@.len() == old(enemies)@.len(),
        forall|k: int|
            0 <= k < old(enemies)@.len() ==> #[trigger] final(enemies)@[k] == struck(
                old(enemies)@[k],
                attacks@,
                now_ns,
            ),
        all_in_world(final(enemies)@),
{
    let ghost es = enemies@;
    let n = enemies.len();
    let mut i: usize = 0;
    while i < n
        invariant
            n == es.len(),
            enemies@.len() == n,
            attacks_in_world(attacks@),
            all_in_world(es),
            forall|k: int| 0 <= k < i ==> #[trigger] enemies@[k] == struck(es[k], attacks@, now_ns),
            forall|k: int| i <= k < n ==> #[trigger] enemies@[k] == es[k],
            forall|k: int| 0 <= k < n ==> (#[trigger] enemies@[k]).pos == es[k].pos,
        decreases n - i,
    {
        let mut e = enemies[i];
        let mut j: usize = 0;
        assert(attacks@.take(0) =~= Seq::<Attack>::empty());
        while j < attacks.len()
            invariant
                j <= attacks@.len(),
                i < n,
                n == es.len(),
                attacks_in_world(attacks@),
                e == struck(es[i as int], attacks@.take(j as int), now_ns),
                e.pos == es[i as int].pos,
                es[i as int].pos.in_world(),
            decreases attacks@.len() - j,
        {
            let a = attacks[j];
            proof {
                let t = attacks@.take(j + 1);
                assert(t.drop_last() =~= attacks@.take(j as int));
                assert(t.last() == a);
            }
            assert(ATTACK_RADIUS * ATTACK_RADIUS == 2_500_000_000);
            if e.health > 0 && squared_distance(a.pos, e.pos) < 2_500_000_000 {
                e.receive_damage(ATTACK_DAMAGE);
                e.last_damage_ns = Some(now_ns);
            }
            j += 1;
        }
        assert(attacks@.take(attacks@.len() as int) =~= attacks@);
        enemies.set(i, e);
        i += 1;
    }
    assert(all_in_world(enemies@)) by {
        assert forall|k: int| 0 <= k < enemies@.len() implies (#[trigger] enemies@[k]).pos.in_world() by {
            assert(enemies@[k].pos == es[k].pos);
        }
    }
}

/// A fresh attack is removed by the lifetime pass exactly when the time
/// offered to it reaches its lifetime, never before.
pub proof fn lemma_attack_removed_when_finished(pos: Pos, delta: u64)
    ensures
        aged(Attack::fresh(pos), delta).lifetime.finished <==> delta >= ATTACK_LIFETIME_NS,
{
}

/// Any live attack is removed by the lifetime pass exactly when its elapsed
/// lifetime plus the time offered reaches `ATTACK_LIFETIME_NS`; otherwise it
/// stays with that much more elapsed.
pub proof fn lemma_lifetime_removal(a: Attack, delta: u64)
    requires
        a.lifetime_wf(),
    ensures
        aged(a, delta).lifetime.finished <==> a.lifetime.elapsed_ns + delta >= ATTACK_LIFETIME_NS,
        !aged(a, delta).lifetime.finished ==> aged(a, delta).lifetime.elapsed_ns
            == a.lifetime.elapsed_ns + delta,
        aged(a, delta).lifetime_wf(),
{
}

} // verus!
