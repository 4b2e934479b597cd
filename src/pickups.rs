use vstd::prelude::*;
use crate::entities::{Pickup, Player};
use crate::geometry::{sq_dist, squared_distance, Pos};
use crate::sampling::{in_annulus, random_in, random_point_within_radius};
use crate::timer::{Timer, TimerMode};

verus! {

/// A pickup this close to the player (inclusive) is consumed.
pub const PICKUP_RADIUS: i64 = 32_000;
/// Health a pickup restores.
pub const HEAL_AMOUNT: i64 = 25_000;
/// The pickup interval is drawn from `[PICKUP_INTERVAL_MIN_NS, PICKUP_INTERVAL_MAX_NS)`.
pub const PICKUP_INTERVAL_MIN_NS: i64 = 10_000_000_000;
pub const PICKUP_INTERVAL_MAX_NS: i64 = 30_000_000_000;

/// Every pickup lies within the world bound.
pub open spec fn pickups_in_world(s: Seq<Pickup>) -> bool {
    forall|k: int| 0 <= k < s.len() ==> (#[trigger] s[k]).pos.in_world()
}

/// The repeating timer that paces pickups.
#[derive(Clone, Copy, Debug)]
pub struct SpawnTimer {
    pub countdown: Timer,
}

impl SpawnTimer {
    /// A pickup timer whose interval is drawn uniformly from ten up to
    /// thirty seconds.
    pub fn new(rng: &mut rand::rngs::SmallRng) -> (r: SpawnTimer)
        ensures
            r.countdown.wf(),
            r.countdown.mode == TimerMode::Repeating,
            r.countdown.elapsed_ns == 0,
            !r.countdown.paused,
            !r.countdown.finished,
            PICKUP_INTERVAL_MIN_NS <= r.countdown.duration_ns < PICKUP_INTERVAL_MAX_NS,
    {
        let d = random_in(rng, PICKUP_INTERVAL_MIN_NS, PICKUP_INTERVAL_MAX_NS);
        SpawnTimer { countdown: Timer::new(d as u64, TimerMode::Repeating) }
    }
}

/// Advances the pickup timer; on each completion one pickup appears on the
/// spawn ring around the player. Returns whether one appeared.
pub fn spawn_pickups(
    pickups: &mut Vec<Pickup>,
    timer: &mut SpawnTimer,
    player_pos: Pos,
    delta_ns: u64,
    rng: &mut rand::rngs::SmallRng,
) -> (spawned: bool)
    requires
        old(timer).countdown.wf(),
        player_pos.in_arena(),
    ensures
        final(timer).countdown == old(timer).countdown.ticked(delta_ns),
        final(timer).countdown.wf(),
        spawned == final(timer).countdown.finished,
        !spawned ==> final(pickups)@ == old(pickups)@,
        spawned ==> final(pickups)@.len() == old(pickups)@.len() + 1
            && final(pickups)@.drop_last() == old(pickups)@
            && in_annulus(player_pos, final(pickups)@.last().pos)
            && final(pickups)@.last().pos.in_world(),
{
    timer.countdown.tick(delta_ns);
    if !timer.countdown.finished() {
        return false;
    }
    let pos = random_point_within_radius(rng, player_pos);
    pickups.push(Pickup { pos });
    assert(pickups@.drop_last() =~= old(pickups)@);
    true
}

/// The pickup lies within reach of the player.
pub open spec fn reached(p: Pickup, player_pos: Pos) -> bool {
    sq_dist(player_pos, p.pos) <= PICKUP_RADIUS * PICKUP_RADIUS
}

/// Health after `n` pickups, each restoring `HEAL_AMOUNT` up to `max`.
pub open spec fn healed(h: i64, max: i64, n: nat) -> i64
    decreases n,
{
    if n == 0 {
        h
    } else {
        let h2 = healed(h, max, (n - 1) as nat);
        if h2 + HEAL_AMOUNT > max {
            max
        } else {
            (h2 + HEAL_AMOUNT) as i64
        }
    }
}

/// The player consumes every pickup within reach; each one heals, up to
/// the player's maximum health. The other pickups stay, in order.
pub fn pickup_collision(player: &mut Player, pickups: &mut Vec<Pickup>)
    requires
        old(player).pos.in_world(),
        pickups_in_world(old(pickups)@),
    ensures
        final(pickups)@ == old(pickups)@.filter(|p: Pickup| !reached(p, old(player).pos)),
        *final(player) == (Player {
            health: healed(
                old(player).health,
                old(player).max_health,
                old(pickups)@.filter(|p: Pickup| reached(p, old(player).pos)).len(),
            ),
            ..*old(player)
        }),
        pickups_in_world(final(pickups)@),
{
    let ghost s = pickups@;
    let ghost p0 = *player;
    let pp = player.pos;
    let ghost away = |p: Pickup| !reached(p, pp);
    let ghost near = |p: Pickup| reached(p, pp);
    let mut kept: Vec<Pickup> = Vec::new();
    let mut i: usize = 0;
    proof {
        reveal(Seq::filter);
        assert(s.take(0).filter(away) =~= Seq::<Pickup>::empty());
        assert(s.take(0).filter(near) =~= Seq::<Pickup>::empty());
    }
    while i < pickups.len()
        invariant
            i <= s.len(),
            pickups@ == s,
            away == (|p: Pickup| !reached(p, pp)),
            near == (|p: Pickup| reached(p, pp)),
            pp == p0.pos,
            pp.in_world(),
            pickups_in_world(s),
            kept@ == s.take(i as int).filter(away),
            pickups_in_world(kept@),
            *player == (Player {
                health: healed(p0.health, p0.max_health, s.take(i as int).filter(near).len()),
                ..p0
            }),
        decreases s.len() - i,
    {
        let q = pickups[i];
        proof {
            reveal(Seq::filter);
            let s1 = s.take(i + 1);
            assert(s1.drop_last() =~= s.take(i as int));
            assert(s1.last() == q);
        }
        assert(PICKUP_RADIUS * PICKUP_RADIUS == 1_024_000_000);
        if squared_distance(pp, q.pos) <= 1_024_000_000 {
            let nh: i128 = player.health as i128 + HEAL_AMOUNT as i128;
            player.health = if nh > player.max_health as i128 {
                player.max_health
            } else {
                nh as i64
            };
        } else {
            kept.push(q);
        }
        i += 1;
    }
    proof {
        assert(s.take(s.len() as int) =~= s);
    }
    *pickups = kept;
}

} // verus!
