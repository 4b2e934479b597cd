use vstd::prelude::*;
use rand::Rng;
use crate::geometry::{isqrt, root, scale_div, scale_toward_zero, sq_dist, sq_len, squared_length, Pos};

verus! {

#[verifier::external_type_specification]
#[verifier::external_body]
pub struct ExSmallRng(rand::rngs::SmallRng);

/// Relies on `rand::Rng::gen_range` over a half-open `i64` range: the value
/// lies in `[lo, hi)`; the call panics only on an empty range.
#[verifier::external_body]
pub(crate) fn random_in(rng: &mut rand::rngs::SmallRng, lo: i64, hi: i64) -> (r: i64)
    requires
        lo < hi,
    ensures
        lo <= r < hi,
{
    rng.gen_range(lo..hi)
}

/// Bound on the coordinates of the player (half the world bound), so that
/// every spawn point around the player lies in the world.
pub const ARENA_LIMIT: i64 = 549_755_813_888;
/// Inner radius of the spawn ring, in thousandths of a unit.
pub const SPAWN_MIN_RADIUS: i64 = 1_000_000;
/// Outer radius of the spawn ring.
pub const SPAWN_MAX_RADIUS: i64 = 2_000_000;
/// Components of a sampled direction lie in `[-DIRECTION_RANGE, DIRECTION_RANGE]`.
pub const DIRECTION_RANGE: i64 = 1024;
/// A sampled direction shorter than this is drawn again.
pub const DIRECTION_MIN: i64 = 256;
/// Draws made before the sampler falls back to a fixed point of the ring.
pub const SAMPLE_ATTEMPTS: u32 = 16;

impl Pos {
    pub open spec fn in_arena(self) -> bool {
        -ARENA_LIMIT <= self.x <= ARENA_LIMIT && -ARENA_LIMIT <= self.y <= ARENA_LIMIT
    }
}

/// `p` lies in the spawn ring around `center`.
pub open spec fn in_annulus(center: Pos, p: Pos) -> bool {
    SPAWN_MIN_RADIUS * SPAWN_MIN_RADIUS <= sq_dist(center, p) <= SPAWN_MAX_RADIUS
        * SPAWN_MAX_RADIUS
}

/// The offset that a direction draw (ux, uy) and a radius draw give: the
/// direction scaled to the radius, when the direction lies in the sampling
/// disc and the offset lands in the ring; `None` when the draw is rejected.
pub open spec fn annulus_offset_spec(ux: int, uy: int, radius: int) -> Option<(i64, i64)> {
    let n = sq_len(ux, uy);
    if n < DIRECTION_MIN * DIRECTION_MIN || n > DIRECTION_RANGE * DIRECTION_RANGE {
        None
    } else {
        let len = root(n);
        let ox = scale_div(ux, radius, len);
        let oy = scale_div(uy, radius, len);
        if -SPAWN_MAX_RADIUS <= ox <= SPAWN_MAX_RADIUS && -SPAWN_MAX_RADIUS <= oy
            <= SPAWN_MAX_RADIUS && SPAWN_MIN_RADIUS * SPAWN_MIN_RADIUS <= sq_len(ox, oy)
            <= SPAWN_MAX_RADIUS * SPAWN_MAX_RADIUS {
            Some((ox as i64, oy as i64))
        } else {
            None
        }
    }
}

/// Turns one direction draw and one radius draw into an offset in the ring.
pub fn annulus_offset(ux: i64, uy: i64, radius: u64) -> (r: Option<(i64, i64)>)
    requires
        -DIRECTION_RANGE <= ux <= DIRECTION_RANGE,
        -DIRECTION_RANGE <= uy <= DIRECTION_RANGE,
    ensures
        r == annulus_offset_spec(ux as int, uy as int, radius as int),
{
    let n = squared_length(ux, uy);
    assert(DIRECTION_MIN * DIRECTION_MIN == 65_536 && DIRECTION_RANGE * DIRECTION_RANGE
        == 1_048_576);
    if n < 65_536 || n > 1_048_576 {
        return None;
    }
    let len = isqrt(n);
    assert(len >= 1) by (nonlinear_arith)
        requires
            n >= 1,
            n < (len + 1) * (len + 1),
            len >= 0,
    ;
    let ox = scale_toward_zero(ux, radius, len);
    let oy = scale_toward_zero(uy, radius, len);
    let m = SPAWN_MAX_RADIUS as i128;
    if ox < -m || ox > m || oy < -m || oy > m {
        return None;
    }
    let ax: u64 = if ox < 0 {
        (-ox) as u64
    } else {
        ox as u64
    };
    let ay: u64 = if oy < 0 {
        (-oy) as u64
    } else {
        oy as u64
    };
    assert(ax * ax <= 4_000_000_000_000) by (nonlinear_arith)
        requires
            0 <= ax <= 2_000_000,
    ;
    assert(ay * ay <= 4_000_000_000_000) by (nonlinear_arith)
        requires
            0 <= ay <= 2_000_000,
    ;
    let d: u64 = ax * ax + ay * ay;
    assert(d == ox * ox + oy * oy) by (nonlinear_arith)
        requires
            ax == ox || ax == -ox,
            ay == oy || ay == -oy,
            d == ax * ax + ay * ay,
    ;
    assert(SPAWN_MAX_RADIUS * SPAWN_MAX_RADIUS == 4_000_000_000_000 && SPAWN_MIN_RADIUS
        * SPAWN_MIN_RADIUS == 1_000_000_000_000);
    if 4_000_000_000_000 < d || d < 1_000_000_000_000 {
        return None;
    }
    Some((ox as i64, oy as i64))
}

/// A random point of the spawn ring around `center`: a direction of uniform
/// angle and a uniform radius, drawn again while rejected, and after
/// `SAMPLE_ATTEMPTS` rejected draws the point at the inner radius to the right.
pub fn random_point_within_radius(rng: &mut rand::rngs::SmallRng, center: Pos) -> (r: Pos)
    requires
        center.in_arena(),
    ensures
        in_annulus(center, r),
        r.in_world(),
{
    let mut attempt: u32 = 0;
    while attempt < SAMPLE_ATTEMPTS
        invariant
            center.in_arena(),
        decreases SAMPLE_ATTEMPTS - attempt,
    {
        let ux = random_in(rng, -DIRECTION_RANGE, DIRECTION_RANGE + 1);
        let uy = random_in(rng, -DIRECTION_RANGE, DIRECTION_RANGE + 1);
        let radius = random_in(rng, SPAWN_MIN_RADIUS, SPAWN_MAX_RADIUS);
        match annulus_offset(ux, uy, radius as u64) {
            Some((ox, oy)) => {
                return Pos { x: center.x + ox, y: center.y + oy };
            },
            None => {},
        }
        attempt += 1;
    }
    assert(SPAWN_MAX_RADIUS * SPAWN_MAX_RADIUS == 4_000_000_000_000 && SPAWN_MIN_RADIUS
        * SPAWN_MIN_RADIUS == 1_000_000_000_000);
    let r = Pos { x: center.x + SPAWN_MIN_RADIUS, y: center.y };
    assert(r.x - center.x == SPAWN_MIN_RADIUS && r.y - center.y == 0);
    assert(sq_dist(center, r) == 1_000_000_000_000);
    r
}

} // verus!
