use vstd::prelude::*;

verus! {

/// Thousandths of a world unit in one world unit.
pub const MILLI_PER_UNIT: i64 = 1000;

/// Bound on every coordinate held by the simulation (2^40 thousandths).
pub const COORD_LIMIT: i64 = 1_099_511_627_776;

/// A point of the plane, in thousandths of a world unit.
#[derive(Clone, Copy, Debug, PartialEq, Eq, Structural)]
pub struct Pos {
    pub x: i64,
    pub y: i64,
}

impl Pos {
    pub open spec fn in_world(self) -> bool {
        -COORD_LIMIT <= self.x <= COORD_LIMIT && -COORD_LIMIT <= self.y <= COORD_LIMIT
    }

    pub fn origin() -> (r: Pos)
        ensures
            r == (Pos { x: 0, y: 0 }),
            r.in_world(),
    {
        Pos { x: 0, y: 0 }
    }
}

/// Squared length of the vector (dx, dy).
pub open spec fn sq_len(dx: int, dy: int) -> int {
    dx * dx + dy * dy
}

/// Squared Euclidean distance between two points.
pub open spec fn sq_dist(a: Pos, b: Pos) -> int {
    sq_len(b.x - a.x, b.y - a.y)
}

/// `r` is the integer square root of `n`.
pub open spec fn is_root(n: int, r: int) -> bool {
    0 <= r && r * r <= n && n < (r + 1) * (r + 1)
}

/// The integer square root of `n` (the largest `r` with `r * r <= n`).
pub open spec fn root(n: int) -> int {
    choose|r: int| is_root(n, r)
}

/// `c * s / len`, rounded toward zero.
pub open spec fn scale_div(c: int, s: int, len: int) -> int {
    if c >= 0 {
        (c * s) / len
    } else {
        -((-c * s) / len)
    }
}

/// `v` brought into the coordinate bound.
pub open spec fn clamp_spec(v: int) -> int {
    if v < -COORD_LIMIT {
        -COORD_LIMIT as int
    } else if v > COORD_LIMIT {
        COORD_LIMIT as int
    } else {
        v
    }
}

/// The point `from` moved by `step` along the direction (dx, dy), each
/// component rounded toward zero; no movement for the zero vector.
pub open spec fn moved_along(from: Pos, dx: int, dy: int, step: int) -> Pos {
    if dx == 0 && dy == 0 {
        from
    } else {
        let len = root(sq_len(dx, dy));
        Pos {
            x: clamp_spec(from.x + scale_div(dx, step, len)) as i64,
            y: clamp_spec(from.y + scale_div(dy, step, len)) as i64,
        }
    }
}

/// The point `from` moved by `step` toward `to`.
pub open spec fn moved_toward(from: Pos, to: Pos, step: int) -> Pos {
    moved_along(from, to.x - from.x, to.y - from.y, step)
}

/// A moved point lies in the world.
pub proof fn lemma_moved_along_in_world(from: Pos, dx: int, dy: int, step: int)
    requires
        from.in_world(),
    ensures
        moved_along(from, dx, dy, step).in_world(),
{
}

/// Every non-negative integer has an integer square root.
pub proof fn lemma_root_exists(n: int)
    requires
        0 <= n,
    ensures
        exists|r: int| #[trigger] is_root(n, r),
    decreases n,
{
    if n == 0 {
        assert(is_root(0, 0));
    } else {
        lemma_root_exists(n - 1);
        let r = choose|r: int| #[trigger] is_root(n - 1, r);
        if (r + 1) * (r + 1) <= n {
            assert(is_root(n, r + 1)) by (nonlinear_arith)
                requires
                    0 <= r,
                    (r + 1) * (r + 1) <= n,
                    n - 1 < (r + 1) * (r + 1),
            ;
        } else {
            assert(is_root(n, r));
        }
    }
}

proof fn lemma_root_unique(n: int, r1: int, r2: int)
    requires
        is_root(n, r1),
        is_root(n, r2),
    ensures
        r1 == r2,
{
    if r1 < r2 {
        assert((r1 + 1) * (r1 + 1) <= r2 * r2) by (nonlinear_arith)
            requires
                0 <= r1 + 1 <= r2,
        ;
    } else if r2 < r1 {
        assert((r2 + 1) * (r2 + 1) <= r1 * r1) by (nonlinear_arith)
            requires
                0 <= r2 + 1 <= r1,
        ;
    }
}

proof fn lemma_coord_square(d: int)
    requires
        -2 * COORD_LIMIT <= d <= 2 * COORD_LIMIT,
    ensures
        0 <= d * d <= 4 * COORD_LIMIT * COORD_LIMIT,
{
    assert(0 <= d * d <= 4 * COORD_LIMIT * COORD_LIMIT) by (nonlinear_arith)
        requires
            -2 * COORD_LIMIT <= d <= 2 * COORD_LIMIT,
    ;
}

/// Squared length of a difference of two points of the world.
pub fn squared_length(dx: i64, dy: i64) -> (r: u128)
    requires
        -2 * COORD_LIMIT <= dx <= 2 * COORD_LIMIT,
        -2 * COORD_LIMIT <= dy <= 2 * COORD_LIMIT,
    ensures
        r == sq_len(dx as int, dy as int),
        r <= 8 * COORD_LIMIT * COORD_LIMIT,
{
    let dx: i128 = dx as i128;
    let dy: i128 = dy as i128;
    proof {
        lemma_coord_square(dx as int);
        lemma_coord_square(dy as int);
    }
    (dx * dx + dy * dy) as u128
}

/// Squared distance between two points of the world.
pub fn squared_distance(a: Pos, b: Pos) -> (r: u128)
    requires
        a.in_world(),
        b.in_world(),
    ensures
        r == sq_dist(a, b),
        r <= 8 * COORD_LIMIT * COORD_LIMIT,
{
    squared_length(b.x - a.x, b.y - a.y)
}

/// Integer square root.
pub fn isqrt(n: u128) -> (r: u64)
    requires
        n <= 8 * COORD_LIMIT * COORD_LIMIT,
    ensures
        is_root(n as int, r as int),
        r as int == root(n as int),
        r <= 4 * COORD_LIMIT,
{
    let mut lo: u128 = 0;
    let mut hi: u128 = 4 * (COORD_LIMIT as u128);
    assert(n < hi * hi) by (nonlinear_arith)
        requires
            n <= 8 * COORD_LIMIT * COORD_LIMIT,
            hi == 4 * COORD_LIMIT,
            COORD_LIMIT > 0,
    ;
    while lo + 1 < hi
        invariant
            lo < hi <= 4 * COORD_LIMIT,
            lo * lo <= n,
            n < hi * hi,
        decreases hi - lo,
    {
        let mid: u128 = lo + (hi - lo) / 2;
        assert(mid * mid <= 16 * COORD_LIMIT * COORD_LIMIT) by (nonlinear_arith)
            requires
                0 <= mid <= 4 * COORD_LIMIT,
        ;
        if mid * mid <= n {
            lo = mid;
        } else {
            hi = mid;
        }
    }
    proof {
        assert(hi == lo + 1);
        assert(is_root(n as int, lo as int));
        let c = root(n as int);
        assert(is_root(n as int, c));
        lemma_root_unique(n as int, c, lo as int);
    }
    lo as u64
}

/// Multiplies `c` by `s / len`, rounding toward zero.
pub fn scale_toward_zero(c: i64, s: u64, len: u64) -> (r: i128)
    requires
        -2 * COORD_LIMIT <= c <= 2 * COORD_LIMIT,
        len > 0,
    ensures
        r == scale_div(c as int, s as int, len as int),
        -(2 * COORD_LIMIT * s) <= r <= 2 * COORD_LIMIT * s,
        -(2 * COORD_LIMIT * 0xffff_ffff_ffff_ffffu64) <= r <= 2 * COORD_LIMIT
            * 0xffff_ffff_ffff_ffffu64,
{
    let m: u128 = if c >= 0 { c as u128 } else { (-(c as i128)) as u128 };
    assert(m * (s as u128) <= 2 * COORD_LIMIT * s) by (nonlinear_arith)
        requires
            0 <= m <= 2 * COORD_LIMIT,
            0 <= s,
    ;
    assert(2 * COORD_LIMIT * s <= 2 * COORD_LIMIT * 0xffff_ffff_ffff_ffffu64) by (nonlinear_arith)
        requires
            0 <= s <= 0xffff_ffff_ffff_ffffu64,
    ;
    let q: u128 = m * (s as u128) / (len as u128);
    assert(q <= m * s) by (nonlinear_arith)
        requires
            q == (m * s) / (len as int),
            len >= 1,
            m * s >= 0,
    ;
    assert(q <= 2 * COORD_LIMIT * s);
    if c >= 0 {
        q as i128
    } else {
        -(q as i128)
    }
}

/// Brings a coordinate into the world bound.
pub fn clamp_coord(v: i128) -> (r: i64)
    ensures
        r == clamp_spec(v as int),
{
    if v < -(COORD_LIMIT as i128) {
        -COORD_LIMIT
    } else if v > COORD_LIMIT as i128 {
        COORD_LIMIT
    } else {
        v as i64
    }
}

/// Moves `from` by `step` thousandths along (dx, dy).
pub fn move_along(from: Pos, dx: i64, dy: i64, step: u64) -> (r: Pos)
    requires
        from.in_world(),
        -2 * COORD_LIMIT <= dx <= 2 * COORD_LIMIT,
        -2 * COORD_LIMIT <= dy <= 2 * COORD_LIMIT,
    ensures
        r == moved_along(from, dx as int, dy as int, step as int),
        r.in_world(),
{
    if dx == 0 && dy == 0 {
        return from;
    }
    let sq = squared_length(dx, dy);
    let len = isqrt(sq);
    proof {
        assert(sq >= 1) by (nonlinear_arith)
            requires
                sq == dx * dx + dy * dy,
                dx != 0 || dy != 0,
        ;
        assert(len >= 1) by (nonlinear_arith)
            requires
                sq >= 1,
                sq < (len + 1) * (len + 1),
                len >= 0,
        ;
    }
    let ox = scale_toward_zero(dx, step, len);
    let oy = scale_toward_zero(dy, step, len);
    Pos { x: clamp_coord(from.x as i128 + ox), y: clamp_coord(from.y as i128 + oy) }
}

/// Moves `from` by `step` thousandths toward `to`.
pub fn move_toward(from: Pos, to: Pos, step: u64) -> (r: Pos)
    requires
        from.in_world(),
        to.in_world(),
    ensures
        r == moved_toward(from, to, step as int),
        r.in_world(),
{
    move_along(from, to.x - from.x, to.y - from.y, step)
}

} // verus!
