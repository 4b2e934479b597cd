use vstd::prelude::*;
use crate::entities::Enemy;
use crate::geometry::{
    clamp_coord, clamp_spec, is_root, isqrt, lemma_root_exists, root, scale_div, scale_toward_zero, sq_dist, sq_len,
    squared_distance, squared_length, Pos, COORD_LIMIT,
};

verus! {

/// Side of a grid cell, in thousandths of a unit.
pub const CELL_SIZE: i64 = 300_000;
/// Enemies closer than this (inclusive) are pushed apart.
pub const SEPARATION_RADIUS: i64 = 32_000;
/// Length of one separating push.
pub const SEPARATION_STEP: u64 = 2_000;

/// The cell coordinate of a coordinate: `floor(v / CELL_SIZE)`.
pub open spec fn cell_coord(v: int) -> i64 {
    (v / (CELL_SIZE as int)) as i64
}

/// The cell that holds a point.
pub open spec fn cell_of(p: Pos) -> (i64, i64) {
    (cell_coord(p.x as int), cell_coord(p.y as int))
}

/// Some enemy among the first `n` lies in cell `c`.
pub open spec fn occupied(es: Seq<Enemy>, c: (i64, i64), n: int) -> bool {
    exists|k: int| 0 <= k < n && #[trigger] cell_of(es[k].pos) == c
}

/// The indices below `n` of the enemies in cell `c`, in increasing order.
pub open spec fn members(es: Seq<Enemy>, c: (i64, i64), n: int) -> Seq<usize>
    decreases n,
{
    if n <= 0 {
        seq![]
    } else {
        let s = members(es, c, n - 1);
        if cell_of(es[n - 1].pos) == c {
            s.push((n - 1) as usize)
        } else {
            s
        }
    }
}

/// The bucket contents of a grid built from the first `n` enemies.
pub open spec fn buckets_of(es: Seq<Enemy>, n: int) -> Map<(i64, i64), Seq<usize>> {
    Map::new(|c: (i64, i64)| occupied(es, c, n), |c: (i64, i64)| members(es, c, n))
}

/// Enemy `j` comes after enemy `i`, shares its cell and overlaps it.
pub open spec fn is_partner(es: Seq<Enemy>, i: int, j: int) -> bool {
    &&& i < j < es.len()
    &&& cell_of(es[j].pos) == cell_of(es[i].pos)
    &&& sq_dist(es[i].pos, es[j].pos) <= SEPARATION_RADIUS * SEPARATION_RADIUS
}

/// `j` is the first partner of `i`.
pub open spec fn is_first_partner(es: Seq<Enemy>, i: int, j: int) -> bool {
    is_partner(es, i, j) && forall|k: int| i < k < j ==> !#[trigger] is_partner(es, i, k)
}

/// The first partner of enemy `i`, if it has one.
pub open spec fn partner_of(es: Seq<Enemy>, i: int) -> Option<int> {
    if exists|j: int| is_first_partner(es, i, j) {
        Some(choose|j: int| is_first_partner(es, i, j))
    } else {
        None
    }
}

/// The push of length `SEPARATION_STEP` along the vector from `b` to `a`,
/// each component rounded toward zero; none when the points coincide.
pub open spec fn push_vec(a: Pos, b: Pos) -> (int, int) {
    let dx = a.x - b.x;
    let dy = a.y - b.y;
    if dx == 0 && dy == 0 {
        (0, 0)
    } else {
        let len = root(sq_len(dx, dy));
        (scale_div(dx, SEPARATION_STEP as int, len), scale_div(dy, SEPARATION_STEP as int, len))
    }
}

/// `p` moved by (ox, oy), within the world bound.
pub open spec fn shifted(p: Pos, ox: int, oy: int) -> Pos {
    Pos { x: clamp_spec(p.x + ox) as i64, y: clamp_spec(p.y + oy) as i64 }
}

/// The positions after the separation pass has handled enemies `0..n`:
/// each enemy with a partner and that partner are pushed apart
/// symmetrically, by `SEPARATION_STEP` each, along the vector between their
/// positions before the pass.
pub open spec fn separated_positions(es: Seq<Enemy>, n: int) -> Seq<Pos>
    decreases n,
{
    if n <= 0 {
        es.map_values(|e: Enemy| e.pos)
    } else {
        let ps = separated_positions(es, n - 1);
        let i = n - 1;
        match partner_of(es, i) {
            None => ps,
            Some(j) => {
                let (ox, oy) = push_vec(es[i].pos, es[j].pos);
                ps.update(i, shifted(ps[i], ox, oy)).update(j, shifted(ps[j], -ox, -oy))
            },
        }
    }
}

/// Every enemy lies within the world bound.
pub open spec fn all_in_world(es: Seq<Enemy>) -> bool {
    forall|k: int| 0 <= k < es.len() ==> (#[trigger] es[k]).pos.in_world()
}

/// Each occupied cell with the enemy indices filed under it.
pub type CellBuckets = Map<(i64, i64), Seq<usize>>;

/// The cells of the grid, each with the list of enemy indices it holds.
#[verifier::external_body]
pub struct CellMap {
    cells: bevy::utils::HashMap<(i64, i64), Vec<usize>>,
}

/// What a cell map holds: the list of each occupied cell.
pub uninterp spec fn cell_entries(m: CellMap) -> Map<(i64, i64), Seq<usize>>;

/// Relies on `HashMap::default` (hashbrown, through bevy_utils): a new map is empty.
#[verifier::external_body]
fn cells_new() -> (r: CellMap)
    ensures
        cell_entries(r) == CellBuckets::empty(),
{
    CellMap { cells: bevy::utils::HashMap::default() }
}

/// Relies on `HashMap::clear`: removes every entry.
#[verifier::external_body]
fn cells_clear(m: &mut CellMap)
    ensures
        cell_entries(*final(m)) == CellBuckets::empty(),
{
    m.cells.clear();
}

/// Relies on `HashMap::remove`: the list stored under `key`, if any, is
/// taken out of the map; other keys are untouched.
#[verifier::external_body]
fn cells_remove(m: &mut CellMap, key: (i64, i64)) -> (r: Option<Vec<usize>>)
    ensures
        r.is_some() == cell_entries(*old(m)).contains_key(key),
        r matches Some(v) ==> v@ == cell_entries(*old(m))[key],
        cell_entries(*final(m)) == cell_entries(*old(m)).remove(key),
{
    m.cells.remove(&key)
}

/// Relies on `HashMap::insert`: `key` maps to `v` afterwards, replacing any
/// earlier list; other keys are untouched.
#[verifier::external_body]
fn cells_insert(m: &mut CellMap, key: (i64, i64), v: Vec<usize>)
    ensures
        cell_entries(*final(m)) == cell_entries(*old(m)).insert(key, v@),
{
    m.cells.insert(key, v);
}

/// Relies on `HashMap::get`: the list stored under `key`, if any.
#[verifier::external_body]
fn cells_get(m: &CellMap, key: (i64, i64)) -> (r: Option<&Vec<usize>>)
    ensures
        r.is_some() == cell_entries(*m).contains_key(key),
        r matches Some(v) ==> v@ == cell_entries(*m)[key],
{
    m.cells.get(&key)
}

/// The cell coordinate of `v`, rounded toward negative infinity.
pub fn cell_index(v: i64) -> (r: i64)
    ensures
        r == cell_coord(v as int),
{
    if v >= 0 {
        v / CELL_SIZE
    } else {
        let w: i64 = -(v + 1);
        let q: i64 = w / CELL_SIZE;
        proof {
            let rem = (w as int) % (CELL_SIZE as int);
            vstd::arithmetic::div_mod::lemma_fundamental_div_mod(w as int, CELL_SIZE as int);
            vstd::arithmetic::div_mod::lemma_fundamental_div_mod_converse(
                v as int,
                CELL_SIZE as int,
                -q - 1,
                CELL_SIZE - rem - 1,
            );
        }
        -q - 1
    }
}

/// The cell that holds `p`.
pub fn cell_of_pos(p: Pos) -> (r: (i64, i64))
    ensures
        r == cell_of(p),
{
    (cell_index(p.x), cell_index(p.y))
}

proof fn lemma_members_empty(es: Seq<Enemy>, c: (i64, i64), n: int)
    requires
        0 <= n <= es.len(),
        !occupied(es, c, n),
    ensures
        members(es, c, n) == Seq::<usize>::empty(),
    decreases n,
{
    if n > 0 {
        assert(!occupied(es, c, n - 1)) by {
            if occupied(es, c, n - 1) {
                let k = choose|k: int| 0 <= k < n - 1 && #[trigger] cell_of(es[k].pos) == c;
                assert(0 <= k < n && cell_of(es[k].pos) == c);
            }
        }
        assert(cell_of(es[n - 1].pos) != c);
        lemma_members_empty(es, c, n - 1);
    }
}

proof fn lemma_members_props(es: Seq<Enemy>, c: (i64, i64), n: int)
    requires
        0 <= n <= es.len(),
        es.len() <= usize::MAX,
    ensures
        forall|t: int|
            0 <= t < members(es, c, n).len() ==> {
                let k = #[trigger] members(es, c, n)[t];
                k < n && cell_of(es[k as int].pos) == c
            },
        forall|t1: int, t2: int|
            0 <= t1 < t2 < members(es, c, n).len() ==> #[trigger] members(es, c, n)[t1]
                < #[trigger] members(es, c, n)[t2],
        forall|k: int|
            0 <= k < n && #[trigger] cell_of(es[k].pos) == c ==> exists|t: int|
                0 <= t < members(es, c, n).len() && members(es, c, n)[t] == k,
    decreases n,
{
    if n > 0 {
        lemma_members_props(es, c, n - 1);
        let s = members(es, c, n - 1);
        if cell_of(es[n - 1].pos) == c {
            let s2 = s.push((n - 1) as usize);
            assert(members(es, c, n) == s2);
            assert forall|k: int| 0 <= k < n && #[trigger] cell_of(es[k].pos) == c implies exists|
                t: int,
            | 0 <= t < s2.len() && s2[t] == k by {
                if k == n - 1 {
                    assert(s2[s.len() as int] == k);
                } else {
                    let t = choose|t: int| 0 <= t < s.len() && s[t] == k;
                    assert(s2[t] == k);
                }
            }
        }
    }
}

proof fn lemma_bucket_step(es: Seq<Enemy>, i: int)
    requires
        0 <= i < es.len(),
        es.len() <= usize::MAX,
    ensures
        ({
            let m = buckets_of(es, i);
            let c = cell_of(es[i].pos);
            buckets_of(es, i + 1) == m.insert(
                c,
                if m.contains_key(c) {
                    m[c].push(i as usize)
                } else {
                    seq![i as usize]
                },
            )
        }),
{
    let m = buckets_of(es, i);
    let c = cell_of(es[i].pos);
    if !occupied(es, c, i) {
        lemma_members_empty(es, c, i);
        assert(members(es, c, i).push(i as usize) =~= seq![i as usize]);
    }
    assert(occupied(es, c, i + 1)) by {
        assert(0 <= i < i + 1 && cell_of(es[i].pos) == c);
    }
    assert forall|k: (i64, i64)| k != c implies occupied(es, k, i + 1) == occupied(es, k, i) by {
        if occupied(es, k, i + 1) {
            let j = choose|j: int| 0 <= j < i + 1 && #[trigger] cell_of(es[j].pos) == k;
            assert(j != i);
            assert(0 <= j < i && cell_of(es[j].pos) == k);
        }
        if occupied(es, k, i) {
            let j = choose|j: int| 0 <= j < i && #[trigger] cell_of(es[j].pos) == k;
            assert(0 <= j < i + 1 && cell_of(es[j].pos) == k);
        }
    }
    let v = if m.contains_key(c) {
        m[c].push(i as usize)
    } else {
        seq![i as usize]
    };
    assert(buckets_of(es, i + 1) =~= m.insert(c, v));
}

proof fn lemma_first_partner_unique(es: Seq<Enemy>, i: int, j: int)
    requires
        is_first_partner(es, i, j),
    ensures
        partner_of(es, i) == Some(j),
{
    let j2 = choose|j2: int| is_first_partner(es, i, j2);
    if j2 < j {
        assert(!is_partner(es, i, j2));
    } else if j < j2 {
        assert(!is_partner(es, i, j));
    }
}

proof fn lemma_separated_len(es: Seq<Enemy>, n: int)
    requires
        n <= es.len(),
    ensures
        separated_positions(es, n).len() == es.len(),
    decreases n,
{
    if n > 0 {
        lemma_separated_len(es, n - 1);
    }
}

/// The push between two points of the world.
fn push_offset(a: Pos, b: Pos) -> (r: (i64, i64))
    requires
        a.in_world(),
        b.in_world(),
    ensures
        r.0 == push_vec(a, b).0,
        r.1 == push_vec(a, b).1,
        -2 * COORD_LIMIT * SEPARATION_STEP <= r.0 <= 2 * COORD_LIMIT * SEPARATION_STEP,
        -2 * COORD_LIMIT * SEPARATION_STEP <= r.1 <= 2 * COORD_LIMIT * SEPARATION_STEP,
{
    let dx: i64 = a.x - b.x;
    let dy: i64 = a.y - b.y;
    if dx == 0 && dy == 0 {
        return (0, 0);
    }
    let sq = squared_length(dx, dy);
    let len = isqrt(sq);
    proof {
        assert(sq >= 1) by (nonlinear_arith)
            requires
                sq == dx * dx + dy * dy,
                dx != 0 || dy != 0,
        ;
        assert(len >= 1) by (nonlinear_arith)
            requires
                sq >= 1,
                sq < (len + 1) * (len + 1),
                len >= 0,
        ;
    }
    let ox = scale_toward_zero(dx, SEPARATION_STEP, len);
    let oy = scale_toward_zero(dy, SEPARATION_STEP, len);
    (ox as i64, oy as i64)
}

fn shift(p: Pos, ox: i64, oy: i64) -> (r: Pos)
    ensures
        r == shifted(p, ox as int, oy as int),
        r.in_world(),
{
    Pos { x: clamp_coord(p.x as i128 + ox as i128), y: clamp_coord(p.y as i128 + oy as i128) }
}

/// A uniform grid over the plane that maps each occupied cell to the
/// indices of the enemies in it.
pub struct SpatialGrid {
    cells: CellMap,
}

impl View for SpatialGrid {
    type V = Map<(i64, i64), Seq<usize>>;

    closed spec fn view(&self) -> Map<(i64, i64), Seq<usize>> {
        cell_entries(self.cells)
    }
}

impl SpatialGrid {
    /// The grid holds exactly the buckets of `es`.
    pub open spec fn built_from(self, es: Seq<Enemy>) -> bool {
        self@ == buckets_of(es, es.len() as int)
    }

    pub fn new() -> (r: SpatialGrid)
        ensures
            r@ == Map::<(i64, i64), Seq<usize>>::empty(),
    {
        SpatialGrid { cells: cells_new() }
    }

    /// Clears the grid and files every enemy under the cell of its position.
    pub fn rebuild(&mut self, enemies: &Vec<Enemy>)
        ensures
            final(self).built_from(enemies@),
    {
        cells_clear(&mut self.cells);
        assert(buckets_of(enemies@, 0) =~= Map::<(i64, i64), Seq<usize>>::empty());
        let mut i: usize = 0;
        while i < enemies.len()
            invariant
                i <= enemies@.len(),
                self@ == buckets_of(enemies@, i as int),
            decreases enemies@.len() - i,
        {
            let c = cell_of_pos(enemies[i].pos);
            proof {
                lemma_bucket_step(enemies@, i as int);
            }
            let ghost before = self@;
            let mut list = match cells_remove(&mut self.cells, c) {
                Some(v) => v,
                None => Vec::new(),
            };
            list.push(i);
            cells_insert(&mut self.cells, c, list);
            assert(self@ =~= before.insert(
                c,
                if before.contains_key(c) {
                    before[c].push(i)
                } else {
                    seq![i]
                },
            ));
            i += 1;
        }
    }

    /// The enemy indices filed under `cell`, empty where it holds none.
    pub fn neighbors_of(&self, cell: (i64, i64)) -> (r: Vec<usize>)
        ensures
            r@ == if self@.contains_key(cell) {
                self@[cell]
            } else {
                Seq::<usize>::empty()
            },
    {
        let mut r: Vec<usize> = Vec::new();
        match cells_get(&self.cells, cell) {
            None => {},
            Some(b) => {
                let mut t: usize = 0;
                while t < b.len()
                    invariant
                        t <= b@.len(),
                        r@ == b@.subrange(0, t as int),
                    decreases b@.len() - t,
                {
                    r.push(b[t]);
                    t += 1;
                    assert(r@ =~= b@.subrange(0, t as int));
                }
                assert(b@.subrange(0, b@.len() as int) =~= b@);
            },
        }
        r
    }

    /// The first partner of enemy `i` in `es`, found through its bucket.
    /// `enemies` agrees with `es` from index `i` on.
    fn find_partner(&self, enemies: &Vec<Enemy>, i: usize, Ghost(es): Ghost<Seq<Enemy>>) -> (r:
        Option<usize>)
        requires
            self.built_from(es),
            all_in_world(es),
            i < es.len(),
            enemies@.len() == es.len(),
            forall|k: int| i <= k < es.len() ==> enemies@[k] == es[k],
        ensures
            r matches Some(j) ==> is_first_partner(es, i as int, j as int),
            r is None ==> forall|j: int| !is_partner(es, i as int, j),
    {
        let ghost n = es.len() as int;
        let len = enemies.len();
        let p = enemies[i].pos;
        let c = cell_of_pos(p);
        proof {
            lemma_members_props(es, c, n);
            assert(0 <= i < n && cell_of(es[i as int].pos) == c);
        }
        match cells_get(&self.cells, c) {
            None => None,
            Some(b) => {
                assert(b@ == members(es, c, n));
                let mut t: usize = 0;
                while t < b.len()
                    invariant
                        t <= b@.len(),
                        b@ == members(es, c, n),
                        n == es.len(),
                        n <= usize::MAX,
                        i < n,
                        enemies@.len() == n,
                        forall|k: int| i <= k < n ==> enemies@[k] == es[k],
                        all_in_world(es),
                        p == es[i as int].pos,
                        c == cell_of(p),
                        forall|t2: int|
                            0 <= t2 < t && b@[t2] > i ==> !is_partner(es, i as int, #[trigger] b@[t2] as int),
                    decreases b@.len() - t,
                {
                    proof {
                        lemma_members_props(es, c, n);
                    }
                    let j = b[t];
                    if j > i {
                        assert(j < n && cell_of(es[j as int].pos) == c);
                        let q = enemies[j].pos;
                        if squared_distance(p, q) <= (SEPARATION_RADIUS as u128) * (
                        SEPARATION_RADIUS as u128) {
                            proof {
                                assert(is_partner(es, i as int, j as int));
                                assert forall|k: int| i < k < j implies !#[trigger] is_partner(
                                    es,
                                    i as int,
                                    k,
                                ) by {
                                    if is_partner(es, i as int, k) {
                                        assert(0 <= k < n && cell_of(es[k].pos) == c);
                                        let t2 = choose|t2: int| 0 <= t2 < b@.len() && b@[t2] == k;
                                        if t2 > t {
                                            assert(b@[t as int] < b@[t2]);
                                        }
                                        assert(t2 != t);
                                    }
                                }
                            }
                            return Some(j);
                        }
                    }
                    t += 1;
                }
                proof {
                    lemma_members_props(es, c, n);
                    assert forall|j: int| !is_partner(es, i as int, j) by {
                        if is_partner(es, i as int, j) {
                            assert(0 <= j < n && cell_of(es[j].pos) == c);
                            let t2 = choose|t2: int| 0 <= t2 < b@.len() && b@[t2] == j;
                            assert(b@[t2] > i);
                        }
                    }
                }
                None
            },
        }
    }
}

/// One separation pass: each enemy that overlaps a later enemy of its
/// cell is pushed apart from the first such enemy, both by
/// `SEPARATION_STEP` in opposite directions, the pushes judged on the
/// positions before the pass.
pub fn enemy_collision(grid: &SpatialGrid, enemies: &mut Vec<Enemy>)
    requires
        grid.built_from(old(enemies)@),
        all_in_world(old(enemies)@),
    ensures
        final(enemies)@.len() == old(enemies)@.len(),
        forall|k: int|
            0 <= k < old(enemies)@.len() ==> #[trigger] final(enemies)@[k] == (Enemy {
                pos: separated_positions(old(enemies)@, old(enemies)@.len() as int)[k],
                ..old(enemies)@[k]
            }),
        all_in_world(final(enemies)@),
{
    let ghost es = enemies@;
    let n = enemies.len();
    let mut snapshot: Vec<Enemy> = Vec::new();
    let mut t: usize = 0;
    while t < n
        invariant
            t <= n,
            n == es.len(),
            enemies@ == es,
            snapshot@ == es.take(t as int),
        decreases n - t,
    {
        snapshot.push(enemies[t]);
        t += 1;
        assert(snapshot@ =~= es.take(t as int));
    }
    assert(es.take(n as int) =~= es);
    proof {
        lemma_separated_len(es, 0);
        assert forall|k: int| 0 <= k < n implies #[trigger] enemies@[k] == (Enemy {
            pos: separated_positions(es, 0)[k],
            ..es[k]
        }) by {}
    }
    let mut i: usize = 0;
    while i < n
        invariant
            n == es.len(),
            i <= n,
            enemies@.len() == n,
            snapshot@ == es,
            grid.built_from(es),
            all_in_world(es),
            all_in_world(enemies@),
            separated_positions(es, i as int).len() == n,
            forall|k: int|
                0 <= k < n ==> #[trigger] enemies@[k] == (Enemy {
                    pos: separated_positions(es, i as int)[k],
                    ..es[k]
                }),
        decreases n - i,
    {
        let partner = grid.find_partner(&snapshot, i, Ghost(es));
        proof {
            lemma_separated_len(es, i + 1);
        }
        match partner {
            Some(j) => {
                proof {
                    lemma_first_partner_unique(es, i as int, j as int);
                }
                let a = snapshot[i].pos;
                let b = snapshot[j].pos;
                let (ox, oy) = push_offset(a, b);
                let mut ei = enemies[i];
                ei.pos = shift(ei.pos, ox, oy);
                enemies.set(i, ei);
                let mut ej = enemies[j];
                ej.pos = shift(ej.pos, -ox, -oy);
                enemies.set(j, ej);
            },
            None => {
                proof {
                    assert(!exists|j: int| is_first_partner(es, i as int, j));
                }
            },
        }
        i += 1;
    }
}

proof fn lemma_scale_neg(c: int, st: int, len: int)
    requires
        len > 0,
        st >= 0,
    ensures
        scale_div(-c, st, len) == -scale_div(c, st, len),
{
    if c == 0 {
        assert(0int * st == 0) by (nonlinear_arith);
        assert(0int / len == 0) by (nonlinear_arith)
            requires
                len > 0,
        ;
    } else if c > 0 {
        assert(-(-c) == c);
    }
}

/// The two enemies of an overlapping pair receive opposite pushes of the
/// same length.
pub proof fn lemma_push_symmetric(a: Pos, b: Pos)
    ensures
        push_vec(b, a).0 == -push_vec(a, b).0,
        push_vec(b, a).1 == -push_vec(a, b).1,
{
    let dx = a.x - b.x;
    let dy = a.y - b.y;
    let st = SEPARATION_STEP as int;
    assert(b.x - a.x == -dx && b.y - a.y == -dy);
    if dx != 0 || dy != 0 {
        assert(sq_len(-dx, -dy) == sq_len(dx, dy)) by (nonlinear_arith);
        let n = sq_len(dx, dy);
        assert(n >= 1) by (nonlinear_arith)
            requires
                n == dx * dx + dy * dy,
                dx != 0 || dy != 0,
        ;
        let len = root(n);
        assert(exists|r: int| is_root(n, r)) by {
            lemma_root_exists(n);
        }
        assert(is_root(n, len));
        assert(len > 0) by (nonlinear_arith)
            requires
                n >= 1,
                n < (len + 1) * (len + 1),
                len >= 0,
        ;
        lemma_scale_neg(dx, st, len);
        lemma_scale_neg(dy, st, len);
    }
}

/// Rebuilding the grid twice from unchanged positions gives identical
/// buckets, whatever the grid held before each rebuild.
pub proof fn lemma_rebuild_idempotent(first: SpatialGrid, second: SpatialGrid, es: Seq<Enemy>)
    requires
        first.built_from(es),
        second.built_from(es),
    ensures
        first@ == second@,
{
}

} // verus!
