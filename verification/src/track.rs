//! Polyline paths with arc-length parameterization.
//!
//! A `Path` is an immutable ordered sequence of 3-D points.  Construction
//! derives, for every node, the cumulative arc length from the start of the
//! path and the normalized percent-along-path (in parts per million).  The
//! percents are non-decreasing, start at 0 and end at exactly
//! `PERCENT_SCALE`; a zero-length path never divides by zero, and distance
//! queries on it return the sole point.

use vstd::prelude::*;

use crate::geometry::{
    dist, dist2_spec, div_trunc, is_isqrt, isqrt_spec, lemma_dist2_bound, mul_div, Vec3i,
};

verus! {

/// Denominator of the percent-along-path representation: a node's `percent`
/// field ranges from 0 (start of the path) to `PERCENT_SCALE` (end).
pub const PERCENT_SCALE: u64 = 1_000_000;

/// Largest number of nodes a path may hold; keeps every cumulative distance
/// comfortably inside `u64`.
pub const MAX_NODES: usize = 100_000;

/// Upper bound on the length of a single segment between in-bounds points.
pub const SEG_MAX: u64 = 3_500_000_000;

/// One node of a path: its point, how far along the path it lies, and that
/// arc length normalized to `PERCENT_SCALE`.
#[derive(Clone, Copy, Debug, PartialEq, Eq, Structural)]
pub struct PathNode {
    pub point: Vec3i,
    /// At what percent of the path this node lies, in parts per million.
    pub percent: u64,
    /// Arc length from the start of the path to this node.
    pub distance: u64,
}

/// An immutable polyline with per-node cumulative arc length.  Built by
/// [`Path::new`], which establishes [`Path::wf`]; nothing mutates a path
/// afterwards.
pub struct Path {
    pub id: u64,
    pub nodes: Vec<PathNode>,
}

/// Length of the segment between two points, rounded down.
pub open spec fn seg_len_spec(a: Vec3i, b: Vec3i) -> nat {
    isqrt_spec(dist2_spec(a, b) as nat)
}

/// Cumulative arc length from the start of `pts` to node `i`.
pub open spec fn cum_dist(pts: Seq<Vec3i>, i: int) -> int
    decreases i,
{
    if i <= 0 {
        0
    } else {
        cum_dist(pts, i - 1) + seg_len_spec(pts[i - 1], pts[i])
    }
}

/// Normalized position of arc length `d` on a path of total length `total`,
/// in parts per million, truncated; 0 on a zero-length path.
pub open spec fn percent_spec(d: int, total: int) -> int {
    if total == 0 {
        0
    } else {
        d * (PERCENT_SCALE as int) / total
    }
}

/// Index of the first segment at or after `i` whose key interval brackets
/// `q` and has positive width; the index of the last node when none does.
pub open spec fn find_seg(keys: Seq<int>, q: int, i: int) -> int
    decreases keys.len() - i,
{
    if i < 0 || i >= keys.len() - 1 {
        keys.len() - 1
    } else if keys[i] <= q <= keys[i + 1] && keys[i] < keys[i + 1] {
        i
    } else {
        find_seg(keys, q, i + 1)
    }
}

/// Linear interpolation `a + (b - a) * num / den` per coordinate, with the
/// division truncating toward zero.
pub open spec fn lerp_spec(a: Vec3i, b: Vec3i, num: int, den: int) -> Vec3i {
    Vec3i {
        x: (a.x + div_trunc((b.x - a.x) * num, den)) as i64,
        y: (a.y + div_trunc((b.y - a.y) * num, den)) as i64,
        z: (a.z + div_trunc((b.z - a.z) * num, den)) as i64,
    }
}

/// The point a query `q` denotes on a polyline whose node keys are `keys`:
/// interpolated on the first positive-width bracketing segment, and the last
/// node's point when the query lies beyond every segment.
pub open spec fn sample_spec(nodes: Seq<PathNode>, keys: Seq<int>, q: int) -> Vec3i {
    let j = find_seg(keys, q, 0);
    if j < keys.len() - 1 {
        lerp_spec(nodes[j].point, nodes[j + 1].point, q - keys[j], keys[j + 1] - keys[j])
    } else {
        nodes[keys.len() - 1].point
    }
}

impl Path {
    /// The nodes, as a mathematical sequence.
    pub open spec fn nodes_seq(self) -> Seq<PathNode> {
        self.nodes@
    }

    /// The points the path was built from.
    pub open spec fn points_seq(self) -> Seq<Vec3i> {
        self.nodes_seq().map(|i: int, n: PathNode| n.point)
    }

    /// Total arc length of the path.
    pub open spec fn total_spec(self) -> int {
        cum_dist(self.points_seq(), self.nodes_seq().len() - 1)
    }

    /// Construction establishes this and nothing ever mutates a path: the
    /// node list is non-empty and bounded, every point is in bounds, each
    /// node's `distance` is the exact cumulative arc length, interior
    /// percents are `distance / total` scaled to parts per million, and the
    /// final percent is forced to exactly `PERCENT_SCALE`.
    pub open spec fn wf(self) -> bool {
        let n = self.nodes_seq().len() as int;
        &&& 1 <= n <= MAX_NODES
        &&& forall|i: int| 0 <= i < n ==> (#[trigger] self.nodes_seq()[i]).point.in_bounds()
        &&& forall|i: int|
            0 <= i < n ==> (#[trigger] self.nodes_seq()[i]).distance == cum_dist(
                self.points_seq(),
                i,
            )
        &&& forall|i: int|
            0 <= i < n - 1 ==> (#[trigger] self.nodes_seq()[i]).percent == percent_spec(
                cum_dist(self.points_seq(), i),
                self.total_spec(),
            )
        &&& self.nodes_seq()[n - 1].percent == PERCENT_SCALE
    }

    /// Builds a path from an ordered list of points, deriving each node's
    /// cumulative arc length and normalized percent.
    pub fn new(id: u64, points: Vec<Vec3i>) -> (r: Path)
        requires
            1 <= points@.len() <= MAX_NODES,
            forall|i: int| 0 <= i < points@.len() ==> (#[trigger] points@[i]).in_bounds(),
        ensures
            r.wf(),
            r.id == id,
            r.points_seq() == points@,
    {
        let distances = compute_distances(&points);
        proof {
            assert forall|i: int| 0 <= i < distances@.len() implies #[trigger] distances@[i]
                <= distances@[distances@.len() - 1] by {
                lemma_cum_dist_monotone(points@, i, distances@.len() - 1);
            }
        }
        let percents = compute_percents(&distances);
        let n = points.len();
        let mut nodes: Vec<PathNode> = Vec::new();
        let mut i: usize = 0;
        while i < n
            invariant
                i <= n,
                n == points@.len() == distances@.len() == percents@.len(),
                nodes@.len() == i,
                forall|k: int|
                    0 <= k < i ==> #[trigger] nodes@[k] == (PathNode {
                        point: points@[k],
                        percent: percents@[k],
                        distance: distances@[k],
                    }),
            decreases n - i,
        {
            nodes.push(
                PathNode { point: points[i], percent: percents[i], distance: distances[i] },
            );
            i = i + 1;
        }
        let path = Path { id, nodes };
        proof {
            assert(path.points_seq() =~= points@);
            assert(path.total_spec() == distances@[distances@.len() - 1]);
        }
        path
    }

    /// How many nodes the path holds.
    pub fn node_count(&self) -> (r: usize)
        ensures
            r == self.nodes_seq().len(),
    {
        self.nodes.len()
    }

    /// The point of node `i`.
    pub fn node_point(&self, i: usize) -> (r: Vec3i)
        requires
            i < self.nodes_seq().len(),
        ensures
            r == self.nodes_seq()[i as int].point,
    {
        self.nodes[i].point
    }

    /// The percent-along-path of node `i`, in parts per million.
    pub fn node_percent(&self, i: usize) -> (r: u64)
        requires
            i < self.nodes_seq().len(),
        ensures
            r == self.nodes_seq()[i as int].percent,
    {
        self.nodes[i].percent
    }

    /// The cumulative arc length of node `i`.
    pub fn node_distance(&self, i: usize) -> (r: u64)
        requires
            i < self.nodes_seq().len(),
        ensures
            r == self.nodes_seq()[i as int].distance,
    {
        self.nodes[i].distance
    }

    /// The points the path was built from, as a fresh vector.
    pub fn points(&self) -> (r: Vec<Vec3i>)
        ensures
            r@ == self.points_seq(),
    {
        let mut out: Vec<Vec3i> = Vec::new();
        let mut i: usize = 0;
        while i < self.nodes.len()
            invariant
                i <= self.nodes.len(),
                out@ == self.points_seq().take(i as int),
            decreases self.nodes.len() - i,
        {
            out.push(self.nodes[i].point);
            proof {
                assert(out@ =~= self.points_seq().take(i + 1));
            }
            i = i + 1;
        }
        proof {
            assert(out@ =~= self.points_seq());
        }
        out
    }

    /// Total length of the path.
    pub fn total_length(&self) -> (r: u64)
        requires
            self.wf(),
        ensures
            r == self.total_spec(),
    {
        self.nodes[self.nodes.len() - 1].distance
    }

    /// The node arc lengths, as a sequence of mathematical integers.
    pub open spec fn dist_keys(self) -> Seq<int> {
        self.nodes_seq().map(|i: int, n: PathNode| n.distance as int)
    }

    /// The node percents, as a sequence of mathematical integers.
    pub open spec fn percent_keys(self) -> Seq<int> {
        self.nodes_seq().map(|i: int, n: PathNode| n.percent as int)
    }

    /// The point the path assigns to arc length `d`.
    pub open spec fn point_at_distance_spec(self, d: int) -> Vec3i {
        sample_spec(self.nodes_seq(), self.dist_keys(), d)
    }

    /// The point the path assigns to normalized position `t` (parts per
    /// million).
    pub open spec fn point_at_percent_spec(self, t: int) -> Vec3i {
        sample_spec(self.nodes_seq(), self.percent_keys(), t)
    }

    /// Which segment a distance query falls on; the index of the last node
    /// when the query lies at or beyond the end of the path.
    pub open spec fn seg_index_of_distance(self, d: int) -> int {
        find_seg(self.dist_keys(), d, 0)
    }

    /// Returns the point on the path at the given arc length from the start.
    /// Queries beyond the end of the path clamp to the final point, and a
    /// zero-length path returns its sole point; there is no failure case.
    pub fn get_point_along_path(&self, distance: u64) -> (r: Vec3i)
        requires
            self.wf(),
        ensures
            r == self.point_at_distance_spec(distance as int),
            r.in_bounds(),
            (forall|k: int|
                0 <= k < self.nodes_seq().len() ==> (
                #[trigger] self.nodes_seq()[k]).point.in_world_bounds()) ==> r.in_world_bounds(),
    {
        let ghost keys = self.dist_keys();
        let ghost q = distance as int;
        let n = self.nodes.len();
        let mut i: usize = 0;
        while i < n - 1
            invariant
                self.wf(),
                n == self.nodes_seq().len(),
                keys == self.dist_keys(),
                q == distance as int,
                0 <= i <= n - 1,
                find_seg(keys, q, 0) == find_seg(keys, q, i as int),
            decreases n - 1 - i,
        {
            let d1 = self.nodes[i].distance;
            let d2 = self.nodes[i + 1].distance;
            proof {
                assert(keys[i as int] == d1 as int);
                assert(keys[i + 1] == d2 as int);
            }
            if d1 <= distance && distance <= d2 && d1 < d2 {
                proof {
                    assert(find_seg(keys, q, i as int) == i as int);
                    lemma_seg_len_bound(
                        self.points_seq()[i as int],
                        self.points_seq()[i + 1],
                    );
                    assert(d2 - d1 == seg_len_spec(
                        self.points_seq()[i as int],
                        self.points_seq()[i + 1],
                    ));
                }
                let r = lerp(
                    self.nodes[i].point,
                    self.nodes[i + 1].point,
                    distance - d1,
                    d2 - d1,
                );
                return r;
            }
            proof {
                assert(find_seg(keys, q, i as int) == find_seg(keys, q, i + 1));
            }
            i = i + 1;
        }
        proof {
            assert(find_seg(keys, q, n - 1) == n - 1);
        }
        self.nodes[n - 1].point
    }

    /// Returns the point on the path at the given percent of its length, in
    /// parts per million.  Queries beyond `PERCENT_SCALE` clamp to the final
    /// point; a zero-width bracketing segment is skipped rather than divided
    /// by.
    pub fn get_point_along_path_percent(&self, t: u64) -> (r: Vec3i)
        requires
            self.wf(),
        ensures
            r == self.point_at_percent_spec(t as int),
            r.in_bounds(),
            (forall|k: int|
                0 <= k < self.nodes_seq().len() ==> (
                #[trigger] self.nodes_seq()[k]).point.in_world_bounds()) ==> r.in_world_bounds(),
    {
        let ghost keys = self.percent_keys();
        let ghost q = t as int;
        let n = self.nodes.len();
        let mut i: usize = 0;
        while i < n - 1
            invariant
                self.wf(),
                n == self.nodes_seq().len(),
                keys == self.percent_keys(),
                q == t as int,
                0 <= i <= n - 1,
                find_seg(keys, q, 0) == find_seg(keys, q, i as int),
            decreases n - 1 - i,
        {
            let c1 = self.nodes[i].percent;
            let c2 = self.nodes[i + 1].percent;
            proof {
                assert(keys[i as int] == c1 as int);
                assert(keys[i + 1] == c2 as int);
            }
            if c1 <= t && t <= c2 && c1 < c2 {
                proof {
                    assert(find_seg(keys, q, i as int) == i as int);
                    lemma_percent_bounded(*self, i as int);
                    lemma_percent_bounded(*self, i + 1);
                }
                let r = lerp(self.nodes[i].point, self.nodes[i + 1].point, t - c1, c2 - c1);
                return r;
            }
            proof {
                assert(find_seg(keys, q, i as int) == find_seg(keys, q, i + 1));
            }
            i = i + 1;
        }
        proof {
            assert(find_seg(keys, q, n - 1) == n - 1);
        }
        self.nodes[n - 1].point
    }
}

/// Every percent stored in a well-formed path is at most `PERCENT_SCALE`.
proof fn lemma_percent_bounded(p: Path, i: int)
    requires
        p.wf(),
        0 <= i < p.nodes_seq().len(),
    ensures
        p.nodes_seq()[i].percent <= PERCENT_SCALE,
{
    let n = p.nodes_seq().len() as int;
    if i < n - 1 {
        let t = p.total_spec();
        let d = cum_dist(p.points_seq(), i);
        lemma_cum_dist_bound(p.points_seq(), i);
        lemma_cum_dist_monotone(p.points_seq(), i, n - 1);
        if t != 0 {
            assert(d * (PERCENT_SCALE as int) / t <= PERCENT_SCALE) by (nonlinear_arith)
                requires 0 <= d <= t, 1 <= t;
        }
    }
}

/// Linear interpolation between two in-bounds points; the result is exactly
/// `lerp_spec` and stays within bounds.
fn lerp(a: Vec3i, b: Vec3i, num: u64, den: u64) -> (r: Vec3i)
    requires
        a.in_bounds(),
        b.in_bounds(),
        1 <= den <= 4_000_000_000,
        num <= den,
    ensures
        r == lerp_spec(a, b, num as int, den as int),
        r.in_bounds(),
        a.in_world_bounds() && b.in_world_bounds() ==> r.in_world_bounds(),
{
    proof {
        lemma_lerp_axis(a.x as int, b.x as int, num as int, den as int);
        lemma_lerp_axis(a.y as int, b.y as int, num as int, den as int);
        lemma_lerp_axis(a.z as int, b.z as int, num as int, den as int);
    }
    let x = a.x + mul_div(b.x - a.x, num as i64, den);
    let y = a.y + mul_div(b.y - a.y, num as i64, den);
    let z = a.z + mul_div(b.z - a.z, num as i64, den);
    Vec3i { x, y, z }
}

/// One axis of a truncating interpolation lands between its two endpoints.
proof fn lemma_lerp_axis(av: int, bv: int, num: int, den: int)
    requires
        1 <= den,
        0 <= num <= den,
    ensures
        bv >= av ==> 0 <= div_trunc((bv - av) * num, den) <= bv - av,
        bv < av ==> av - bv >= -div_trunc((bv - av) * num, den) >= 0,
{
    let delta = bv - av;
    if delta >= 0 {
        assert(0 <= delta * num <= delta * den) by (nonlinear_arith)
            requires 0 <= delta, 0 <= num <= den;
        vstd::arithmetic::div_mod::lemma_div_is_ordered(delta * num, delta * den, den);
        vstd::arithmetic::div_mod::lemma_div_multiples_vanish(delta, den);
        assert(delta * den == den * delta) by (nonlinear_arith);
        vstd::arithmetic::div_mod::lemma_div_pos_is_pos(delta * num, den);
    } else {
        let m = -delta;
        assert(0 <= m * num <= m * den) by (nonlinear_arith)
            requires 0 <= m, 0 <= num <= den;
        vstd::arithmetic::div_mod::lemma_div_is_ordered(m * num, m * den, den);
        vstd::arithmetic::div_mod::lemma_div_multiples_vanish(m, den);
        assert(m * den == den * m) by (nonlinear_arith);
        vstd::arithmetic::div_mod::lemma_div_pos_is_pos(m * num, den);
        assert(-(delta * num) == m * num) by (nonlinear_arith)
            requires m == -delta;
        if delta * num < 0 {
            assert(div_trunc(delta * num, den) == -((m * num) / den));
        } else {
            assert(delta * num == 0 && m * num == 0) by (nonlinear_arith)
                requires delta * num >= 0, delta < 0, num >= 0, -(delta * num) == m * num;
            vstd::arithmetic::div_mod::lemma_div_of0(den);
        }
    }
}

/// Per-node cumulative arc lengths of a point list.
fn compute_distances(points: &Vec<Vec3i>) -> (d: Vec<u64>)
    requires
        1 <= points@.len() <= MAX_NODES,
        forall|i: int| 0 <= i < points@.len() ==> (#[trigger] points@[i]).in_bounds(),
    ensures
        d@.len() == points@.len(),
        forall|i: int| 0 <= i < d@.len() ==> #[trigger] d@[i] == cum_dist(points@, i),
{
    let n = points.len();
    let mut d: Vec<u64> = Vec::new();
    d.push(0);
    let mut i: usize = 1;
    while i < n
        invariant
            1 <= i <= n,
            n == points@.len() <= MAX_NODES,
            forall|k: int| 0 <= k < n ==> (#[trigger] points@[k]).in_bounds(),
            d@.len() == i,
            forall|k: int| 0 <= k < i ==> #[trigger] d@[k] == cum_dist(points@, k),
        decreases n - i,
    {
        let prev = d[i - 1];
        let step = dist(points[i - 1], points[i]);
        proof {
            lemma_cum_dist_bound(points@, i - 1);
            lemma_seg_len_bound(points@[i - 1], points@[i as int]);
            assert((i - 1) * (SEG_MAX as int) + SEG_MAX <= MAX_NODES * (SEG_MAX as int))
                by (nonlinear_arith)
                requires 1 <= i <= MAX_NODES;
        }
        d.push(prev + step);
        i = i + 1;
    }
    d
}

/// Normalized percents (parts per million) for a list of cumulative arc
/// lengths; the last entry is forced to exactly `PERCENT_SCALE`.
fn compute_percents(d: &Vec<u64>) -> (p: Vec<u64>)
    requires
        d@.len() >= 1,
        forall|i: int| 0 <= i < d@.len() ==> #[trigger] d@[i] <= d@[d@.len() - 1],
    ensures
        p@.len() == d@.len(),
        forall|i: int|
            0 <= i < p@.len() - 1 ==> #[trigger] p@[i] == percent_spec(
                d@[i] as int,
                d@[d@.len() - 1] as int,
            ),
        p@[p@.len() - 1] == PERCENT_SCALE,
{
    let n = d.len();
    let total = d[n - 1];
    let mut p: Vec<u64> = Vec::new();
    let mut i: usize = 0;
    while i < n - 1
        invariant
            0 <= i <= n - 1,
            n == d@.len(),
            total == d@[n - 1],
            forall|k: int| 0 <= k < n ==> #[trigger] d@[k] <= total,
            p@.len() == i,
            forall|k: int| 0 <= k < i ==> #[trigger] p@[k] == percent_spec(d@[k] as int, total as int),
        decreases n - 1 - i,
    {
        if total == 0 {
            p.push(0);
        } else {
            proof {
                assert((d@[i as int] as int) * (PERCENT_SCALE as int) <= u128::MAX)
                    by (nonlinear_arith)
                    requires 0 <= d@[i as int] <= u64::MAX;
            }
            let scaled: u128 = (d[i] as u128) * (PERCENT_SCALE as u128);
            let q: u128 = scaled / (total as u128);
            proof {
                assert(q <= PERCENT_SCALE) by (nonlinear_arith)
                    requires
                        q == (d@[i as int] as int) * (PERCENT_SCALE as int) / (total as int),
                        0 <= d@[i as int] <= total,
                        total >= 1,
                ;
            }
            p.push(q as u64);
        }
        i = i + 1;
    }
    p.push(PERCENT_SCALE);
    p
}

/// Every point of the path lies within `WORLD_LIMIT`, so every sample of it
/// can be rescaled to milli-units.
pub open spec fn path_world_bounded(p: Path) -> bool {
    forall|k: int|
        0 <= k < p.nodes_seq().len() ==> (#[trigger] p.nodes_seq()[k]).point.in_world_bounds()
}

/// Index of the first path at or after `i` whose id is `id`; -1 when none
/// is.
pub open spec fn path_index_of(paths: Seq<Path>, id: u64, i: int) -> int
    decreases paths.len() - i,
{
    if i < 0 || i >= paths.len() {
        -1
    } else if paths[i].id == id {
        i
    } else {
        path_index_of(paths, id, i + 1)
    }
}

/// `path_index_of` returns -1 or an index of a path holding the id.
pub proof fn lemma_path_index_of_range(paths: Seq<Path>, id: u64, i: int)
    requires
        0 <= i,
    ensures
        path_index_of(paths, id, i) == -1 || (i <= path_index_of(paths, id, i) < paths.len()
            && paths[path_index_of(paths, id, i)].id == id),
    decreases paths.len() - i,
{
    if i < paths.len() && paths[i].id != id {
        lemma_path_index_of_range(paths, id, i + 1);
    }
}

/// Checked lookup of a path by id: `Some` of the first index holding it, or
/// `None` when the id does not resolve.
pub fn find_path(paths: &Vec<Path>, id: u64) -> (r: Option<usize>)
    ensures
        r is Some <==> path_index_of(paths@, id, 0) >= 0,
        r matches Some(j) ==> j == path_index_of(paths@, id, 0) && j < paths@.len()
            && paths@[j as int].id == id,
{
    let mut i: usize = 0;
    while i < paths.len()
        invariant
            0 <= i <= paths@.len(),
            path_index_of(paths@, id, 0) == path_index_of(paths@, id, i as int),
        decreases paths@.len() - i,
    {
        if paths[i].id == id {
            return Some(i);
        }
        i = i + 1;
    }
    None
}

/// A single segment between in-bounds points is no longer than `SEG_MAX`.
pub proof fn lemma_seg_len_bound(a: Vec3i, b: Vec3i)
    requires
        a.in_bounds(),
        b.in_bounds(),
    ensures
        0 <= seg_len_spec(a, b) <= SEG_MAX,
{
    lemma_dist2_bound(a, b);
    lemma_isqrt_spec_is(dist2_spec(a, b) as nat);
    let r = isqrt_spec(dist2_spec(a, b) as nat);
    if r > SEG_MAX {
        assert(r * r > 12_000_000_000_000_000_000) by (nonlinear_arith)
            requires r > 3_500_000_000u64;
    }
}

/// Every natural number has an integer square root, so `isqrt_spec` denotes
/// it.
pub proof fn lemma_isqrt_spec_is(n: nat)
    ensures
        is_isqrt(n as int, isqrt_spec(n) as int),
    decreases n,
{
    if n == 0 {
        assert(is_isqrt(0, 0));
    } else {
        lemma_isqrt_spec_is((n - 1) as nat);
        let r = isqrt_spec((n - 1) as nat);
        if (r + 1) * (r + 1) == n {
            assert(is_isqrt(n as int, (r + 1) as int)) by (nonlinear_arith)
                requires (r + 1) * (r + 1) == n, 0 <= r;
        } else {
            assert(is_isqrt(n as int, r as int));
        }
    }
    let w = choose|r: nat| is_isqrt(n as int, r as int);
    assert(is_isqrt(n as int, w as int));
}

/// Cumulative distances grow by at most `SEG_MAX` per node.
pub proof fn lemma_cum_dist_bound(pts: Seq<Vec3i>, i: int)
    requires
        0 <= i < pts.len(),
        forall|k: int| 0 <= k < pts.len() ==> (#[trigger] pts[k]).in_bounds(),
    ensures
        0 <= cum_dist(pts, i) <= i * (SEG_MAX as int),
    decreases i,
{
    if i > 0 {
        lemma_cum_dist_bound(pts, i - 1);
        lemma_seg_len_bound(pts[i - 1], pts[i]);
        assert((i - 1) * (SEG_MAX as int) + SEG_MAX == i * (SEG_MAX as int)) by (nonlinear_arith);
    }
}

/// On every path of at least two nodes, the node percents are
/// non-decreasing, the first is exactly 0 and the last is exactly
/// `PERCENT_SCALE`.
pub proof fn lemma_percents_monotone(p: Path)
    requires
        p.wf(),
        p.nodes_seq().len() >= 2,
    ensures
        p.nodes_seq()[0].percent == 0,
        p.nodes_seq()[p.nodes_seq().len() - 1].percent == PERCENT_SCALE,
        forall|i: int, j: int|
            0 <= i <= j < p.nodes_seq().len() ==> (#[trigger] p.nodes_seq()[i]).percent <= (
            #[trigger] p.nodes_seq()[j]).percent,
{
    let n = p.nodes_seq().len() as int;
    let t = p.total_spec();
    lemma_cum_dist_bound(p.points_seq(), n - 1);
    if t != 0 {
        assert(0 * (PERCENT_SCALE as int) / t == 0) by {
            vstd::arithmetic::div_mod::lemma_div_of0(t);
            assert(0 * (PERCENT_SCALE as int) == 0) by (nonlinear_arith);
        }
    }
    assert forall|i: int, j: int| 0 <= i <= j < n implies (#[trigger] p.nodes_seq()[i]).percent
        <= (#[trigger] p.nodes_seq()[j]).percent by {
        lemma_cum_dist_monotone(p.points_seq(), i, j);
        lemma_cum_dist_monotone(p.points_seq(), j, n - 1);
        lemma_cum_dist_bound(p.points_seq(), i);
        let di = cum_dist(p.points_seq(), i);
        let dj = cum_dist(p.points_seq(), j);
        if j < n - 1 {
            if t != 0 {
                assert(di * (PERCENT_SCALE as int) <= dj * (PERCENT_SCALE as int))
                    by (nonlinear_arith)
                    requires di <= dj;
                vstd::arithmetic::div_mod::lemma_div_is_ordered(
                    di * (PERCENT_SCALE as int),
                    dj * (PERCENT_SCALE as int),
                    t,
                );
            }
        } else if i < n - 1 {
            lemma_percent_bounded(p, i);
        }
    }
}

/// For two distance queries `d1 <= d2`, the points returned lie in traversal
/// order along the path: the segment index found for `d1` is no later than
/// the one found for `d2`, and on a shared segment the interpolation offset
/// for `d1` is no larger.
pub proof fn lemma_point_at_distance_monotone(p: Path, d1: u64, d2: u64)
    requires
        p.wf(),
        d1 <= d2,
    ensures
        p.seg_index_of_distance(d1 as int) <= p.seg_index_of_distance(d2 as int),
        p.seg_index_of_distance(d1 as int) == p.seg_index_of_distance(d2 as int) ==> d1 as int
            - p.dist_keys()[p.seg_index_of_distance(d1 as int)] <= d2 as int
            - p.dist_keys()[p.seg_index_of_distance(d2 as int)],
{
    let keys = p.dist_keys();
    let n = keys.len() as int;
    assert forall|k: int| 0 <= k < n - 1 implies #[trigger] keys[k] <= keys[k + 1] by {
        lemma_cum_dist_monotone(p.points_seq(), k, k + 1);
    }
    assert(keys[0] == 0);
    lemma_find_seg_monotone(keys, d1 as int, d2 as int, 0);
}

/// `find_seg` starting from `i` stays within `[i, len - 1]`.
proof fn lemma_find_seg_range(keys: Seq<int>, q: int, i: int)
    requires
        0 <= i <= keys.len() - 1,
    ensures
        i <= find_seg(keys, q, i) <= keys.len() - 1,
    decreases keys.len() - i,
{
    if i < keys.len() - 1 && !(keys[i] <= q <= keys[i + 1] && keys[i] < keys[i + 1]) {
        lemma_find_seg_range(keys, q, i + 1);
    }
}

/// With non-decreasing keys and both queries at or past `keys[i]`, the
/// segment found for the smaller query is no later than the one found for
/// the larger.
proof fn lemma_find_seg_monotone(keys: Seq<int>, d1: int, d2: int, i: int)
    requires
        0 <= i <= keys.len() - 1,
        forall|k: int| 0 <= k < keys.len() - 1 ==> #[trigger] keys[k] <= keys[k + 1],
        keys[i] <= d1 <= d2,
    ensures
        find_seg(keys, d1, i) <= find_seg(keys, d2, i),
    decreases keys.len() - i,
{
    let n = keys.len() as int;
    if i < n - 1 {
        if keys[i] <= d1 <= keys[i + 1] && keys[i] < keys[i + 1] {
            lemma_find_seg_range(keys, d2, i);
        } else {
            lemma_find_seg_monotone(keys, d1, d2, i + 1);
        }
    }
}

/// Repeated identical distance queries return the same point: the result is
/// a function of the path and the query alone.
pub proof fn lemma_point_at_distance_idempotent(p: Path, d: u64, r1: Vec3i, r2: Vec3i)
    requires
        r1 == p.point_at_distance_spec(d as int),
        r2 == p.point_at_distance_spec(d as int),
    ensures
        r1 == r2,
{
}

/// Cumulative distances are non-decreasing along the path.
pub proof fn lemma_cum_dist_monotone(pts: Seq<Vec3i>, i: int, j: int)
    requires
        0 <= i <= j < pts.len(),
        forall|k: int| 0 <= k < pts.len() ==> (#[trigger] pts[k]).in_bounds(),
    ensures
        cum_dist(pts, i) <= cum_dist(pts, j),
    decreases j - i,
{
    if i < j {
        lemma_cum_dist_monotone(pts, i, j - 1);
        lemma_isqrt_spec_is(dist2_spec(pts[j - 1], pts[j]) as nat);
    }
}

} // verus!
