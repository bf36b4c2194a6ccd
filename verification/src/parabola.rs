//! The arc that a nuke flies.

use vstd::prelude::*;

use crate::map::{GameMap, MapView};
use crate::ordered_tiles::TileRef;

verus! {

/// How many units of length make up a tile.
pub const TILE_UNITS: i64 = 1_000_000;

/// An arc is at least this high, in units.
pub const MIN_HEIGHT: i64 = 50_000_000;

/// Into how many steps an arc is cut.
pub const STEPS: i64 = 500;

/// The sum of the weights of a point's four control points.
pub const WEIGHT: i64 = 125_000_000;

/// No coordinate is larger than this, in units.
pub const MAX_UNITS: i64 = 65_534_000_000;

/// A point, in units.
#[derive(Clone, Copy, Debug, PartialEq, Eq, Structural)]
pub struct Pt {
    pub x: i64,
    pub y: i64,
}

/// The control points of an arc.
#[derive(Clone, Copy, Debug, PartialEq, Eq, Structural)]
pub struct Arc {
    pub p0: Pt,
    pub p1: Pt,
    pub p2: Pt,
    pub p3: Pt,
}

/// The whole part of the square root.
pub open spec fn root(n: int) -> int {
    choose|r: int| #[trigger] is_root(n, r)
}

pub open spec fn is_root(n: int, r: int) -> bool {
    0 <= r && r * r <= n < (r + 1) * (r + 1)
}

/// A number has one whole root.
pub proof fn lemma_root(n: int, r: int)
    requires
        is_root(n, r),
    ensures
        root(n) == r,
{
    let s = root(n);
    assert(is_root(n, s));
    if s < r {
        assert((s + 1) * (s + 1) <= r * r) by (nonlinear_arith)
            requires
                0 <= s < r,
        ;
    } else if s > r {
        assert((r + 1) * (r + 1) <= s * s) by (nonlinear_arith)
            requires
                0 <= r < s,
        ;
    }
}

/// Every number that is not negative has a root.
pub proof fn lemma_root_exists(n: int)
    requires
        n >= 0,
    ensures
        is_root(n, root(n)),
    decreases n,
{
    if n == 0 {
        assert(is_root(0, 0));
    } else {
        lemma_root_exists(n - 1);
        let r = root(n - 1);
        if n < (r + 1) * (r + 1) {
            assert(is_root(n, r));
        } else {
            assert(n < (r + 2) * (r + 2)) by (nonlinear_arith)
                requires
                    0 <= r,
                    n - 1 < (r + 1) * (r + 1),
            ;
            assert(is_root(n, r + 1));
        }
    }
}

/// The whole part of the square root of `n`.
pub fn square_root(n: u128) -> (r: u64)
    requires
        n < 0x1_0000_0000_0000_0000_0000_0000,
    ensures
        r == root(n as int),
        r < 0x1_0000_0000_0000,
{
    let mut lo: u64 = 0;
    let mut hi: u64 = 0x1_0000_0000_0000;
    assert(hi * hi == 0x1_0000_0000_0000_0000_0000_0000) by (nonlinear_arith)
        requires
            hi == 0x1_0000_0000_0000,
    ;
    while hi - lo > 1
        invariant
            lo < hi <= 0x1_0000_0000_0000,
            lo * lo <= n < hi * hi,
        decreases hi - lo,
    {
        let mid: u64 = lo + (hi - lo) / 2;
        assert(0 <= mid * mid <= 0x1_0000_0000_0000 * 0x1_0000_0000_0000) by (nonlinear_arith)
            requires
                0 <= mid <= 0x1_0000_0000_0000,
        ;
        if mid as u128 * (mid as u128) <= n {
            lo = mid;
        } else {
            hi = mid;
        }
    }
    proof {
        assert(hi == lo + 1);
        lemma_root(n as int, lo as int);
    }
    lo
}

impl Pt {
    /// How far apart two points are, in whole units.
    pub open spec fn dist(self, other: Pt) -> int {
        root((self.x - other.x) * (self.x - other.x) + (self.y - other.y) * (self.y - other.y))
    }

    pub open spec fn inside(self, max_x: int, max_y: int) -> bool {
        0 <= self.x <= max_x && 0 <= self.y <= max_y
    }
}

fn apart(a: Pt, b: Pt) -> (d: u64)
    requires
        a.inside(MAX_UNITS as int, MAX_UNITS as int),
        b.inside(MAX_UNITS as int, MAX_UNITS as int),
    ensures
        d == a.dist(b),
        d < 0x1_0000_0000_0000,
{
    let dx: i64 = a.x - b.x;
    let dy: i64 = a.y - b.y;
    assert(0 <= dx * dx <= 65_534_000_000 * 65_534_000_000) by (nonlinear_arith)
        requires
            -65_534_000_000 <= dx <= 65_534_000_000,
    ;
    assert(0 <= dy * dy <= 65_534_000_000 * 65_534_000_000) by (nonlinear_arith)
        requires
            -65_534_000_000 <= dy <= 65_534_000_000,
    ;
    let n: i128 = dx as i128 * (dx as i128) + dy as i128 * (dy as i128);
    square_root(n as u128)
}

/// The weights of the control points after `k` steps.
pub open spec fn weight0(k: int) -> int {
    (STEPS - k) * (STEPS - k) * (STEPS - k)
}

pub open spec fn weight1(k: int) -> int {
    3 * ((STEPS - k) * (STEPS - k) * k)
}

pub open spec fn weight2(k: int) -> int {
    3 * ((STEPS - k) * k * k)
}

pub open spec fn weight3(k: int) -> int {
    k * k * k
}

/// The mean of four coordinates with the weights of step `k`.
pub open spec fn blend(a: int, b: int, c: int, d: int, k: int) -> int {
    (weight0(k) * a + weight1(k) * b + weight2(k) * c + weight3(k) * d) / (WEIGHT as int)
}

/// The weights of a step add up, and none is negative.
pub proof fn lemma_weights(k: int)
    requires
        0 <= k <= STEPS,
    ensures
        weight0(k) >= 0,
        weight1(k) >= 0,
        weight2(k) >= 0,
        weight3(k) >= 0,
        weight0(k) + weight1(k) + weight2(k) + weight3(k) == WEIGHT,
{
    let j = STEPS - k;
    assert(j * j >= 0 && k * k >= 0) by (nonlinear_arith);
    assert(j * j * j >= 0) by (nonlinear_arith)
        requires
            j >= 0,
            j * j >= 0,
    ;
    assert(j * j * k >= 0) by (nonlinear_arith)
        requires
            k >= 0,
            j * j >= 0,
    ;
    assert(j * k * k >= 0) by (nonlinear_arith)
        requires
            j >= 0,
            k >= 0,
    ;
    assert(k * k * k >= 0) by (nonlinear_arith)
        requires
            k >= 0,
            k * k >= 0,
    ;
    assert(j * j * j + 3 * (j * j * k) + 3 * (j * k * k) + k * k * k == (j + k) * (j + k) * (j + k))
        by (nonlinear_arith);
    assert(j + k == 500);
    assert((j + k) * (j + k) * (j + k) == 125_000_000) by (nonlinear_arith)
        requires
            j + k == 500,
    ;
}

/// A mean stays between its least and its largest coordinate.
pub proof fn lemma_blend(a: int, b: int, c: int, d: int, k: int, most: int)
    requires
        0 <= k <= STEPS,
        0 <= a <= most,
        0 <= b <= most,
        0 <= c <= most,
        0 <= d <= most,
    ensures
        0 <= blend(a, b, c, d, k) <= most,
        0 <= weight0(k) * a <= weight0(k) * most,
        0 <= weight1(k) * b <= weight1(k) * most,
        0 <= weight2(k) * c <= weight2(k) * most,
        0 <= weight3(k) * d <= weight3(k) * most,
        weight0(k) * most + weight1(k) * most + weight2(k) * most + weight3(k) * most == WEIGHT
            * most,
{
    lemma_weights(k);
    let (w0, w1, w2, w3) = (weight0(k), weight1(k), weight2(k), weight3(k));
    assert(0 <= w0 * a <= w0 * most) by (nonlinear_arith)
        requires
            w0 >= 0,
            0 <= a <= most,
    ;
    assert(0 <= w1 * b <= w1 * most) by (nonlinear_arith)
        requires
            w1 >= 0,
            0 <= b <= most,
    ;
    assert(0 <= w2 * c <= w2 * most) by (nonlinear_arith)
        requires
            w2 >= 0,
            0 <= c <= most,
    ;
    assert(0 <= w3 * d <= w3 * most) by (nonlinear_arith)
        requires
            w3 >= 0,
            0 <= d <= most,
    ;
    assert(w0 * most + w1 * most + w2 * most + w3 * most == (w0 + w1 + w2 + w3) * most)
        by (nonlinear_arith);
    let sum = w0 * a + w1 * b + w2 * c + w3 * d;
    assert(0 <= sum <= 125_000_000 * most);
    assert(0 <= sum / 125_000_000 <= most) by (nonlinear_arith)
        requires
            0 <= sum <= 125_000_000 * most,
    ;
}

/// A mean is its first coordinate at the start and its last at the end.
proof fn lemma_blend_ends(a: int, b: int, c: int, d: int)
    ensures
        blend(a, b, c, d, 0) == a,
        blend(a, b, c, d, STEPS as int) == d,
{
    assert(weight0(0) == 125_000_000 && weight1(0) == 0 && weight2(0) == 0 && weight3(0) == 0)
        by (nonlinear_arith);
    assert(weight0(500) == 0 && weight1(500) == 0 && weight2(500) == 0 && weight3(500)
        == 125_000_000) by (nonlinear_arith);
    let (w0, w1, w2, w3) = (weight0(0), weight1(0), weight2(0), weight3(0));
    assert(w0 * a + w1 * b + w2 * c + w3 * d == 125_000_000 * a) by (nonlinear_arith)
        requires
            w0 == 125_000_000,
            w1 == 0,
            w2 == 0,
            w3 == 0,
    ;
    let (v0, v1, v2, v3) = (weight0(500), weight1(500), weight2(500), weight3(500));
    assert(v0 * a + v1 * b + v2 * c + v3 * d == 125_000_000 * d) by (nonlinear_arith)
        requires
            v0 == 0,
            v1 == 0,
            v2 == 0,
            v3 == 125_000_000,
    ;
}

impl Arc {
    pub open spec fn inside(self, max_x: int, max_y: int) -> bool {
        self.p0.inside(max_x, max_y) && self.p1.inside(max_x, max_y) && self.p2.inside(max_x, max_y)
            && self.p3.inside(max_x, max_y)
    }

    /// The point after `k` of the steps.
    pub open spec fn point(self, k: int) -> Pt {
        Pt {
            x: blend(
                self.p0.x as int,
                self.p1.x as int,
                self.p2.x as int,
                self.p3.x as int,
                k,
            ) as i64,
            y: blend(
                self.p0.y as int,
                self.p1.y as int,
                self.p2.y as int,
                self.p3.y as int,
                k,
            ) as i64,
        }
    }

    /// The points kept of the first `k` steps, and the length flown since the last of
    /// them. A point is kept once the arc is `spacing` longer.
    pub open spec fn sampled(self, spacing: int, k: nat) -> (Seq<Pt>, int)
        decreases k,
    {
        if k == 0 {
            (seq![self.point(0)], 0)
        } else {
            let (points, length) = self.sampled(spacing, (k - 1) as nat);
            let now = length + self.point(k - 1).dist(self.point(k as int));
            if now >= spacing {
                (points.push(self.point(k as int)), 0)
            } else {
                (points, now)
            }
        }
    }

    /// The points kept of the whole arc; the last is where it ends.
    pub open spec fn path(self, spacing: int) -> Seq<Pt> {
        let points = self.sampled(spacing, STEPS as nat).0;
        if points.last() == self.point(STEPS as int) {
            points
        } else {
            points.push(self.point(STEPS as int))
        }
    }

    /// The points of an arc stay where its control points are.
    pub proof fn lemma_point(self, k: int, max_x: int, max_y: int)
        requires
            0 <= k <= STEPS,
            self.inside(max_x, max_y),
            max_x <= MAX_UNITS,
            max_y <= MAX_UNITS,
        ensures
            self.point(k).inside(max_x, max_y),
            self.point(k).x == blend(
                self.p0.x as int,
                self.p1.x as int,
                self.p2.x as int,
                self.p3.x as int,
                k,
            ),
            self.point(k).y == blend(
                self.p0.y as int,
                self.p1.y as int,
                self.p2.y as int,
                self.p3.y as int,
                k,
            ),
    {
        lemma_blend(
            self.p0.x as int,
            self.p1.x as int,
            self.p2.x as int,
            self.p3.x as int,
            k,
            max_x,
        );
        lemma_blend(
            self.p0.y as int,
            self.p1.y as int,
            self.p2.y as int,
            self.p3.y as int,
            k,
            max_y,
        );
    }

    /// An arc begins and ends at its outer control points.
    pub proof fn lemma_ends(self)
        requires
            self.inside(MAX_UNITS as int, MAX_UNITS as int),
        ensures
            self.point(0) == self.p0,
            self.point(STEPS as int) == self.p3,
    {
        self.lemma_point(0, MAX_UNITS as int, MAX_UNITS as int);
        self.lemma_point(STEPS as int, MAX_UNITS as int, MAX_UNITS as int);
        lemma_blend_ends(
            self.p0.x as int,
            self.p1.x as int,
            self.p2.x as int,
            self.p3.x as int,
        );
        lemma_blend_ends(
            self.p0.y as int,
            self.p1.y as int,
            self.p2.y as int,
            self.p3.y as int,
        );
    }

    proof fn lemma_sampled(self, spacing: int, k: nat, max_x: int, max_y: int)
        requires
            k <= STEPS,
            self.inside(max_x, max_y),
            max_x <= MAX_UNITS,
            max_y <= MAX_UNITS,
        ensures
            self.sampled(spacing, k).0.len() >= 1,
            self.sampled(spacing, k).0[0] == self.point(0),
            forall|i: int|
                0 <= i < self.sampled(spacing, k).0.len() ==> (#[trigger] self.sampled(
                    spacing,
                    k,
                ).0[i]).inside(max_x, max_y),
        decreases k,
    {
        self.lemma_point(k as int, max_x, max_y);
        if k > 0 {
            self.lemma_sampled(spacing, (k - 1) as nat, max_x, max_y);
        }
    }

    /// The path of an arc begins and ends where the arc does, and stays where its control
    /// points are.
    pub proof fn law_path(self, spacing: int, max_x: int, max_y: int)
        requires
            self.inside(max_x, max_y),
            max_x <= MAX_UNITS,
            max_y <= MAX_UNITS,
        ensures
            self.path(spacing).len() >= 1,
            self.path(spacing)[0] == self.p0,
            self.path(spacing).last() == self.p3,
            forall|i: int|
                0 <= i < self.path(spacing).len() ==> (#[trigger] self.path(spacing)[i]).inside(
                    max_x,
                    max_y,
                ),
    {
        self.lemma_ends();
        self.lemma_sampled(spacing, STEPS as nat, max_x, max_y);
        self.lemma_point(STEPS as int, max_x, max_y);
    }
}

fn blended(a: i64, b: i64, c: i64, d: i64, k: i64) -> (v: i64)
    requires
        0 <= k <= STEPS,
        0 <= a <= MAX_UNITS,
        0 <= b <= MAX_UNITS,
        0 <= c <= MAX_UNITS,
        0 <= d <= MAX_UNITS,
    ensures
        v == blend(a as int, b as int, c as int, d as int, k as int),
        0 <= v <= MAX_UNITS,
{
    proof {
        lemma_weights(k as int);
        lemma_blend(a as int, b as int, c as int, d as int, k as int, MAX_UNITS as int);
    }
    let j: i64 = STEPS - k;
    assert(0 <= j * j <= 250_000 && 0 <= j * k <= 250_000 && 0 <= k * k <= 250_000)
        by (nonlinear_arith)
        requires
            0 <= j <= 500,
            0 <= k <= 500,
    ;
    let jj: i64 = j * j;
    let jk: i64 = j * k;
    let kk: i64 = k * k;
    assert(0 <= jj * j <= 125_000_000 && 0 <= jj * k <= 125_000_000 && 0 <= jk * k <= 125_000_000
        && 0 <= kk * k <= 125_000_000) by (nonlinear_arith)
        requires
            0 <= jj <= 250_000,
            0 <= jk <= 250_000,
            0 <= kk <= 250_000,
            0 <= j <= 500,
            0 <= k <= 500,
    ;
    let w0: i64 = jj * j;
    let w1: i64 = 3 * (jj * k);
    let w2: i64 = 3 * (jk * k);
    let w3: i64 = kk * k;
    assert(w0 == weight0(k as int));
    assert(w1 == weight1(k as int));
    assert(w2 == weight2(k as int));
    assert(w3 == weight3(k as int));
    let sum: i64 = w0 * a + w1 * b + w2 * c + w3 * d;
    sum / WEIGHT
}

/// The point of an arc after `k` of the steps.
fn point_at(arc: &Arc, k: i64) -> (p: Pt)
    requires
        0 <= k <= STEPS,
        arc.inside(MAX_UNITS as int, MAX_UNITS as int),
    ensures
        p == arc.point(k as int),
        p.inside(MAX_UNITS as int, MAX_UNITS as int),
{
    proof {
        arc.lemma_point(k as int, MAX_UNITS as int, MAX_UNITS as int);
    }
    Pt {
        x: blended(arc.p0.x, arc.p1.x, arc.p2.x, arc.p3.x, k),
        y: blended(arc.p0.y, arc.p1.y, arc.p2.y, arc.p3.y, k),
    }
}

/// The points of an arc that lie `spacing` apart, and where it ends.
fn compute_cached_points(arc: &Arc, spacing: u64) -> (points: Vec<Pt>)
    requires
        arc.inside(MAX_UNITS as int, MAX_UNITS as int),
    ensures
        points@ == arc.path(spacing as int),
        1 <= points@.len() <= STEPS + 2,
        forall|i: int|
            0 <= i < points@.len() ==> (#[trigger] points@[i]).inside(
                MAX_UNITS as int,
                MAX_UNITS as int,
            ),
{
    let mut prev = point_at(arc, 0);
    let mut points: Vec<Pt> = Vec::new();
    points.push(prev);
    assert(points@ =~= seq![arc.point(0)]);
    let mut length: u64 = 0;
    for k in 0..STEPS
        invariant
            arc.inside(MAX_UNITS as int, MAX_UNITS as int),
            (points@, length as int) == arc.sampled(spacing as int, k as nat),
            prev == arc.point(k as int),
            prev.inside(MAX_UNITS as int, MAX_UNITS as int),
            length <= k * 0x1_0000_0000_0000,
            1 <= points@.len() <= k + 1,
            forall|i: int|
                0 <= i < points@.len() ==> (#[trigger] points@[i]).inside(
                    MAX_UNITS as int,
                    MAX_UNITS as int,
                ),
    {
        let current = point_at(arc, k + 1);
        length = length + apart(prev, current);
        if length >= spacing {
            points.push(current);
            length = 0;
        }
        prev = current;
    }
    let end = point_at(arc, STEPS);
    if points[points.len() - 1] != end {
        points.push(end);
    }
    points
}

/// The length of a path up to its point `i`.
pub open spec fn travelled(points: Seq<Pt>, i: int) -> int
    decreases i,
{
    if i <= 0 {
        0
    } else {
        travelled(points, i - 1) + points[i].dist(points[i - 1])
    }
}

/// The point that a missile at point `from` has passed after `total` units of flight.
pub open spec fn passed(points: Seq<Pt>, from: int, total: int) -> int
    decreases points.len() - from,
{
    if from < points.len() - 1 && travelled(points, from + 1) < total {
        passed(points, from + 1, total)
    } else {
        from
    }
}

/// A path with how far along it a missile is.
pub struct Curve {
    pub points: Vec<Pt>,
    /// The distance of each point from the start, in units.
    pub distances: Vec<u64>,
    pub total_distance: u64,
    pub current_index: usize,
}

impl Curve {
    pub open spec fn wf(&self) -> bool {
        &&& self.points@.len() >= 1
        &&& self.distances@.len() == self.points@.len()
        &&& self.current_index < self.points@.len()
        &&& forall|i: int|
            0 <= i < self.points@.len() ==> #[trigger] self.distances@[i] == travelled(
                self.points@,
                i,
            )
    }

    /// A missile at the start of an arc.
    fn new(arc: &Arc, spacing: u64) -> (curve: Curve)
        requires
            arc.inside(MAX_UNITS as int, MAX_UNITS as int),
        ensures
            curve.wf(),
            curve.points@ == arc.path(spacing as int),
            curve.total_distance == 0,
            curve.current_index == 0,
    {
        let points = compute_cached_points(arc, spacing);
        let mut distances: Vec<u64> = Vec::new();
        let mut at: u64 = 0;
        distances.push(0);
        for i in 1..points.len()
            invariant
                1 <= points@.len() <= STEPS + 2,
                distances@.len() == i,
                at == travelled(points@, i - 1),
                at <= (i - 1) * 0x1_0000_0000_0000,
                forall|j: int|
                    0 <= j < points@.len() ==> (#[trigger] points@[j]).inside(
                        MAX_UNITS as int,
                        MAX_UNITS as int,
                    ),
                forall|j: int| 0 <= j < i ==> #[trigger] distances@[j] == travelled(points@, j),
        {
            let d: u64 = apart(points[i], points[i - 1]);
            at = at + d;
            assert(at == travelled(points@, i as int));
            distances.push(at);
        }
        Curve { points, distances, total_distance: 0, current_index: 0 }
    }

    pub fn all_points(&self) -> (points: &Vec<Pt>)
        ensures
            points@ == self.points@,
    {
        &self.points
    }

    pub fn current_index(&self) -> (at: usize)
        ensures
            at == self.current_index,
    {
        self.current_index
    }

    /// The point that a missile has passed once it has flown on by `distance` units.
    pub fn index_after(&self, distance: u64) -> (index: usize)
        requires
            self.wf(),
        ensures
            index < self.points@.len(),
            index == passed(
                self.points@,
                self.current_index as int,
                if self.total_distance + distance > u64::MAX {
                    u64::MAX as int
                } else {
                    self.total_distance + distance
                },
            ),
    {
        let total: u64 = self.total_distance.saturating_add(distance);
        let mut index: usize = self.current_index;
        while index < self.points.len() - 1 && self.distances[index + 1] < total
            invariant
                self.wf(),
                index < self.points@.len(),
                passed(self.points@, self.current_index as int, total as int) == passed(
                    self.points@,
                    index as int,
                    total as int,
                ),
            decreases self.points@.len() - index,
        {
            index = index + 1;
        }
        index
    }

    /// Flies on by `distance` units. `None` once the end is reached.
    pub fn increment(&mut self, distance: u64) -> (at: Option<Pt>)
        requires
            old(self).wf(),
        ensures
            final(self).wf(),
            final(self).points@ == old(self).points@,
            final(self).total_distance == (if old(self).total_distance + distance > u64::MAX {
                u64::MAX as int
            } else {
                old(self).total_distance + distance
            }),
            final(self).current_index == passed(
                old(self).points@,
                old(self).current_index as int,
                final(self).total_distance as int,
            ),
            at == (if final(self).current_index >= old(self).points@.len() - 1 {
                None
            } else {
                Some(old(self).points@[final(self).current_index as int])
            }),
    {
        let index: usize = self.index_after(distance);
        self.total_distance = self.total_distance.saturating_add(distance);
        self.current_index = index;
        if self.current_index >= self.points.len() - 1 {
            return None;
        }
        Some(self.points[self.current_index])
    }
}

/// `v` moved into the range from 0 to `most`.
pub open spec fn clamped(v: int, most: int) -> int {
    if v < 0 {
        0
    } else if v > most {
        most
    } else {
        v
    }
}

impl MapView {
    /// The point at which a tile lies.
    pub open spec fn point_of(self, t: TileRef) -> Pt {
        Pt { x: (self.x(t) * TILE_UNITS) as i64, y: (self.y(t) * TILE_UNITS) as i64 }
    }

    /// How far the middle of an arc is above the straight line. With `high` this grows with
    /// the distance.
    pub open spec fn rise(self, from: TileRef, to: TileRef, high: bool) -> int {
        let third = self.point_of(from).dist(self.point_of(to)) / 3;
        if !high {
            0
        } else if third > MIN_HEIGHT {
            third
        } else {
            MIN_HEIGHT as int
        }
    }

    /// The height of an inner control point, three quarters of the way from `b` to `a`.
    pub open spec fn bent(self, a: int, b: int, rise: int, up: bool) -> int {
        let level = (3 * a + b) / 4;
        clamped(
            if up {
                level - rise
            } else {
                level + rise
            },
            (self.height - 1) * TILE_UNITS,
        )
    }

    /// Whether a place has a row, though the map may end above it.
    pub open spec fn has_row(self, t: TileRef) -> bool {
        self.y(t) <= 65534
    }

    /// Whether a point is in one of the map's columns.
    pub open spec fn holds_column(self, p: Pt) -> bool {
        p.inside((self.width - 1) * TILE_UNITS, MAX_UNITS as int)
    }

    /// The tile of a point, or the one at the lower edge of the map above it.
    pub open spec fn tile_near(self, p: Pt) -> TileRef {
        self.at(
            p.x as int / (TILE_UNITS as int),
            clamped(p.y as int / (TILE_UNITS as int), self.height - 1),
        )
    }

    /// The arc from one tile to another. It stays on the map if they are on it.
    pub open spec fn arc(self, from: TileRef, to: TileRef, high: bool, up: bool) -> Arc {
        let (a, b) = (self.point_of(from), self.point_of(to));
        let rise = self.rise(from, to, high);
        Arc {
            p0: a,
            p1: Pt {
                x: ((3 * a.x + b.x) / 4) as i64,
                y: self.bent(a.y as int, b.y as int, rise, up) as i64,
            },
            p2: Pt {
                x: ((3 * b.x + a.x) / 4) as i64,
                y: self.bent(b.y as int, a.y as int, rise, up) as i64,
            },
            p3: b,
        }
    }

    /// The tile on which a point lies.
    pub open spec fn tile_of(self, p: Pt) -> TileRef {
        self.at(p.x as int / (TILE_UNITS as int), p.y as int / (TILE_UNITS as int))
    }

    /// Whether a point is on the map.
    pub open spec fn holds_point(self, p: Pt) -> bool {
        p.inside((self.width - 1) * TILE_UNITS, (self.height - 1) * TILE_UNITS)
    }

    /// Maps points to the tiles that they are on.
    pub open spec fn tile_under(self) -> spec_fn(Pt) -> TileRef {
        |p: Pt| self.tile_of(p)
    }

    /// The tiles that a missile passes.
    pub open spec fn flight(
        self,
        from: TileRef,
        to: TileRef,
        speed: int,
        high: bool,
        up: bool,
    ) -> Seq<TileRef> {
        self.arc(from, to, high, up).path(speed * TILE_UNITS).map_values(self.tile_under())
    }

    /// An arc from a tile stays in the columns of the map, and on the map if it ends there.
    pub proof fn lemma_arc(self, from: TileRef, to: TileRef, high: bool, up: bool)
        requires
            self.wf(),
            self.valid(from),
            self.has_row(to),
        ensures
            self.valid(to) ==> self.arc(from, to, high, up).inside(
                (self.width - 1) * TILE_UNITS,
                (self.height - 1) * TILE_UNITS,
            ),
            self.arc(from, to, high, up).inside((self.width - 1) * TILE_UNITS, MAX_UNITS as int),
            (self.width - 1) * TILE_UNITS <= MAX_UNITS,
            (self.height - 1) * TILE_UNITS <= MAX_UNITS,
    {
        self.lemma_xy(from);
        self.lemma_place(to);
        if self.valid(to) {
            self.lemma_xy(to);
        }
    }

    /// A place is in one of the map's columns.
    pub proof fn lemma_place(self, t: TileRef)
        requires
            self.wf(),
        ensures
            0 <= self.x(t) < self.width,
            0 <= self.y(t),
            self.valid(t) ==> self.has_row(t),
    {
        let n = t as int;
        let w = self.width;
        assert(0 <= n % w < w && 0 <= n / w) by (nonlinear_arith)
            requires
                0 <= n,
                w > 0,
        ;
        if self.valid(t) {
            self.lemma_xy(t);
        }
    }

    /// The tile near a point in one of the map's columns is on the map.
    pub proof fn lemma_tile_near(self, p: Pt)
        requires
            self.wf(),
            self.holds_column(p),
        ensures
            self.valid_coord(
                p.x as int / (TILE_UNITS as int),
                clamped(p.y as int / (TILE_UNITS as int), self.height - 1),
            ),
            self.valid(self.tile_near(p)),
            self.holds_point(p) ==> self.tile_near(p) == self.tile_of(p),
    {
        self.lemma_at(
            p.x as int / (TILE_UNITS as int),
            clamped(p.y as int / (TILE_UNITS as int), self.height - 1),
        );
    }

    /// The tile of a point on the map is on the map.
    pub proof fn lemma_tile_of(self, p: Pt)
        requires
            self.wf(),
            self.holds_point(p),
        ensures
            self.valid_coord(p.x as int / (TILE_UNITS as int), p.y as int / (TILE_UNITS as int)),
            self.valid(self.tile_of(p)),
    {
        self.lemma_at(p.x as int / (TILE_UNITS as int), p.y as int / (TILE_UNITS as int));
    }

    /// A missile passes only tiles of the map, begins at its first tile and ends at its
    /// last.
    pub proof fn law_flight(self, from: TileRef, to: TileRef, speed: int, high: bool, up: bool)
        requires
            self.wf(),
            self.valid(from),
            self.valid(to),
        ensures
            self.flight(from, to, speed, high, up).len() >= 1,
            self.flight(from, to, speed, high, up)[0] == from,
            self.flight(from, to, speed, high, up).last() == to,
            forall|i: int|
                0 <= i < self.flight(from, to, speed, high, up).len() ==> self.valid(
                    #[trigger] self.flight(from, to, speed, high, up)[i],
                ),
    {
        let arc = self.arc(from, to, high, up);
        let path = arc.path(speed * TILE_UNITS);
        self.lemma_place(to);
        self.lemma_arc(from, to, high, up);
        arc.law_path(
            speed * TILE_UNITS,
            (self.width - 1) * TILE_UNITS,
            (self.height - 1) * TILE_UNITS,
        );
        self.lemma_xy(from);
        self.lemma_xy(to);
        assert forall|i: int| 0 <= i < path.len() implies self.valid(
            self.tile_of(#[trigger] path[i]),
        ) by {
            self.lemma_tile_of(path[i]);
        }
        let tiles = self.flight(from, to, speed, high, up);
        assert forall|i: int| 0 <= i < tiles.len() implies self.valid(#[trigger] tiles[i]) by {
            assert(tiles[i] == self.tile_of(path[i]));
        }
    }
}

fn bend(map: &GameMap, a: i64, b: i64, rise: i64, up: bool) -> (y: i64)
    requires
        map@.wf(),
        0 <= a <= MAX_UNITS,
        0 <= b <= MAX_UNITS,
        0 <= rise <= 0x1_0000_0000_0000,
    ensures
        y == map@.bent(a as int, b as int, rise as int, up),
{
    let level: i64 = (3 * a + b) / 4;
    let v: i64 = if up {
        level - rise
    } else {
        level + rise
    };
    let most: i64 = (map.height as i64 - 1) * TILE_UNITS;
    if v < 0 {
        0
    } else if v > most {
        most
    } else {
        v
    }
}

/// A missile at the start of its arc from a tile to a place, which may be below the map. With
/// `distance_based_height` the arc is the higher the longer it is.
pub fn create_curve(
    map: &GameMap,
    from: TileRef,
    to: TileRef,
    increment: u32,
    distance_based_height: bool,
    direction_up: bool,
) -> (curve: Curve)
    requires
        map@.wf(),
        map@.valid(from),
        map@.has_row(to),
    ensures
        curve.wf(),
        curve.points@ == map@.arc(from, to, distance_based_height, direction_up).path(
            increment * TILE_UNITS,
        ),
        curve.total_distance == 0,
        curve.current_index == 0,
        forall|i: int|
            0 <= i < curve.points@.len() ==> map@.holds_column(#[trigger] curve.points@[i]) && (
            map@.valid(to) ==> map@.holds_point(curve.points@[i])),
{
    proof {
        map@.lemma_xy(from);
        map@.lemma_place(to);
        map@.lemma_arc(from, to, distance_based_height, direction_up);
    }
    let a = Pt { x: map.x(from) as i64 * TILE_UNITS, y: map.y(from) as i64 * TILE_UNITS };
    let b = Pt {
        x: (to % map.width) as i64 * TILE_UNITS,
        y: (to / map.width) as i64 * TILE_UNITS,
    };
    let third: i64 = apart(a, b) as i64 / 3;
    let rise: i64 = if !distance_based_height {
        0
    } else if third > MIN_HEIGHT {
        third
    } else {
        MIN_HEIGHT
    };
    let arc = Arc {
        p0: a,
        p1: Pt { x: (3 * a.x + b.x) / 4, y: bend(map, a.y, b.y, rise, direction_up) },
        p2: Pt { x: (3 * b.x + a.x) / 4, y: bend(map, b.y, a.y, rise, direction_up) },
        p3: b,
    };
    assert(arc == map@.arc(from, to, distance_based_height, direction_up));
    proof {
        arc.law_path(increment * TILE_UNITS, (map@.width - 1) * TILE_UNITS, MAX_UNITS as int);
        if map@.valid(to) {
            arc.law_path(
                increment * TILE_UNITS,
                (map@.width - 1) * TILE_UNITS,
                (map@.height - 1) * TILE_UNITS,
            );
        }
    }
    Curve::new(&arc, increment as u64 * TILE_UNITS as u64)
}

/// The tile on which a point lies.
pub fn point_to_tile(map: &GameMap, p: Pt) -> (t: TileRef)
    requires
        map@.wf(),
        map@.holds_point(p),
    ensures
        t == map@.tile_of(p),
        map@.valid(t),
{
    proof {
        map@.lemma_tile_of(p);
    }
    map.ref_xy((p.x / TILE_UNITS) as u32, (p.y / TILE_UNITS) as u32)
}

/// The tile of a point, or the one at the lower edge of the map above it.
pub fn nearest_tile(map: &GameMap, p: Pt) -> (t: TileRef)
    requires
        map@.wf(),
        map@.holds_column(p),
    ensures
        t == map@.tile_near(p),
        map@.valid(t),
{
    proof {
        map@.lemma_tile_near(p);
    }
    let row: i64 = p.y / TILE_UNITS;
    let y: u32 = if row > map.height as i64 - 1 {
        map.height - 1
    } else {
        row as u32
    };
    map.ref_xy((p.x / TILE_UNITS) as u32, y)
}

/// The tiles that a missile passes.
pub fn find_path_tiles(
    map: &GameMap,
    from: TileRef,
    to: TileRef,
    increment: u32,
    distance_based_height: bool,
    direction_up: bool,
) -> (tiles: Vec<TileRef>)
    requires
        map@.wf(),
        map@.valid(from),
        map@.valid(to),
    ensures
        tiles@ == map@.flight(from, to, increment as int, distance_based_height, direction_up),
        tiles@.len() >= 1,
        forall|i: int| 0 <= i < tiles@.len() ==> map@.valid(#[trigger] tiles@[i]),
{
    proof {
        map@.lemma_place(to);
    }
    let curve = create_curve(map, from, to, increment, distance_based_height, direction_up);
    let ghost f = map@.tile_under();
    let mut tiles: Vec<TileRef> = Vec::new();
    for i in 0..curve.points.len()
        invariant
            map@.wf(),
            f == map@.tile_under(),
            forall|k: int|
                0 <= k < curve.points@.len() ==> map@.holds_point(#[trigger] curve.points@[k]),
            tiles@ == curve.points@.take(i as int).map_values(f),
            forall|k: int| 0 <= k < tiles@.len() ==> map@.valid(#[trigger] tiles@[k]),
    {
        tiles.push(point_to_tile(map, curve.points[i]));
        assert(curve.points@.take(i + 1).map_values(f) =~= curve.points@.take(
            i as int,
        ).map_values(f).push(f(curve.points@[i as int])));
    }
    proof {
        crate::lists::lemma_take_all(curve.points@);
    }
    tiles
}

} // verus!
