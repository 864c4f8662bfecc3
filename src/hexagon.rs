use vstd::prelude::*;
use vstd::arithmetic::div_mod::lemma_fundamental_div_mod;
use crate::geometry::{Point, COORD_LIMIT, CORNER_LIMIT, in_range, abs, half, half_of};
use crate::terrain::TerrainColor;

verus! {

/// `i` is the inner radius of a hexagon of outer radius `r >= 0`:
/// the floor of `r * sqrt(3) / 2`.
pub open spec fn is_inner_radius(r: int, i: int) -> bool {
    0 <= i && 4 * i * i <= 3 * r * r && 3 * r * r < 4 * (i + 1) * (i + 1)
}

/// Inner radius (center to edge midpoint) for an outer radius `r`,
/// rounded toward zero; negative for a negative `r`.
pub open spec fn inner_radius(r: int) -> int {
    if r >= 0 {
        choose|i: int| #[trigger] is_inner_radius(r, i)
    } else {
        -(choose|i: int| #[trigger] is_inner_radius(-r, i))
    }
}

pub open spec fn pt(x: int, y: int) -> Point {
    Point { x: x as i64, y: y as i64 }
}

/// The six corners of the flat-topped hexagon centered at `(cx, cy)`:
/// top, upper right, lower right, bottom, lower left, upper left.
pub open spec fn hex_corners(cx: int, cy: int, r: int) -> Seq<Point> {
    let i = inner_radius(r);
    let h = half(r);
    seq![
        pt(cx, cy - r),
        pt(cx + i, cy - h),
        pt(cx + i, cy + h),
        pt(cx, cy + r),
        pt(cx - i, cy + h),
        pt(cx - i, cy - h),
    ]
}

/// `(px, py)` lies strictly left of where the line through edge `a -> b`
/// meets height `py` (for an edge that is not horizontal).
pub open spec fn left_of_edge(a: Point, b: Point, px: int, py: int) -> bool {
    if b.y > a.y {
        (px - a.x) * (b.y - a.y) < (b.x - a.x) * (py - a.y)
    } else {
        (px - a.x) * (b.y - a.y) > (b.x - a.x) * (py - a.y)
    }
}

/// A horizontal ray from `(px, py)` toward +x crosses edge `a -> b`,
/// counting an end of the edge as above the ray when its y exceeds `py`.
pub open spec fn edge_hit(a: Point, b: Point, px: int, py: int) -> bool {
    ((a.y > py) != (b.y > py)) && left_of_edge(a, b, px, py)
}

/// Number of the first `k` edges of polygon `c` (edge `j` joins corner `j`
/// to corner `j + 1`, the last wrapping to the first) that the ray crosses.
pub open spec fn crossings(c: Seq<Point>, px: int, py: int, k: nat) -> nat
    decreases k,
{
    if k == 0 {
        0
    } else {
        let j = k - 1;
        crossings(c, px, py, j as nat) + if edge_hit(c[j], c[(k % c.len()) as int], px, py) {
            1nat
        } else {
            0nat
        }
    }
}

/// Even-odd rule: the point is inside when the ray crosses an odd number of edges.
pub open spec fn polygon_contains(c: Seq<Point>, px: int, py: int) -> bool {
    crossings(c, px, py, c.len()) % 2 == 1
}

/// A hexagonal cell: its six corners, a fill color and an optional image,
/// given as an index into an image collection held elsewhere.
#[derive(Debug)]
pub struct Hexagon {
    pub corners: Vec<Point>,
    pub color: TerrainColor,
    pub image: Option<usize>,
}

impl Hexagon {
    /// Six corners, each coordinate within `CORNER_LIMIT`.
    pub open spec fn wf(&self) -> bool {
        &&& self.corners@.len() == 6
        &&& forall|k: int|
            0 <= k < 6 ==> -CORNER_LIMIT <= #[trigger] self.corners@[k].x <= CORNER_LIMIT
                && -CORNER_LIMIT <= self.corners@[k].y <= CORNER_LIMIT
    }

    /// The corners are those of the hexagon with this center and outer radius.
    pub open spec fn built_from(&self, cx: int, cy: int, r: int) -> bool {
        self.corners@ == hex_corners(cx, cy, r)
    }

    pub open spec fn contains_spec(&self, px: int, py: int) -> bool {
        polygon_contains(self.corners@, px, py)
    }

    /// Builds the flat-topped hexagon centered at `(x, y)` with the given
    /// outer radius. A radius of zero or below gives a degenerate or
    /// inverted hexagon; it is not rejected.
    pub fn new(x: i64, y: i64, outer_radius: i64, color: TerrainColor) -> (h: Hexagon)
        requires
            in_range(x as int),
            in_range(y as int),
            in_range(outer_radius as int),
        ensures
            h.built_from(x as int, y as int, outer_radius as int),
            h.wf(),
            h.color == color,
            h.image.is_none(),
    {
        let inner = inner_radius_of(outer_radius);
        let h = half_of(outer_radius);
        let top = y - outer_radius;
        let bottom = y + outer_radius;
        let upper = y - h;
        let lower = y + h;
        let right = x + inner;
        let left = x - inner;
        let corners = vec![
            Point { x: x, y: top },
            Point { x: right, y: upper },
            Point { x: right, y: lower },
            Point { x: x, y: bottom },
            Point { x: left, y: lower },
            Point { x: left, y: upper },
        ];
        let hex = Hexagon { corners, color, image: None };
        assert(hex.corners@ =~= hex_corners(x as int, y as int, outer_radius as int));
        hex
    }

    /// Ray-casting point-in-polygon test of `(x, y)` against the corners.
    pub fn contains(&self, x: i64, y: i64) -> (r: bool)
        requires
            self.wf(),
        ensures
            r == self.contains_spec(x as int, y as int),
    {
        let n = self.corners.len();
        let mut inside = false;
        let mut i: usize = 0;
        while i < n
            invariant
                n == self.corners@.len(),
                self.wf(),
                i <= n,
                inside == (crossings(self.corners@, x as int, y as int, i as nat) % 2 == 1),
            decreases n - i,
        {
            let j = (i + 1) % n;
            let a = self.corners[i];
            let b = self.corners[j];
            let ghost hit = edge_hit(a, b, x as int, y as int);
            if (a.y > y) != (b.y > y) {
                let dx = x as i128 - a.x as i128;
                let dy = y as i128 - a.y as i128;
                let ex = b.x as i128 - a.x as i128;
                let ey = b.y as i128 - a.y as i128;
                proof {
                    lemma_product_bound(dx as int, ey as int);
                    lemma_product_bound(dy as int, ex as int);
                }
                let lhs = dx * ey;
                let rhs = ex * dy;
                let left = if b.y > a.y { lhs < rhs } else { lhs > rhs };
                assert(left == left_of_edge(a, b, x as int, y as int)) by (nonlinear_arith)
                    requires
                        lhs == dx * ey,
                        rhs == ex * dy,
                        dx == x - a.x,
                        dy == y - a.y,
                        ex == b.x - a.x,
                        ey == b.y - a.y,
                        left == if b.y > a.y { lhs < rhs } else { lhs > rhs },
                ;
                if left {
                    inside = !inside;
                }
            }
            assert(crossings(self.corners@, x as int, y as int, (i + 1) as nat)
                == crossings(self.corners@, x as int, y as int, i as nat) + if hit { 1nat } else { 0nat });
            i += 1;
        }
        inside
    }
}

proof fn lemma_product_bound(a: int, b: int)
    requires
        -0x2_0000_0000_0000_0000 <= a <= 0x2_0000_0000_0000_0000,
        -0x2_0000_0000_0000 <= b <= 0x2_0000_0000_0000,
    ensures
        -0x4_0000_0000_0000_0000_0000_0000_0000 <= a * b <= 0x4_0000_0000_0000_0000_0000_0000_0000,
{
    assert(-0x4_0000_0000_0000_0000_0000_0000_0000 <= a * b <= 0x4_0000_0000_0000_0000_0000_0000_0000)
        by (nonlinear_arith)
        requires
            -0x2_0000_0000_0000_0000 <= a <= 0x2_0000_0000_0000_0000,
            -0x2_0000_0000_0000 <= b <= 0x2_0000_0000_0000,
    ;
}

/// Two values that both satisfy `is_inner_radius` for `r` are equal.
proof fn lemma_inner_radius_unique(r: int, i: int, j: int)
    requires
        is_inner_radius(r, i),
        is_inner_radius(r, j),
    ensures
        i == j,
{
    let (lo, hi) = if i <= j { (i, j) } else { (j, i) };
    if lo < hi {
        assert((lo + 1) * (lo + 1) <= hi * hi) by (nonlinear_arith)
            requires
                0 <= lo,
                lo + 1 <= hi,
        ;
        assert(4 * (lo + 1) * (lo + 1) == 4 * ((lo + 1) * (lo + 1))) by (nonlinear_arith);
        assert(4 * hi * hi == 4 * (hi * hi)) by (nonlinear_arith);
    }
}

/// The estimate `m * 866025404 / 10^9` is at least the inner radius of `m`
/// and at most `m`.
proof fn lemma_inner_estimate(m: int, e: int)
    requires
        0 <= m,
        e == m * 866025404 / 1000000000,
    ensures
        0 <= e <= m,
        3 * m * m < 4 * (e + 1) * (e + 1),
{
    lemma_fundamental_div_mod(m * 866025404, 1000000000);
    let rem = (m * 866025404) % 1000000000;
    assert(0 <= rem < 1000000000);
    assert(0 <= e <= m) by (nonlinear_arith)
        requires
            0 <= m,
            m * 866025404 == 1000000000 * e + rem,
            0 <= rem < 1000000000,
    ;
    let a = (e + 1) * 1000000000;
    let b = m * 866025404;
    assert(a > b);
    assert(a * a > b * b) by (nonlinear_arith)
        requires
            a > b,
            b >= 0,
    ;
    assert(3 * m * m < 4 * (e + 1) * (e + 1)) by (nonlinear_arith)
        requires
            a == (e + 1) * 1000000000,
            b == m * 866025404,
            a * a > b * b,
            m >= 0,
    ;
}

/// The inner radius of `r`: floor of `|r| * sqrt(3) / 2`, with the sign of `r`.
pub fn inner_radius_of(r: i64) -> (i: i64)
    requires
        in_range(r as int),
    ensures
        i == inner_radius(r as int),
        abs(i as int) <= abs(r as int),
{
    let m: i64 = if r >= 0 { r } else { -r };
    let mm = m as i128;
    let mut e: i128 = mm * 866025404 / 1000000000;
    proof {
        lemma_inner_estimate(mm as int, e as int);
        assert(e * e <= mm * mm) by (nonlinear_arith)
            requires
                0 <= e <= mm,
        ;
        assert(mm * mm <= COORD_LIMIT * COORD_LIMIT) by (nonlinear_arith)
            requires
                0 <= mm <= COORD_LIMIT,
        ;
    }
    let m2: i128 = mm * mm;
    let mut e2: i128 = e * e;
    assert(3 * m2 < 4 * ((e + 1) * (e + 1))) by (nonlinear_arith)
        requires
            m2 == mm * mm,
            3 * mm * mm < 4 * (e + 1) * (e + 1),
    ;
    assert(0 <= e2) by (nonlinear_arith)
        requires
            e2 == e * e,
    ;
    while 4 * e2 > 3 * m2
        invariant
            0 <= mm <= COORD_LIMIT,
            m2 == mm * mm,
            m2 <= COORD_LIMIT * COORD_LIMIT,
            0 <= e <= mm,
            e2 == e * e,
            0 <= e2 <= m2,
            3 * m2 < 4 * ((e + 1) * (e + 1)),
        decreases e,
    {
        assert(e != 0) by (nonlinear_arith)
            requires
                e2 == e * e,
                4 * e2 > 3 * m2,
                0 <= m2,
        ;
        assert((e - 1) * (e - 1) == e * e - 2 * e + 1) by (nonlinear_arith);
        e2 = e2 - 2 * e + 1;
        e = e - 1;
    }
    assert(is_inner_radius(mm as int, e as int)) by (nonlinear_arith)
        requires
            e2 == e * e,
            m2 == mm * mm,
            4 * e2 <= 3 * m2,
            3 * m2 < 4 * ((e + 1) * (e + 1)),
            0 <= e,
    ;
    let i = e as i64;
    proof {
        let mi = m as int;
        assert(is_inner_radius(mi, i as int));
        let c = choose|k: int| #[trigger] is_inner_radius(mi, k);
        lemma_inner_radius_unique(mi, i as int, c);
        if r < 0 {
            assert(-(r as int) == mi);
        }
    }
    if r >= 0 {
        i
    } else {
        -i
    }
}

/// Descends from an over-estimate `e` to the inner radius of `r`.
proof fn lemma_inner_radius_exists_from(r: int, e: int)
    requires
        0 <= r,
        0 <= e,
        3 * r * r < 4 * (e + 1) * (e + 1),
    ensures
        exists|i: int| #[trigger] is_inner_radius(r, i),
    decreases e,
{
    if 4 * e * e <= 3 * r * r {
        assert(is_inner_radius(r, e));
    } else {
        assert(e != 0) by (nonlinear_arith)
            requires
                4 * e * e > 3 * r * r,
        ;
        assert(4 * (e - 1 + 1) * (e - 1 + 1) == 4 * e * e);
        lemma_inner_radius_exists_from(r, e - 1);
    }
}

/// What the inner radius of a non-negative `r` satisfies.
pub proof fn lemma_inner_radius(r: int)
    requires
        0 <= r,
    ensures
        is_inner_radius(r, inner_radius(r)),
        0 <= inner_radius(r) <= r,
        inner_radius(r) * inner_radius(r) + half(r) * half(r) <= r * r,
{
    lemma_inner_estimate(r, r * 866025404 / 1000000000);
    lemma_inner_radius_exists_from(r, r * 866025404 / 1000000000);
    let i = inner_radius(r);
    let h = half(r);
    assert(0 <= i <= r && i * i + h * h <= r * r) by (nonlinear_arith)
        requires
            0 <= i,
            4 * i * i <= 3 * r * r,
            0 <= h,
            2 * h <= r,
            0 <= r,
    ;
}

/// The corners of `hex_corners`, coordinate by coordinate.
proof fn lemma_hex_corner_values(cx: int, cy: int, r: int)
    requires
        in_range(cx),
        in_range(cy),
        0 <= r <= COORD_LIMIT,
    ensures
        ({
            let c = hex_corners(cx, cy, r);
            let i = inner_radius(r);
            let h = half(r);
            &&& c.len() == 6
            &&& c[0].x == cx && c[0].y == cy - r
            &&& c[1].x == cx + i && c[1].y == cy - h
            &&& c[2].x == cx + i && c[2].y == cy + h
            &&& c[3].x == cx && c[3].y == cy + r
            &&& c[4].x == cx - i && c[4].y == cy + h
            &&& c[5].x == cx - i && c[5].y == cy - h
        }),
{
    lemma_inner_radius(r);
}

/// Crossing count of a six-corner polygon, edge by edge.
proof fn lemma_crossings_six(c: Seq<Point>, px: int, py: int)
    requires
        c.len() == 6,
    ensures
        crossings(c, px, py, 6) == (if edge_hit(c[0], c[1], px, py) { 1int } else { 0int }) + (if edge_hit(c[1], c[2], px, py) { 1int } else { 0int })
            + (if edge_hit(c[2], c[3], px, py) { 1int } else { 0int }) + (if edge_hit(c[3], c[4], px, py) { 1int } else { 0int })
            + (if edge_hit(c[4], c[5], px, py) { 1int } else { 0int }) + (if edge_hit(c[5], c[0], px, py) { 1int } else { 0int }),
{
    reveal_with_fuel(crossings, 7);
    assert(6int % 6 == 0);
}

/// The center of a hexagon whose outer radius is at least two units lies
/// inside it. (With a radius of one unit the inner radius rounds to zero
/// and the hexagon has no interior.)
pub proof fn lemma_center_inside(cx: int, cy: int, r: int)
    requires
        in_range(cx),
        in_range(cy),
        2 <= r <= COORD_LIMIT,
    ensures
        polygon_contains(hex_corners(cx, cy, r), cx, cy),
{
    let c = hex_corners(cx, cy, r);
    let i = inner_radius(r);
    let h = half(r);
    lemma_inner_radius(r);
    lemma_hex_corner_values(cx, cy, r);
    lemma_crossings_six(c, cx, cy);
    assert(i >= 1) by (nonlinear_arith)
        requires
            3 * r * r < 4 * (i + 1) * (i + 1),
            r >= 2,
            i >= 0,
    ;
    assert(h >= 1);
    assert(edge_hit(c[1], c[2], cx, cy)) by {
        assert((cx - (cx + i)) * ((cy + h) - (cy - h)) < ((cx + i) - (cx + i)) * (cy - (cy - h)))
            by (nonlinear_arith)
            requires
                i >= 1,
                h >= 1,
        ;
    }
    assert(!edge_hit(c[4], c[5], cx, cy)) by {
        assert(!((cx - (cx - i)) * ((cy - h) - (cy + h)) > ((cx - i) - (cx - i)) * (cy - (cy + h))))
            by (nonlinear_arith)
            requires
                i >= 1,
                h >= 1,
        ;
    }
}

/// A point `w >= 0` to the right of the axis, on or left of a slanted edge
/// whose ends lie within distance `r` of the center, is itself within `r`.
proof fn lemma_slant_within(r: int, h: int, i: int, s: int, w: int)
    requires
        r - h >= 1,
        0 <= s <= r - h,
        0 <= i,
        0 <= h,
        i * i + h * h <= r * r,
        0 <= w,
        w * (r - h) <= i * s,
    ensures
        w * w + (r - s) * (r - s) <= r * r,
{
    let k = r - h;
    assert(w * w * (k * k) <= i * i * (s * s)) by (nonlinear_arith)
        requires
            0 <= w,
            0 <= k,
            0 <= s,
            0 <= i,
            w * k <= i * s,
    ;
    assert(i * i + k * k <= 2 * r * k) by (nonlinear_arith)
        requires
            i * i + h * h <= r * r,
            k == r - h,
    ;
    assert(s * (i * i + k * k) <= 2 * r * (k * k)) by (nonlinear_arith)
        requires
            0 <= s <= k,
            i * i + k * k <= 2 * r * k,
            0 <= i * i + k * k,
            0 <= r,
    ;
    assert((w * w + (r - s) * (r - s)) * (k * k) <= r * r * (k * k)) by (nonlinear_arith)
        requires
            w * w * (k * k) <= i * i * (s * s),
            s * (i * i + k * k) <= 2 * r * (k * k),
            0 <= s,
    ;
    assert(w * w + (r - s) * (r - s) <= r * r) by (nonlinear_arith)
        requires
            (w * w + (r - s) * (r - s)) * (k * k) <= r * r * (k * k),
            k >= 1,
    ;
}

/// A point farther than the outer radius from the center is not inside
/// the hexagon.
pub proof fn lemma_far_point_outside(cx: int, cy: int, r: int, px: int, py: int)
    requires
        in_range(cx),
        in_range(cy),
        1 <= r <= COORD_LIMIT,
        (px - cx) * (px - cx) + (py - cy) * (py - cy) > r * r,
    ensures
        !polygon_contains(hex_corners(cx, cy, r), px, py),
{
    let c = hex_corners(cx, cy, r);
    let i = inner_radius(r);
    let h = half(r);
    let u = px - cx;
    let v = py - cy;
    lemma_inner_radius(r);
    lemma_hex_corner_values(cx, cy, r);
    lemma_crossings_six(c, px, py);
    assert(r - h >= 1);
    if v < -r || v >= r {
        assert(!edge_hit(c[0], c[1], px, py));
        assert(!edge_hit(c[1], c[2], px, py));
        assert(!edge_hit(c[2], c[3], px, py));
        assert(!edge_hit(c[3], c[4], px, py));
        assert(!edge_hit(c[4], c[5], px, py));
        assert(!edge_hit(c[5], c[0], px, py));
    } else if v < -h {
        let s = v + r;
        assert(left_of_edge(c[0], c[1], px, py) == (u * (r - h) < i * s)) by (nonlinear_arith)
            requires
                c[0].x == cx, c[0].y == cy - r, c[1].x == cx + i, c[1].y == cy - h,
                u == px - cx, s == py - cy + r, r - h >= 1,
        ;
        assert(left_of_edge(c[5], c[0], px, py) == ((-u) * (r - h) > i * s)) by (nonlinear_arith)
            requires
                c[0].x == cx, c[0].y == cy - r, c[5].x == cx - i, c[5].y == cy - h,
                u == px - cx, s == py - cy + r, r - h >= 1,
        ;
        lemma_slant_pair(r, h, i, s, u, v);
        assert(!edge_hit(c[1], c[2], px, py));
        assert(!edge_hit(c[2], c[3], px, py));
        assert(!edge_hit(c[3], c[4], px, py));
        assert(!edge_hit(c[4], c[5], px, py));
    } else if v < h {
        assert(left_of_edge(c[1], c[2], px, py) == (u < i)) by (nonlinear_arith)
            requires
                c[1].x == cx + i, c[1].y == cy - h, c[2].x == cx + i, c[2].y == cy + h,
                u == px - cx, h >= 1,
        ;
        assert(left_of_edge(c[4], c[5], px, py) == (u < -i)) by (nonlinear_arith)
            requires
                c[4].x == cx - i, c[4].y == cy + h, c[5].x == cx - i, c[5].y == cy - h,
                u == px - cx, h >= 1,
        ;
        assert((u < i) == (u < -i)) by (nonlinear_arith)
            requires
                u * u + v * v > r * r,
                i * i + h * h <= r * r,
                -h <= v < h,
                0 <= i,
        ;
        assert(!edge_hit(c[0], c[1], px, py));
        assert(!edge_hit(c[2], c[3], px, py));
        assert(!edge_hit(c[3], c[4], px, py));
        assert(!edge_hit(c[5], c[0], px, py));
    } else {
        let s = r - v;
        assert(left_of_edge(c[2], c[3], px, py) == (u * (r - h) < i * s)) by (nonlinear_arith)
            requires
                c[2].x == cx + i, c[2].y == cy + h, c[3].x == cx, c[3].y == cy + r,
                u == px - cx, s == r - (py - cy), r - h >= 1,
        ;
        assert(left_of_edge(c[3], c[4], px, py) == ((-u) * (r - h) > i * s)) by (nonlinear_arith)
            requires
                c[3].x == cx, c[3].y == cy + r, c[4].x == cx - i, c[4].y == cy + h,
                u == px - cx, s == r - (py - cy), r - h >= 1,
        ;
        assert((-v) * (-v) == v * v) by (nonlinear_arith);
        lemma_slant_pair(r, h, i, s, u, -v);
        assert(!edge_hit(c[0], c[1], px, py));
        assert(!edge_hit(c[1], c[2], px, py));
        assert(!edge_hit(c[4], c[5], px, py));
        assert(!edge_hit(c[5], c[0], px, py));
    }
}

/// For a far point at height `v = s - r` beside a pair of mirrored slanted
/// edges, the point is left of both edges or of neither.
proof fn lemma_slant_pair(r: int, h: int, i: int, s: int, u: int, v: int)
    requires
        r - h >= 1,
        0 <= s <= r - h,
        v == s - r,
        0 <= i,
        0 <= h,
        i * i + h * h <= r * r,
        u * u + v * v > r * r,
    ensures
        (u * (r - h) < i * s) == ((-u) * (r - h) > i * s),
{
    assert(0 <= i * s) by (nonlinear_arith)
        requires
            0 <= i,
            0 <= s,
    ;
    assert((r - s) * (r - s) == v * v) by (nonlinear_arith)
        requires
            v == s - r,
    ;
    if u >= 0 {
        if u * (r - h) < i * s {
            lemma_slant_within(r, h, i, s, u);
        }
        assert(!((-u) * (r - h) > i * s)) by (nonlinear_arith)
            requires
                u >= 0,
                r - h >= 1,
                0 <= i * s,
        ;
    } else {
        assert(u * (r - h) < i * s) by (nonlinear_arith)
            requires
                u < 0,
                r - h >= 1,
                0 <= i * s,
        ;
        if !((-u) * (r - h) > i * s) {
            lemma_slant_within(r, h, i, s, -u);
            assert((-u) * (-u) == u * u) by (nonlinear_arith);
        }
    }
}

/// Two hexagons built from the same center and outer radius agree on every
/// point, whatever their colors.
pub proof fn lemma_contains_deterministic(a: &Hexagon, b: &Hexagon, cx: int, cy: int, r: int, px: int, py: int)
    requires
        a.built_from(cx, cy, r),
        b.built_from(cx, cy, r),
    ensures
        a.contains_spec(px, py) == b.contains_spec(px, py),
{
}

} // verus!
