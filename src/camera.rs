use vstd::prelude::*;
use vstd::arithmetic::div_mod::lemma_fundamental_div_mod_converse_div;
use crate::geometry::{Point, COORD_LIMIT, in_range};

verus! {

/// Zoom is kept in tenths: `ZOOM_ONE` is a scale of 1.0.
pub const ZOOM_ONE: u32 = 10;

/// Smallest zoom, in tenths (0.4).
pub const ZOOM_MIN: u32 = 4;

/// Largest zoom, in tenths (2.0).
pub const ZOOM_MAX: u32 = 20;

/// Inertial velocity keeps this many hundredths of itself per update.
pub const FRICTION_PERCENT: i64 = 61;

/// Inertial panning stops once the mean of the velocity's two components
/// is no more than this many units per update.
pub const INERTIA_THRESHOLD: i64 = 100;

pub open spec fn clamp_coord(v: int) -> int {
    if v < -COORD_LIMIT {
        -COORD_LIMIT as int
    } else if v > COORD_LIMIT {
        COORD_LIMIT as int
    } else {
        v
    }
}

pub open spec fn clamp_zoom(z: int) -> int {
    if z < ZOOM_MIN {
        ZOOM_MIN as int
    } else if z > ZOOM_MAX {
        ZOOM_MAX as int
    } else {
        z
    }
}

/// The zoom after one scroll tick: the sign of `dy` alone decides the step.
pub open spec fn zoom_after_scroll(zoom: int, dy: int) -> int {
    if dy > 0 {
        clamp_zoom(zoom + 1)
    } else if dy < 0 {
        clamp_zoom(zoom - 1)
    } else {
        zoom
    }
}

/// `v * FRICTION_PERCENT / 100`, rounded toward zero.
pub open spec fn with_friction(v: int) -> int {
    if v >= 0 {
        v * FRICTION_PERCENT / 100
    } else {
        -((-v) * FRICTION_PERCENT / 100)
    }
}

/// The grid x coordinate (times `zoom`, over ten) that screen x `sx` maps to.
pub open spec fn grid_x_of(offset_x: int, zoom: int, sx: int) -> int {
    (10 * (sx - offset_x)) / zoom
}

/// The grid y coordinate that screen y `sy` maps to: the vertical scale is
/// half the zoom (a foreshortening of 0.5), so zoom tenths over twenty.
pub open spec fn grid_y_of(offset_y: int, zoom: int, sy: int) -> int {
    (20 * (sy - offset_y)) / zoom
}

/// Ten times the screen x at which the draw transform places grid x `gx`.
pub open spec fn screen_x_tenfold(offset_x: int, zoom: int, gx: int) -> int {
    10 * offset_x + gx * zoom
}

/// Twenty times the screen y at which the draw transform places grid y `gy`.
pub open spec fn screen_y_twentyfold(offset_y: int, zoom: int, gy: int) -> int {
    20 * offset_y + gy * zoom
}

/// The affine transform under which the grid is drawn: translation by
/// `dest`, then a scale of `zoom / 10` across and `zoom / 20` down.
#[derive(Clone, Copy, Debug, PartialEq, Eq)]
pub struct DrawTransform {
    pub dest: Point,
    pub zoom: u32,
}

/// Pan and zoom state of the view.
#[derive(Clone, Copy, Debug)]
pub struct Camera {
    pub offset: Point,
    /// Zoom in tenths, within `ZOOM_MIN..=ZOOM_MAX`.
    pub zoom: u32,
    pub dragging: bool,
    pub last_pointer: Point,
    pub velocity: Point,
    /// Whether `update` carries the view on after a drag.
    pub inertia: bool,
}

pub open spec fn point_in_range(p: Point) -> bool {
    in_range(p.x as int) && in_range(p.y as int)
}

/// `after` is `before` once the pointer has moved to `(x, y)`: while
/// dragging, the offset and the velocity grow by the pointer's movement (held
/// within the coordinate range) and the pointer position is recorded;
/// otherwise nothing changes.
pub open spec fn dragged(before: Camera, after: Camera, x: int, y: int) -> bool {
    if before.dragging {
        let dx = x - before.last_pointer.x;
        let dy = y - before.last_pointer.y;
        &&& after.offset.x == clamp_coord(before.offset.x + dx)
        &&& after.offset.y == clamp_coord(before.offset.y + dy)
        &&& after.velocity.x == clamp_coord(before.velocity.x + dx)
        &&& after.velocity.y == clamp_coord(before.velocity.y + dy)
        &&& after.last_pointer.x == x
        &&& after.last_pointer.y == y
        &&& after.zoom == before.zoom
        &&& after.dragging
        &&& after.inertia == before.inertia
    } else {
        after == before
    }
}

/// `after` is `before` advanced by one frame: with inertia on and no drag
/// under way, the view moves by the velocity and the velocity slows by
/// friction while the mean of its components exceeds the threshold, and
/// stops otherwise. With inertia off, or while dragging, nothing changes.
pub open spec fn updated(before: Camera, after: Camera) -> bool {
    if before.inertia && !before.dragging {
        let v = before.velocity;
        &&& if v.x + v.y > 2 * INERTIA_THRESHOLD {
            &&& after.offset.x == clamp_coord(before.offset.x + v.x)
            &&& after.offset.y == clamp_coord(before.offset.y + v.y)
            &&& after.velocity.x == with_friction(v.x as int)
            &&& after.velocity.y == with_friction(v.y as int)
        } else {
            &&& after.offset == before.offset
            &&& after.velocity == (Point { x: 0, y: 0 })
        }
        &&& after.zoom == before.zoom
        &&& after.dragging == before.dragging
        &&& after.inertia == before.inertia
        &&& after.last_pointer == before.last_pointer
    } else {
        after == before
    }
}

/// No offset, a zoom of 1.0, not dragging, no velocity, no inertia.
pub open spec fn initial_camera() -> Camera {
    Camera {
        offset: Point { x: 0, y: 0 },
        zoom: ZOOM_ONE,
        dragging: false,
        last_pointer: Point { x: 0, y: 0 },
        velocity: Point { x: 0, y: 0 },
        inertia: false,
    }
}

impl Camera {
    pub open spec fn wf(&self) -> bool {
        &&& point_in_range(self.offset)
        &&& point_in_range(self.last_pointer)
        &&& point_in_range(self.velocity)
        &&& ZOOM_MIN <= self.zoom <= ZOOM_MAX
    }

    /// The view at start-up.
    pub fn new() -> (c: Camera)
        ensures
            c.wf(),
            c == initial_camera(),
    {
        Camera {
            offset: Point { x: 0, y: 0 },
            zoom: ZOOM_ONE,
            dragging: false,
            last_pointer: Point { x: 0, y: 0 },
            velocity: Point { x: 0, y: 0 },
            inertia: false,
        }
    }

    /// Starts a drag at screen point `(x, y)` and zeroes the velocity.
    pub fn begin_drag(&mut self, x: i64, y: i64)
        requires
            old(self).wf(),
            in_range(x as int),
            in_range(y as int),
        ensures
            final(self).wf(),
            *final(self) == (Camera {
                dragging: true,
                last_pointer: Point { x, y },
                velocity: Point { x: 0, y: 0 },
                ..*old(self)
            }),
    {
        self.dragging = true;
        self.last_pointer = Point { x, y };
        self.velocity = Point { x: 0, y: 0 };
    }

    /// Ends a drag.
    pub fn end_drag(&mut self)
        requires
            old(self).wf(),
        ensures
            final(self).wf(),
            *final(self) == (Camera { dragging: false, ..*old(self) }),
    {
        self.dragging = false;
    }

    /// Moves the pointer to `(x, y)`, panning while a drag is under way.
    pub fn drag_to(&mut self, x: i64, y: i64)
        requires
            old(self).wf(),
            in_range(x as int),
            in_range(y as int),
        ensures
            final(self).wf(),
            dragged(*old(self), *final(self), x as int, y as int),
    {
        if self.dragging {
            let dx = x - self.last_pointer.x;
            let dy = y - self.last_pointer.y;
            self.velocity = Point {
                x: clamp_to_range(self.velocity.x + dx),
                y: clamp_to_range(self.velocity.y + dy),
            };
            self.offset = Point {
                x: clamp_to_range(self.offset.x + dx),
                y: clamp_to_range(self.offset.y + dy),
            };
            self.last_pointer = Point { x, y };
        }
    }

    /// One scroll tick: zooms in by a tenth for `dy > 0`, out for `dy < 0`,
    /// kept within `ZOOM_MIN..=ZOOM_MAX`; only the sign of `dy` counts.
    pub fn scroll(&mut self, dy: i64)
        requires
            old(self).wf(),
        ensures
            final(self).wf(),
            final(self).zoom == zoom_after_scroll(old(self).zoom as int, dy as int),
            *final(self) == (Camera { zoom: final(self).zoom, ..*old(self) }),
    {
        let mut z = self.zoom;
        if dy > 0 {
            z = z + 1;
        } else if dy < 0 {
            z = z - 1;
        }
        if z < ZOOM_MIN {
            z = ZOOM_MIN;
        } else if z > ZOOM_MAX {
            z = ZOOM_MAX;
        }
        self.zoom = z;
    }

    /// The grid point under screen point `(x, y)`: the inverse of the draw
    /// transform, each coordinate rounded down to a whole unit.
    pub fn screen_to_grid(&self, x: i64, y: i64) -> (g: Point)
        requires
            self.wf(),
            in_range(x as int),
            in_range(y as int),
        ensures
            g.x == grid_x_of(self.offset.x as int, self.zoom as int, x as int),
            g.y == grid_y_of(self.offset.y as int, self.zoom as int, y as int),
    {
        let z = self.zoom as i64;
        let gx = floor_div(10 * (x - self.offset.x), z);
        let gy = floor_div(20 * (y - self.offset.y), z);
        Point { x: gx, y: gy }
    }

    /// The transform under which the grid is drawn.
    pub fn draw_transform(&self) -> (t: DrawTransform)
        ensures
            t == (DrawTransform { dest: self.offset, zoom: self.zoom }),
    {
        DrawTransform { dest: self.offset, zoom: self.zoom }
    }

    /// Advances the view by one frame: inertial panning, when switched on.
    pub fn update(&mut self)
        requires
            old(self).wf(),
        ensures
            final(self).wf(),
            updated(*old(self), *final(self)),
    {
        if self.inertia && !self.dragging {
            let v = self.velocity;
            if v.x + v.y > 2 * INERTIA_THRESHOLD {
                self.offset = Point {
                    x: clamp_to_range(self.offset.x + v.x),
                    y: clamp_to_range(self.offset.y + v.y),
                };
                self.velocity = Point { x: friction_of(v.x), y: friction_of(v.y) };
            } else {
                self.velocity = Point { x: 0, y: 0 };
            }
        }
    }
}

/// `v` held within the coordinate range.
pub fn clamp_to_range(v: i64) -> (c: i64)
    ensures
        c == clamp_coord(v as int),
{
    if v < -COORD_LIMIT {
        -COORD_LIMIT
    } else if v > COORD_LIMIT {
        COORD_LIMIT
    } else {
        v
    }
}

/// `v` slowed by friction, rounded toward zero.
pub fn friction_of(v: i64) -> (f: i64)
    requires
        in_range(v as int),
    ensures
        f == with_friction(v as int),
        in_range(f as int),
{
    if v >= 0 {
        v * FRICTION_PERCENT / 100
    } else {
        -((-v) * FRICTION_PERCENT / 100)
    }
}

/// `n / d` rounded down.
pub fn floor_div(n: i64, d: i64) -> (q: i64)
    requires
        d > 0,
        n > i64::MIN,
    ensures
        q == n as int / d as int,
{
    if n >= 0 {
        n / d
    } else {
        let m = -n;
        let q = (m - 1) / d;
        proof {
            let r = (m - 1) as int % d as int;
            assert(m - 1 == q * d + r) by {
                vstd::arithmetic::div_mod::lemma_fundamental_div_mod((m - 1) as int, d as int);
                vstd::arithmetic::mul::lemma_mul_is_commutative(q as int, d as int);
            }
            assert(n == (-q - 1) * d + (d - 1 - r)) by (nonlinear_arith)
                requires
                    m - 1 == q * d + r,
                    n == -m,
            ;
            lemma_fundamental_div_mod_converse_div(n as int, d as int, -q - 1, d - 1 - r);
        }
        -q - 1
    }
}

/// The forward transform takes the grid point of a screen point back to
/// that screen point, short of it by less than one zoom step: at most two
/// units across and one down.
pub proof fn lemma_screen_grid_round_trip(offset: Point, zoom: int, sx: int, sy: int)
    requires
        ZOOM_MIN <= zoom <= ZOOM_MAX,
    ensures
        0 <= 10 * sx - screen_x_tenfold(offset.x as int, zoom, grid_x_of(offset.x as int, zoom, sx)) < zoom,
        0 <= 20 * sy - screen_y_twentyfold(offset.y as int, zoom, grid_y_of(offset.y as int, zoom, sy)) < zoom,
{
    let nx = 10 * (sx - offset.x);
    let ny = 20 * (sy - offset.y);
    vstd::arithmetic::div_mod::lemma_fundamental_div_mod(nx, zoom);
    vstd::arithmetic::div_mod::lemma_fundamental_div_mod(ny, zoom);
    vstd::arithmetic::mul::lemma_mul_is_commutative(zoom, nx / zoom);
    vstd::arithmetic::mul::lemma_mul_is_commutative(zoom, ny / zoom);
}

} // verus!
