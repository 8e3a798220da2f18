use vstd::prelude::*;
use crate::constants::{COORD_LIMIT, HEADING_SCALE, MAX_DT, MAX_SPEED, SHOOTING_ERROR, STEP_DIVISOR};

verus! {

/// A point or a displacement, in length units.
#[derive(Clone, Copy, Debug, PartialEq, Eq, Structural)]
pub struct Vector {
    /// X component
    pub x: i64,
    /// Y component
    pub y: i64,
}

/// The playing field `[0, width] x [0, height]`, in length units.
#[derive(Clone, Copy, Debug, PartialEq, Eq, Structural)]
pub struct Field {
    pub width: i64,
    pub height: i64,
}

/// Two to the power 100: the bound under which square roots are taken.
pub const ROOT_DOMAIN: u128 = 0x10_0000_0000_0000_0000_0000_0000;

pub open spec fn coord_ok(c: int) -> bool {
    -COORD_LIMIT <= c <= COORD_LIMIT
}

/// `c` saturated to the range of coordinates.
pub open spec fn clamp_coord(c: int) -> int {
    if c < -COORD_LIMIT {
        -COORD_LIMIT as int
    } else if c > COORD_LIMIT {
        COORD_LIMIT as int
    } else {
        c
    }
}

/// Division rounding toward zero, as integer division does on machine integers.
pub open spec fn trunc_div(a: int, d: int) -> int {
    if a >= 0 {
        a / d
    } else {
        -((-a) / d)
    }
}

pub open spec fn is_root(n: int, r: int) -> bool {
    0 <= r && r * r <= n && n < (r + 1) * (r + 1)
}

/// The integer part of the square root of `n`.
pub open spec fn floor_sqrt(n: int) -> int {
    choose|r: int| is_root(n, r)
}

/// Square of the Euclidean distance between two points.
pub open spec fn dist_sq(a: Vector, b: Vector) -> int {
    (a.x - b.x) * (a.x - b.x) + (a.y - b.y) * (a.y - b.y)
}

/// The part of a tick of `dt` microseconds that counts: a tick longer than
/// `MAX_DT` moves things as far as one of `MAX_DT`.
pub open spec fn capped(dt: int) -> int {
    if dt > MAX_DT {
        MAX_DT as int
    } else {
        dt
    }
}

/// Displacement along one axis of something moving at `speed` pixels per second
/// for `dt` microseconds (capped), along heading component `h`.
pub open spec fn axis_step(speed: int, dt: int, h: int) -> int {
    trunc_div(speed * capped(dt) * h, STEP_DIVISOR as int)
}

/// The unit heading (scaled by `HEADING_SCALE`) of the displacement `(dx, dy)`.
pub open spec fn toward(dx: int, dy: int) -> Vector {
    let len = floor_sqrt(dx * dx + dy * dy);
    Vector {
        x: trunc_div(dx * HEADING_SCALE, len) as i64,
        y: trunc_div(dy * HEADING_SCALE, len) as i64,
    }
}

/// The heading `h` turned by the angle whose sine, scaled by `HEADING_SCALE`, is `s`.
pub open spec fn rotated(h: Vector, s: int) -> Vector {
    let c = floor_sqrt(HEADING_SCALE * HEADING_SCALE - s * s);
    Vector {
        x: trunc_div(c * h.x - s * h.y, HEADING_SCALE as int) as i64,
        y: trunc_div(s * h.x + c * h.y, HEADING_SCALE as int) as i64,
    }
}

impl Field {
    pub open spec fn wf(self) -> bool {
        0 <= self.width <= COORD_LIMIT && 0 <= self.height <= COORD_LIMIT
    }

    pub open spec fn contains(self, p: Vector) -> bool {
        0 <= p.x <= self.width && 0 <= p.y <= self.height
    }

    /// Returns a field
    pub fn new(width: i64, height: i64) -> (f: Field)
        ensures
            f.width == width,
            f.height == height,
    {
        Field { width, height }
    }
}

impl Vector {
    /// Both coordinates within the coordinate range.
    pub open spec fn valid(self) -> bool {
        coord_ok(self.x as int) && coord_ok(self.y as int)
    }

    /// Components bounded as those of a unit heading.
    pub open spec fn is_heading(self) -> bool {
        -HEADING_SCALE <= self.x <= HEADING_SCALE && -HEADING_SCALE <= self.y <= HEADING_SCALE
    }

    /// Components bounded as those of a projectile velocity (a heading that
    /// may have been turned).
    pub open spec fn is_velocity(self) -> bool {
        -2 * HEADING_SCALE <= self.x <= 2 * HEADING_SCALE && -2 * HEADING_SCALE <= self.y <= 2
            * HEADING_SCALE
    }

    /// Returns a vector
    pub fn new(x: i64, y: i64) -> (v: Vector)
        ensures
            v.x == x,
            v.y == y,
    {
        Vector { x, y }
    }

    /// Resets the x and y components to 0
    pub fn reset(&mut self)
        ensures
            final(self).x == 0,
            final(self).y == 0,
    {
        self.x = 0;
        self.y = 0;
    }

    /// Returns the distance between two vectors, rounded down
    pub fn dist(&self, other: &Vector) -> (r: u64)
        requires
            self.valid(),
            other.valid(),
        ensures
            r == floor_sqrt(dist_sq(*self, *other)),
    {
        let n = dist_sq_exec(self, other);
        let r = isqrt(n);
        proof {
            lemma_root_below(n as int, r as int, 8_000_000_000_000_000_000_000_000);
        }
        r as u64
    }
}

pub proof fn lemma_floor_sqrt_unique(n: int, r: int)
    requires
        is_root(n, r),
    ensures
        floor_sqrt(n) == r,
{
    let s = floor_sqrt(n);
    assert(is_root(n, s));
    if s < r {
        assert((s + 1) * (s + 1) <= r * r) by (nonlinear_arith)
            requires
                0 <= s,
                s + 1 <= r,
        ;
    }
    if r < s {
        assert((r + 1) * (r + 1) <= s * s) by (nonlinear_arith)
            requires
                0 <= r,
                r + 1 <= s,
        ;
    }
}

/// The root of a number at most `8 * 10^24` is at most `3 * 10^12`.
proof fn lemma_root_below(n: int, r: int, b: int)
    requires
        is_root(n, r),
        n <= b,
        b == 8_000_000_000_000_000_000_000_000,
    ensures
        r <= 3_000_000_000_000,
{
    if r > 3_000_000_000_000 {
        assert(r * r > 9_000_000_000_000_000_000_000_000) by (nonlinear_arith)
            requires
                r > 3_000_000_000_000,
        ;
    }
}

/// A number whose square is at most `n` is at most the root of `n`.
proof fn lemma_le_root(a: int, n: int, r: int)
    requires
        0 <= a,
        a * a <= n,
        is_root(n, r),
    ensures
        a <= r,
{
    if a > r {
        assert((r + 1) * (r + 1) <= a * a) by (nonlinear_arith)
            requires
                0 <= r,
                r + 1 <= a,
        ;
    }
}

/// Integer square root, rounded down.
pub fn isqrt(n: u128) -> (r: u128)
    requires
        n < ROOT_DOMAIN,
    ensures
        is_root(n as int, r as int),
        r == floor_sqrt(n as int),
{
    let mut lo: u128 = 0;
    let mut hi: u128 = 0x4_0000_0000_0000;
    assert(hi * hi == ROOT_DOMAIN);
    while hi - lo > 1
        invariant
            lo < hi <= 0x4_0000_0000_0000,
            lo * lo <= n,
            n < hi * hi,
        decreases hi - lo,
    {
        let mid: u128 = lo + (hi - lo) / 2;
        assert(mid * mid <= ROOT_DOMAIN) by (nonlinear_arith)
            requires
                mid <= 0x4_0000_0000_0000,
        ;
        if mid * mid <= n {
            lo = mid;
        } else {
            hi = mid;
        }
    }
    assert(hi == lo + 1);
    proof {
        lemma_floor_sqrt_unique(n as int, lo as int);
    }
    lo
}

/// Absolute value.
fn magnitude(d: i128) -> (r: u128)
    requires
        d > i128::MIN,
    ensures
        r == if d < 0 { -d } else { d as int },
{
    if d < 0 {
        (0 - d) as u128
    } else {
        d as u128
    }
}

/// `a / d` rounded toward zero.
pub fn div_toward_zero(a: i128, d: u128) -> (r: i128)
    requires
        0 < d,
        -ROOT_DOMAIN < a < ROOT_DOMAIN,
    ensures
        r == trunc_div(a as int, d as int),
{
    let m = magnitude(a);
    let q: u128 = m / d;
    assert(q <= m) by (nonlinear_arith)
        requires
            q == m / d,
            0 < d,
    ;
    if a >= 0 {
        q as i128
    } else {
        -(q as i128)
    }
}

/// Square of the distance between two points.
pub fn dist_sq_exec(a: &Vector, b: &Vector) -> (n: u128)
    requires
        a.valid(),
        b.valid(),
    ensures
        n == dist_sq(*a, *b),
        n <= 8_000_000_000_000_000_000_000_000,
{
    let dx: i128 = a.x as i128 - b.x as i128;
    let dy: i128 = a.y as i128 - b.y as i128;
    sum_of_squares(dx, dy)
}

/// `dx * dx + dy * dy`, for differences of two coordinates.
fn sum_of_squares(dx: i128, dy: i128) -> (n: u128)
    requires
        -2 * COORD_LIMIT <= dx <= 2 * COORD_LIMIT,
        -2 * COORD_LIMIT <= dy <= 2 * COORD_LIMIT,
    ensures
        n == dx * dx + dy * dy,
        n <= 8_000_000_000_000_000_000_000_000,
{
    let ax = magnitude(dx);
    let ay = magnitude(dy);
    assert(ax * ax == dx * dx && ax * ax <= 4_000_000_000_000_000_000_000_000) by (nonlinear_arith)
        requires
            ax == if dx < 0 { -dx } else { dx as int },
            ax <= 2_000_000_000_000,
    ;
    assert(ay * ay == dy * dy && ay * ay <= 4_000_000_000_000_000_000_000_000) by (nonlinear_arith)
        requires
            ay == if dy < 0 { -dy } else { dy as int },
            ay <= 2_000_000_000_000,
    ;
    ax * ax + ay * ay
}

/// `c` saturated to the range of coordinates.
pub fn clamp(c: i64) -> (r: i64)
    ensures
        r == clamp_coord(c as int),
        coord_ok(r as int),
{
    if c < -COORD_LIMIT {
        -COORD_LIMIT
    } else if c > COORD_LIMIT {
        COORD_LIMIT
    } else {
        c
    }
}

/// Displacement along one axis at `speed` pixels per second for `dt`
/// microseconds, along heading component `h`.
pub fn step_along(speed: u64, dt: u64, h: i64) -> (r: i64)
    requires
        speed <= MAX_SPEED,
        -2 * HEADING_SCALE <= h <= 2 * HEADING_SCALE,
    ensures
        r == axis_step(speed as int, dt as int, h as int),
        -2_000_000_000 <= r <= 2_000_000_000,
{
    let dt: u64 = if dt > MAX_DT {
        MAX_DT
    } else {
        dt
    };
    assert(0 <= speed * dt <= 1_000_000_000_000) by (nonlinear_arith)
        requires
            speed <= 1000,
            dt <= 1_000_000_000,
    ;
    let p: i128 = speed as i128 * dt as i128;
    assert(-2_000_000_000_000_000_000 <= p * h <= 2_000_000_000_000_000_000) by (nonlinear_arith)
        requires
            0 <= p <= 1_000_000_000_000,
            -2_000_000 <= h <= 2_000_000,
    ;
    let a: i128 = p * h as i128;
    assert(a == speed * dt * h) by (nonlinear_arith)
        requires
            a == p * h,
            p == speed * dt,
    ;
    let r = div_toward_zero(a, STEP_DIVISOR as u128);
    r as i64
}

/// The unit heading, scaled by `HEADING_SCALE`, of a nonzero displacement.
pub fn heading_toward(dx: i64, dy: i64) -> (h: Vector)
    requires
        -2 * COORD_LIMIT <= dx <= 2 * COORD_LIMIT,
        -2 * COORD_LIMIT <= dy <= 2 * COORD_LIMIT,
        dx != 0 || dy != 0,
    ensures
        h == toward(dx as int, dy as int),
        h.is_heading(),
{
    let n = sum_of_squares(dx as i128, dy as i128);
    let len = isqrt(n);
    proof {
        assert(dx * dx <= n && dy * dy <= n) by (nonlinear_arith)
            requires
                n == dx * dx + dy * dy,
        ;
        assert(n >= 1) by (nonlinear_arith)
            requires
                n == dx * dx + dy * dy,
                dx != 0 || dy != 0,
        ;
        let ax: int = if dx < 0 { -dx } else { dx as int };
        let ay: int = if dy < 0 { -dy } else { dy as int };
        assert(ax * ax == dx * dx && ay * ay == dy * dy) by (nonlinear_arith)
            requires
                ax == if dx < 0 { -dx } else { dx as int },
                ay == if dy < 0 { -dy } else { dy as int },
        ;
        lemma_le_root(ax, n as int, len as int);
        lemma_le_root(ay, n as int, len as int);
    }
    let x = unit_component(dx, len);
    let y = unit_component(dy, len);
    Vector { x, y }
}

/// `d * HEADING_SCALE / len`, rounded toward zero, where `|d| <= len`.
fn unit_component(d: i64, len: u128) -> (r: i64)
    requires
        0 < len,
        (if d < 0 { -d } else { d as int }) <= len,
        -2 * COORD_LIMIT <= d <= 2 * COORD_LIMIT,
    ensures
        r == trunc_div(d * HEADING_SCALE, len as int),
        -HEADING_SCALE <= r <= HEADING_SCALE,
{
    assert(-2_000_000_000_000_000_000 <= d * HEADING_SCALE <= 2_000_000_000_000_000_000)
        by (nonlinear_arith)
        requires
            HEADING_SCALE == 1_000_000,
            -2_000_000_000_000 <= d <= 2_000_000_000_000,
    ;
    let a: i128 = d as i128 * HEADING_SCALE as i128;
    assert(ROOT_DOMAIN > 2_000_000_000_000_000_000);
    let q = div_toward_zero(a, len);
    let ghost m: int = if d < 0 { -d } else { d as int };
    assert((m * HEADING_SCALE) / (len as int) <= HEADING_SCALE) by (nonlinear_arith)
        requires
            0 <= m <= len,
            0 < len,
    ;
    assert(a == d * HEADING_SCALE);
    if d >= 0 {
        assert(a == m * HEADING_SCALE);
    } else {
        assert(-a == m * HEADING_SCALE) by (nonlinear_arith)
            requires
                a == d * HEADING_SCALE,
                m == -d,
        ;
    }
    q as i64
}

/// The heading `h` turned by the small angle whose sine, scaled by
/// `HEADING_SCALE`, is `s`.
pub fn turn(h: Vector, s: i64) -> (r: Vector)
    requires
        h.is_heading(),
        -SHOOTING_ERROR <= s <= SHOOTING_ERROR,
    ensures
        r == rotated(h, s as int),
        r.is_velocity(),
{
    assert(0 <= s * s <= 10_000_000_000) by (nonlinear_arith)
        requires
            -100_000 <= s <= 100_000,
    ;
    let sq: i128 = s as i128 * s as i128;
    let c2: u128 = (1_000_000_000_000i128 - sq) as u128;
    assert(HEADING_SCALE * HEADING_SCALE - s * s == c2);
    let c = isqrt(c2);
    proof {
        lemma_le_root(c as int, 1_000_000_000_000, 1_000_000);
        assert(c * c <= 1_000_000_000_000) by (nonlinear_arith)
            requires
                c * c <= c2,
                c2 <= 1_000_000_000_000,
        ;
        assert(is_root(1_000_000_000_000, 1_000_000));
    }
    let c = c as i128;
    let hx = h.x as i128;
    let hy = h.y as i128;
    assert(-1_000_000_000_000 <= c * hx <= 1_000_000_000_000 && -1_000_000_000_000 <= c * hy
        <= 1_000_000_000_000 && -100_000_000_000 <= s * hx <= 100_000_000_000
        && -100_000_000_000 <= s * hy <= 100_000_000_000) by (nonlinear_arith)
        requires
            0 <= c <= 1_000_000,
            -1_000_000 <= hx <= 1_000_000,
            -1_000_000 <= hy <= 1_000_000,
            -100_000 <= s <= 100_000,
    ;
    let ax: i128 = c * hx - s as i128 * hy;
    let ay: i128 = s as i128 * hx + c * hy;
    let x = div_toward_zero(ax, HEADING_SCALE as u128);
    let y = div_toward_zero(ay, HEADING_SCALE as u128);
    proof {
        lemma_quotient_bound(ax as int);
        lemma_quotient_bound(ay as int);
    }
    Vector { x: x as i64, y: y as i64 }
}

proof fn lemma_quotient_bound(a: int)
    requires
        -1_100_000_000_000 <= a <= 1_100_000_000_000,
    ensures
        -2 * HEADING_SCALE <= trunc_div(a, HEADING_SCALE as int) <= 2 * HEADING_SCALE,
{
    assert(HEADING_SCALE == 1_000_000);
    if a >= 0 {
        assert(a / 1_000_000 <= 1_100_000);
    } else {
        assert((-a) / 1_000_000 <= 1_100_000);
    }
}

} // verus!
