use vstd::prelude::*;
use crate::constants::{HEADING_SCALE, MAX_SPEED};
use crate::vector::{
    axis_step, clamp, clamp_coord, div_toward_zero, heading_toward, step_along, toward,
    trunc_div, Field, Vector,
};

verus! {

/// A coordinate past an edge of `[0, limit]` is pushed back inside by `back`.
pub open spec fn rebound(c: int, limit: int, back: int) -> int {
    if c < 0 {
        c + back
    } else if c > limit {
        c - back
    } else {
        c
    }
}

/// Where an actor at `p` with velocity `v` ends up: pushed back from the edges
/// it is past, then moved by `v`.
pub open spec fn moved_by(p: Vector, v: Vector, f: Field, back: int) -> Vector {
    Vector {
        x: clamp_coord(rebound(p.x as int, f.width as int, back) + v.x) as i64,
        y: clamp_coord(rebound(p.y as int, f.height as int, back) + v.y) as i64,
    }
}

/// Displacement over `dt` microseconds at `speed` pixels per second along `h`.
pub open spec fn velocity(speed: int, dt: int, h: Vector) -> Vector {
    Vector { x: axis_step(speed, dt, h.x as int) as i64, y: axis_step(speed, dt, h.y as int) as i64 }
}

/// The point at distance `r` from `p` along the unit heading `h`.
pub open spec fn muzzle(p: Vector, h: Vector, r: int) -> Vector {
    Vector {
        x: clamp_coord(p.x + trunc_div(r * h.x, HEADING_SCALE as int)) as i64,
        y: clamp_coord(p.y + trunc_div(r * h.y, HEADING_SCALE as int)) as i64,
    }
}

/// The heading after aiming from `p` at `target`: toward the target, or
/// `old` where the target is `p` itself.
pub open spec fn aimed_heading(p: Vector, target: Vector, old: Vector) -> Vector {
    if target.x == p.x && target.y == p.y {
        old
    } else {
        toward(target.x - p.x, target.y - p.y)
    }
}

/// Bound on the velocity components of an actor.
pub open spec fn actor_velocity_ok(v: Vector) -> bool {
    -2_000_000_000 <= v.x <= 2_000_000_000 && -2_000_000_000 <= v.y <= 2_000_000_000
}

pub fn velocity_exec(speed: u64, dt: u64, h: &Vector) -> (v: Vector)
    requires
        speed <= MAX_SPEED,
        h.is_heading(),
    ensures
        v == velocity(speed as int, dt as int, *h),
        actor_velocity_ok(v),
{
    Vector { x: step_along(speed, dt, h.x), y: step_along(speed, dt, h.y) }
}

fn rebound_exec(c: i64, limit: i64, back: i64) -> (r: i64)
    requires
        -1_100_000_000_000 <= c <= 1_100_000_000_000,
        0 <= back <= 1_000_000,
    ensures
        r == rebound(c as int, limit as int, back as int),
{
    if c < 0 {
        c + back
    } else if c > limit {
        c - back
    } else {
        c
    }
}

/// Moves the point `p` by `v`, pushing it back from the edges of `f` first.
pub fn move_by(p: &Vector, v: &Vector, f: &Field, back: i64) -> (r: Vector)
    requires
        p.valid(),
        actor_velocity_ok(*v),
        0 <= back <= 1_000_000,
    ensures
        r == moved_by(*p, *v, *f, back as int),
        r.valid(),
{
    let x = clamp(rebound_exec(p.x, f.width, back) + v.x);
    let y = clamp(rebound_exec(p.y, f.height, back) + v.y);
    Vector { x, y }
}

/// The point at distance `r` from `p` along the heading `h`.
pub fn muzzle_exec(p: &Vector, h: &Vector, r: i64) -> (m: Vector)
    requires
        p.valid(),
        h.is_heading(),
        0 <= r <= 1_000_000,
    ensures
        m == muzzle(*p, *h, r as int),
        m.valid(),
{
    assert(-1_000_000_000_000 <= r * h.x <= 1_000_000_000_000 && -1_000_000_000_000 <= r * h.y
        <= 1_000_000_000_000) by (nonlinear_arith)
        requires
            0 <= r <= 1_000_000,
            -1_000_000 <= h.x <= 1_000_000,
            -1_000_000 <= h.y <= 1_000_000,
    ;
    let dx = div_toward_zero(r as i128 * h.x as i128, HEADING_SCALE as u128);
    let dy = div_toward_zero(r as i128 * h.y as i128, HEADING_SCALE as u128);
    proof {
        lemma_small_quotient(r * h.x);
        lemma_small_quotient(r * h.y);
    }
    Vector { x: clamp(p.x + dx as i64), y: clamp(p.y + dy as i64) }
}

proof fn lemma_small_quotient(a: int)
    requires
        -1_000_000_000_000 <= a <= 1_000_000_000_000,
    ensures
        -1_000_000 <= trunc_div(a, HEADING_SCALE as int) <= 1_000_000,
{
    assert(HEADING_SCALE == 1_000_000);
    if a >= 0 {
        assert(a / 1_000_000 <= 1_000_000);
    } else {
        assert((-a) / 1_000_000 <= 1_000_000);
    }
}

/// The heading after aiming from `p` at `target`.
pub fn aim_heading(p: &Vector, target: &Vector, old: &Vector) -> (h: Vector)
    requires
        p.valid(),
        target.valid(),
        old.is_heading(),
    ensures
        h == aimed_heading(*p, *target, *old),
        h.is_heading(),
{
    if target.x == p.x && target.y == p.y {
        *old
    } else {
        heading_toward(target.x - p.x, target.y - p.y)
    }
}

} // verus!
