use vstd::prelude::*;
use crate::constants::PROJECTILE_SPEED;
use crate::vector::{axis_step, clamp, clamp_coord, dist_sq, step_along, Field, Vector};

verus! {

/// A projectile.
#[derive(Clone, Copy, Debug, PartialEq, Eq, Structural)]
pub struct Bullet {
    /// Position of the bullet
    pub pos: Vector,
    /// Direction of flight, a heading scaled by `HEADING_SCALE`
    pub vel: Vector,
    /// Whether the bullet is alive
    pub alive: bool,
    /// Whether the bullet was fired by the player
    pub friendly: bool,
}

/// Whether a projectile is inside the circle of the given radius around `center`.
pub open spec fn lands(center: Vector, b: Bullet, radius: int) -> bool {
    b.alive && dist_sq(center, b.pos) < radius * radius
}

/// Distance travelled along one axis over `dt` microseconds, for heading component `v`.
pub open spec fn flight(dt: int, v: int) -> int {
    axis_step((PROJECTILE_SPEED * PROJECTILE_SPEED) as int, dt, v)
}

pub open spec fn flown(p: Vector, v: Vector, dt: int) -> Vector {
    Vector {
        x: clamp_coord(p.x + flight(dt, v.x as int)) as i64,
        y: clamp_coord(p.y + flight(dt, v.y as int)) as i64,
    }
}

/// Whether a coordinate is outside `[0, limit]`.
pub open spec fn off(c: int, limit: int) -> bool {
    c < 0 || c > limit
}

impl Bullet {
    pub open spec fn wf(self) -> bool {
        self.pos.valid() && self.vel.is_velocity()
    }

    /// The projectile after one tick of `dt` microseconds on the field `f`.
    /// A friendly one outside the field dies where it is; inside, it flies on.
    /// A hostile one turns back on each axis along which it is outside, then flies.
    pub open spec fn ticked(self, dt: u64, f: Field) -> Bullet {
        if self.friendly {
            if !f.contains(self.pos) {
                Bullet { alive: false, ..self }
            } else {
                Bullet { pos: flown(self.pos, self.vel, dt as int), ..self }
            }
        } else {
            let v = Vector {
                x: if off(self.pos.x as int, f.width as int) {
                    -self.vel.x
                } else {
                    self.vel.x as int
                } as i64,
                y: if off(self.pos.y as int, f.height as int) {
                    -self.vel.y
                } else {
                    self.vel.y as int
                } as i64,
            };
            Bullet { pos: flown(self.pos, v, dt as int), vel: v, ..self }
        }
    }

    /// Returns a bullet at `(xpos, ypos)` flying along `heading`
    pub fn new(xpos: i64, ypos: i64, heading: Vector, b: bool) -> (r: Bullet)
        ensures
            r == (Bullet { pos: Vector { x: xpos, y: ypos }, vel: heading, alive: true, friendly: b }),
    {
        Bullet { pos: Vector { x: xpos, y: ypos }, vel: heading, alive: true, friendly: b }
    }

    /// Updates the bullet position and direction
    pub fn update(&mut self, dt: u64, dimensions: &Field)
        requires
            old(self).wf(),
        ensures
            *final(self) == old(self).ticked(dt, *dimensions),
            final(self).wf(),
    {
        let width = dimensions.width;
        let height = dimensions.height;
        if self.friendly {
            if self.pos.x < 0 || self.pos.x > width || self.pos.y < 0 || self.pos.y > height {
                self.alive = false;
                return ;
            }
        } else {
            if self.pos.x < 0 || self.pos.x > width {
                self.vel.x = -self.vel.x;
            }
            if self.pos.y < 0 || self.pos.y > height {
                self.vel.y = -self.vel.y;
            }
        }
        let speed: u64 = PROJECTILE_SPEED * PROJECTILE_SPEED;
        let sx = step_along(speed, dt, self.vel.x);
        let sy = step_along(speed, dt, self.vel.y);
        self.pos.x = clamp(self.pos.x + sx);
        self.pos.y = clamp(self.pos.y + sy);
    }

    /// Returns whether the bullet is alive
    pub fn get_alive(&self) -> (r: bool)
        ensures
            r == self.alive,
    {
        self.alive
    }

    /// Updates whether the bullet is alive
    pub fn set_alive(&mut self, b: bool)
        ensures
            *final(self) == (Bullet { alive: b, ..*old(self) }),
    {
        self.alive = b;
    }

    /// Returns the bullet's x position
    pub fn get_x(&self) -> (r: i64)
        ensures
            r == self.pos.x,
    {
        self.pos.x
    }

    /// Returns the bullet's y position
    pub fn get_y(&self) -> (r: i64)
        ensures
            r == self.pos.y,
    {
        self.pos.y
    }

    /// Returns whether the bullet is friendly
    pub fn get_friendly(&self) -> (r: bool)
        ensures
            r == self.friendly,
    {
        self.friendly
    }

    /// Returns the direction of flight; the bullet is drawn turned along it
    pub fn get_heading(&self) -> (r: Vector)
        ensures
            r == self.vel,
    {
        self.vel
    }
}

} // verus!
