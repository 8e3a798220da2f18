use vstd::prelude::*;
use crate::bullet::{lands, Bullet};
use crate::constants::{
    ENEMY_COOLDOWN, ENEMY_DIAMETER, ENEMY_HIT_RADIUS, ENEMY_MOVEBACK, ENEMY_REACH, ENEMY_SPEED,
    ENEMY_START_HEALTH, HEADING_SCALE, MAX_DT, SHOOTING_ERROR,
};
use crate::motion::{
    actor_velocity_ok, aim_heading, aimed_heading, move_by, moved_by, muzzle, muzzle_exec,
    velocity, velocity_exec,
};
use crate::random::random_aim_error;
use crate::vector::{capped, dist_sq, dist_sq_exec, rotated, turn, Field, Vector};

verus! {

/// Enemy
#[derive(Clone, Copy, Debug, PartialEq, Eq, Structural)]
pub struct Enemy {
    /// Position of the enemy
    pub pos: Vector,
    /// Desired position of the enemy
    pub desired_pos: Vector,
    /// Velocity of the enemy
    pub vel: Vector,
    /// Direction the enemy faces, a heading scaled by `HEADING_SCALE`
    pub heading: Vector,
    /// Whether the enemy may move toward its target
    pub forward: bool,
    /// Health of the enemy
    pub health: u32,
    /// Cooldown for shooting, in microseconds; the enemy fires once it is negative
    pub cooldown: i64,
}

impl Enemy {
    pub open spec fn wf(self) -> bool {
        &&& self.pos.valid()
        &&& self.desired_pos.valid()
        &&& self.heading.is_heading()
        &&& actor_velocity_ok(self.vel)
        &&& -(MAX_DT as int) <= self.cooldown <= ENEMY_COOLDOWN
    }

    pub open spec fn alive(self) -> bool {
        self.health != 0
    }

    /// The enemy as created at `(x, y)`.
    pub open spec fn fresh(x: i64, y: i64, forward: bool) -> Enemy {
        Enemy {
            pos: Vector { x, y },
            desired_pos: Vector { x: 0, y: 0 },
            vel: Vector { x: 0, y: 0 },
            heading: Vector { x: HEADING_SCALE, y: 0 },
            forward,
            health: ENEMY_START_HEALTH,
            cooldown: ENEMY_COOLDOWN,
        }
    }

    /// The enemy after aiming at `target`.
    pub open spec fn aimed(self, target: Vector) -> Enemy {
        Enemy {
            desired_pos: target,
            heading: aimed_heading(self.pos, target, self.heading),
            ..self
        }
    }

    /// The enemy after aiming at `target` and moving: a forward-capable enemy
    /// closes in while farther than its body radius from the target.
    pub open spec fn steered(self, dt: u64, target: Vector, f: Field) -> Enemy {
        let a = self.aimed(target);
        let v = if a.forward && dist_sq(a.pos, a.desired_pos) > ENEMY_REACH * ENEMY_REACH {
            velocity(ENEMY_SPEED as int, dt as int, a.heading)
        } else {
            Vector { x: 0, y: 0 }
        };
        Enemy { vel: v, pos: moved_by(a.pos, v, f, ENEMY_MOVEBACK as int), ..a }
    }

    /// Whether the enemy fires in its next tick.
    pub open spec fn fires(self) -> bool {
        self.cooldown < 0
    }

    /// The enemy after a tick of `dt` microseconds spent aiming at `target`.
    pub open spec fn ticked(self, dt: u64, target: Vector, f: Field) -> Enemy {
        Enemy {
            cooldown: if self.fires() {
                ENEMY_COOLDOWN
            } else {
                (self.cooldown - capped(dt as int)) as i64
            },
            ..self.steered(dt, target, f)
        }
    }

    /// The projectile fired in that tick, if any, where `error` is the sine of
    /// the aim error: it leaves the edge of the body along the heading, and
    /// flies along the heading turned by the error.
    pub open spec fn shot(self, dt: u64, target: Vector, f: Field, error: int) -> Option<Bullet> {
        if self.fires() {
            let s = self.steered(dt, target, f);
            Some(
                Bullet {
                    pos: muzzle(s.pos, s.heading, ENEMY_DIAMETER / 2),
                    vel: rotated(s.heading, error),
                    alive: true,
                    friendly: false,
                },
            )
        } else {
            None
        }
    }

    /// Whether the projectile `b` hits the enemy.
    pub open spec fn is_hit_by(self, b: Bullet) -> bool {
        self.alive() && lands(self.pos, b, ENEMY_HIT_RADIUS as int)
    }

    /// The enemy and the projectile after testing the hit.
    pub open spec fn struck(self, b: Bullet) -> (Enemy, Bullet) {
        if self.is_hit_by(b) {
            (Enemy { health: (self.health - 1) as u32, ..self }, Bullet { alive: false, ..b })
        } else {
            (self, b)
        }
    }

    /// Returns an enemy at `(x, y)`; `b` tells whether it may move forward
    pub fn new(x: i64, y: i64, b: bool) -> (e: Enemy)
        requires
            (Vector { x, y }).valid(),
        ensures
            e == Enemy::fresh(x, y, b),
            e.wf(),
    {
        Enemy {
            pos: Vector::new(x, y),
            desired_pos: Vector::new(0, 0),
            vel: Vector::new(0, 0),
            heading: Vector::new(HEADING_SCALE, 0),
            forward: b,
            health: ENEMY_START_HEALTH,
            cooldown: ENEMY_COOLDOWN,
        }
    }

    /// Check if enemy is hit by a bullet
    pub fn hit(&mut self, b: &mut Bullet)
        requires
            old(self).wf(),
            old(b).wf(),
        ensures
            (*final(self), *final(b)) == old(self).struck(*old(b)),
    {
        if self.health != 0 && b.alive {
            let d = dist_sq_exec(&self.pos, &b.pos);
            if d < (ENEMY_HIT_RADIUS * ENEMY_HIT_RADIUS) as u128 {
                self.health = self.health - 1;
                b.alive = false;
            }
        }
    }

    /// Updates the desired position and the heading.
    pub fn desired_update(&mut self, desx: i64, desy: i64)
        requires
            old(self).wf(),
            (Vector { x: desx, y: desy }).valid(),
        ensures
            *final(self) == old(self).aimed(Vector { x: desx, y: desy }),
            final(self).wf(),
    {
        let target = Vector::new(desx, desy);
        self.heading = aim_heading(&self.pos, &target, &self.heading);
        self.desired_pos = target;
    }

    /// Update the enemy's position and cooldown, aiming at `(desx, desy)`.
    /// Return a bullet if it is shooting; its direction carries a random aim error.
    pub fn update(&mut self, dt: u64, desx: i64, desy: i64, dimensions: &Field) -> (r: Option<
        Bullet,
    >)
        requires
            old(self).wf(),
            (Vector { x: desx, y: desy }).valid(),
        ensures
            *final(self) == old(self).ticked(dt, Vector { x: desx, y: desy }, *dimensions),
            exists|e: int|
                -SHOOTING_ERROR <= e <= SHOOTING_ERROR && r == old(self).shot(
                    dt,
                    Vector { x: desx, y: desy },
                    *dimensions,
                    e,
                ),
            final(self).wf(),
            r matches Some(b) ==> b.wf(),
    {
        let error = if self.cooldown < 0 {
            random_aim_error()
        } else {
            0
        };
        self.update_with_error(dt, desx, desy, dimensions, error)
    }

    /// Update the enemy's position and cooldown, aiming at `(desx, desy)`.
    /// Return a bullet if it is shooting, its direction turned by the angle
    /// whose sine, scaled by `HEADING_SCALE`, is `error`.
    pub fn update_with_error(
        &mut self,
        dt: u64,
        desx: i64,
        desy: i64,
        dimensions: &Field,
        error: i64,
    ) -> (r: Option<Bullet>)
        requires
            old(self).wf(),
            (Vector { x: desx, y: desy }).valid(),
            -SHOOTING_ERROR <= error <= SHOOTING_ERROR,
        ensures
            *final(self) == old(self).ticked(dt, Vector { x: desx, y: desy }, *dimensions),
            r == old(self).shot(dt, Vector { x: desx, y: desy }, *dimensions, error as int),
            final(self).wf(),
            r matches Some(b) ==> b.wf(),
    {
        self.desired_update(desx, desy);
        let d = dist_sq_exec(&self.pos, &self.desired_pos);
        if d > (ENEMY_REACH * ENEMY_REACH) as u128 && self.forward {
            self.vel = velocity_exec(ENEMY_SPEED, dt, &self.heading);
        } else {
            self.vel = Vector::new(0, 0);
        }
        self.pos = move_by(&self.pos, &self.vel, dimensions, ENEMY_MOVEBACK);
        if self.cooldown < 0 {
            self.cooldown = ENEMY_COOLDOWN;
            let m = muzzle_exec(&self.pos, &self.heading, ENEMY_DIAMETER / 2);
            let v = turn(self.heading, error);
            return Some(Bullet::new(m.x, m.y, v, false));
        }
        let spent: u64 = if dt > MAX_DT {
            MAX_DT
        } else {
            dt
        };
        self.cooldown = self.cooldown - spent as i64;
        None
    }

    /// Returns whether the enemy is alive
    pub fn get_alive(&self) -> (r: bool)
        ensures
            r == self.alive(),
    {
        self.health != 0
    }

    /// Returns the health of the enemy
    pub fn get_health(&self) -> (r: u32)
        ensures
            r == self.health,
    {
        self.health
    }

    /// Returns whether the enemy can shoot
    pub fn can_shoot(&self) -> (r: bool)
        ensures
            r == self.fires(),
    {
        self.cooldown < 0
    }

    /// Returns the x position of the enemy
    pub fn get_x(&self) -> (r: i64)
        ensures
            r == self.pos.x,
    {
        self.pos.x
    }

    /// Returns the y position of the enemy
    pub fn get_y(&self) -> (r: i64)
        ensures
            r == self.pos.y,
    {
        self.pos.y
    }

    /// Returns the direction the enemy faces
    pub fn get_heading(&self) -> (r: Vector)
        ensures
            r == self.heading,
    {
        self.heading
    }
}

} // verus!
