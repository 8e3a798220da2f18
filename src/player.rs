use vstd::prelude::*;
use crate::bullet::{lands, Bullet};
use crate::constants::{
    BURST_COOLDOWN, COORD_LIMIT, HEADING_SCALE, PLAYER_DIAMETER, PLAYER_EPSILON,
    PLAYER_HIT_RADIUS, PLAYER_MOVEBACK, PLAYER_SPEED, PLAYER_START_HEALTH, SHOT_COOLDOWN,
    START_SHOTS,
};
use crate::motion::{
    actor_velocity_ok, aim_heading, aimed_heading, move_by, moved_by, muzzle, muzzle_exec,
    velocity, velocity_exec,
};
use crate::vector::{dist_sq, dist_sq_exec, Field, Vector};

verus! {

/// The three states of the burst-fire weapon.
#[derive(Clone, Copy, Debug, PartialEq, Eq, Structural)]
pub enum FireState {
    /// A shot may be fired.
    Ready,
    /// Waiting between two shots of a burst.
    ShotCooldown,
    /// Recovering after a burst.
    BurstCooldown,
}

/// `a - b`, or 0 where `b` exceeds `a`.
pub open spec fn sat_sub(a: u64, b: u64) -> u64 {
    if a > b {
        (a - b) as u64
    } else {
        0
    }
}

/// User controlled player
#[derive(Clone, Copy, Debug, PartialEq, Eq, Structural)]
pub struct Player {
    /// Position of the player
    pub pos: Vector,
    /// Velocity of the player
    pub vel: Vector,
    /// Position where the player wants to be
    pub desired_pos: Vector,
    /// Direction the player faces, a heading scaled by `HEADING_SCALE`
    pub heading: Vector,
    /// Health of the player
    pub health: u32,
    /// Whether the player is shooting
    pub is_shooting: bool,
    /// Shots left in the current burst
    pub shots: u32,
    /// Cooldown between shots
    pub scooldown: u64,
    /// Cooldown between bursts
    pub bcooldown: u64,
}

impl Player {
    pub open spec fn wf(self) -> bool {
        &&& self.pos.valid()
        &&& self.desired_pos.valid()
        &&& self.heading.is_heading()
        &&& actor_velocity_ok(self.vel)
        &&& self.shots <= START_SHOTS
        &&& self.scooldown <= SHOT_COOLDOWN
        &&& self.bcooldown <= BURST_COOLDOWN
    }

    pub open spec fn alive(self) -> bool {
        self.health != 0
    }

    /// The player after aiming at `target`.
    pub open spec fn aimed(self, target: Vector) -> Player {
        Player {
            desired_pos: target,
            heading: aimed_heading(self.pos, target, self.heading),
            ..self
        }
    }

    /// The player after the motion part of a tick: it moves along its heading
    /// while farther than the dead zone from where it wants to be.
    pub open spec fn steered(self, dt: u64, f: Field) -> Player {
        let v = if dist_sq(self.pos, self.desired_pos) > PLAYER_EPSILON * PLAYER_EPSILON {
            velocity(PLAYER_SPEED as int, dt as int, self.heading)
        } else {
            Vector { x: 0, y: 0 }
        };
        Player { vel: v, pos: moved_by(self.pos, v, f, PLAYER_MOVEBACK as int), ..self }
    }

    /// The cooldown bookkeeping of a tick: an empty burst starts the
    /// recovery; a running recovery counts down; otherwise the shot cooldown does.
    pub open spec fn cooled(self, dt: u64) -> Player {
        if self.shots == 0 {
            Player { scooldown: 0, bcooldown: BURST_COOLDOWN, shots: START_SHOTS, ..self }
        } else if self.bcooldown > 0 {
            Player { bcooldown: sat_sub(self.bcooldown, dt), ..self }
        } else {
            Player { scooldown: sat_sub(self.scooldown, dt), ..self }
        }
    }

    /// Whether the tick of `dt` microseconds fires a shot.
    pub open spec fn fires(self, dt: u64) -> bool {
        &&& self.shots != 0
        &&& self.bcooldown == 0
        &&& sat_sub(self.scooldown, dt) == 0
        &&& self.is_shooting
    }

    /// The player after a tick of `dt` microseconds.
    pub open spec fn ticked(self, dt: u64, f: Field) -> Player {
        let p = self.steered(dt, f).cooled(dt);
        if self.fires(dt) {
            Player { scooldown: SHOT_COOLDOWN, shots: (p.shots - 1) as u32, ..p }
        } else {
            p
        }
    }

    /// The projectile fired in a tick of `dt` microseconds, if any: it leaves
    /// the edge of the body along the heading.
    pub open spec fn shot(self, dt: u64, f: Field) -> Option<Bullet> {
        if self.fires(dt) {
            let p = self.steered(dt, f);
            Some(
                Bullet {
                    pos: muzzle(p.pos, p.heading, PLAYER_DIAMETER / 2),
                    vel: p.heading,
                    alive: true,
                    friendly: true,
                },
            )
        } else {
            None
        }
    }

    /// Whether the projectile `b` hits the player.
    pub open spec fn is_hit_by(self, b: Bullet) -> bool {
        self.alive() && lands(self.pos, b, PLAYER_HIT_RADIUS as int)
    }

    /// The player and the projectile after testing the hit.
    pub open spec fn struck(self, b: Bullet) -> (Player, Bullet) {
        if self.is_hit_by(b) {
            (Player { health: (self.health - 1) as u32, ..self }, Bullet { alive: false, ..b })
        } else {
            (self, b)
        }
    }

    /// The player as created or reset at `(x, y)`, aiming at `desired`.
    pub open spec fn fresh(x: i64, y: i64, desired: Vector) -> Player {
        Player {
            pos: Vector { x, y },
            vel: Vector { x: 0, y: 0 },
            desired_pos: desired,
            heading: Vector { x: HEADING_SCALE, y: 0 },
            health: PLAYER_START_HEALTH,
            is_shooting: false,
            shots: START_SHOTS,
            scooldown: 0,
            bcooldown: 0,
        }
    }

    /// Returns a Player at `(xpos, ypos)`
    pub fn new(xpos: i64, ypos: i64) -> (p: Player)
        requires
            (Vector { x: xpos, y: ypos }).valid(),
        ensures
            p == Player::fresh(xpos, ypos, Vector { x: xpos, y: ypos }),
            p.wf(),
    {
        Player {
            pos: Vector::new(xpos, ypos),
            vel: Vector::new(0, 0),
            desired_pos: Vector::new(xpos, ypos),
            heading: Vector::new(HEADING_SCALE, 0),
            health: PLAYER_START_HEALTH,
            is_shooting: false,
            shots: START_SHOTS,
            scooldown: 0,
            bcooldown: 0,
        }
    }

    /// Check if player is hit by a bullet
    pub fn hit(&mut self, b: &mut Bullet)
        requires
            old(self).wf(),
            old(b).wf(),
        ensures
            (*final(self), *final(b)) == old(self).struck(*old(b)),
    {
        if self.health != 0 && b.alive {
            let d = dist_sq_exec(&self.pos, &b.pos);
            if d < (PLAYER_HIT_RADIUS * PLAYER_HIT_RADIUS) as u128 {
                self.health = self.health - 1;
                b.alive = false;
            }
        }
    }

    /// Updates the desired position and the heading.
    pub fn desired_update(&mut self, mouse_x: i64, mouse_y: i64)
        requires
            old(self).wf(),
            (Vector { x: mouse_x, y: mouse_y }).valid(),
        ensures
            *final(self) == old(self).aimed(Vector { x: mouse_x, y: mouse_y }),
            final(self).wf(),
    {
        let target = Vector::new(mouse_x, mouse_y);
        self.heading = aim_heading(&self.pos, &target, &self.heading);
        self.desired_pos = target;
    }

    /// Update the player's position and cooldowns. Return a bullet if it is shooting.
    pub fn update(&mut self, dt: u64, dimensions: &Field) -> (r: Option<Bullet>)
        requires
            old(self).wf(),
        ensures
            *final(self) == old(self).ticked(dt, *dimensions),
            r == old(self).shot(dt, *dimensions),
            final(self).wf(),
            r matches Some(b) ==> b.wf(),
    {
        let fires = self.shots != 0 && self.bcooldown == 0 && self.scooldown <= dt
            && self.is_shooting;
        let d = dist_sq_exec(&self.pos, &self.desired_pos);
        if d > (PLAYER_EPSILON * PLAYER_EPSILON) as u128 {
            self.vel = velocity_exec(PLAYER_SPEED, dt, &self.heading);
        } else {
            self.vel = Vector::new(0, 0);
        }
        self.pos = move_by(&self.pos, &self.vel, dimensions, PLAYER_MOVEBACK);
        self.update_cooldown(dt);
        if fires {
            self.scooldown = SHOT_COOLDOWN;
            self.shots = self.shots - 1;
            let m = muzzle_exec(&self.pos, &self.heading, PLAYER_DIAMETER / 2);
            return Some(Bullet::new(m.x, m.y, self.heading, true));
        }
        None
    }

    /// Update the cooldown of shooting
    pub fn update_cooldown(&mut self, dt: u64)
        requires
            old(self).wf(),
        ensures
            *final(self) == old(self).cooled(dt),
            final(self).wf(),
    {
        if self.shots == 0 {
            self.scooldown = 0;
            self.bcooldown = BURST_COOLDOWN;
            self.shots = START_SHOTS;
        } else if self.bcooldown > 0 {
            self.bcooldown = if self.bcooldown > dt {
                self.bcooldown - dt
            } else {
                0
            };
        } else {
            self.scooldown = if self.scooldown > dt {
                self.scooldown - dt
            } else {
                0
            };
        }
    }

    /// Return the health
    pub fn get_health(&self) -> (r: u32)
        ensures
            r == self.health,
    {
        self.health
    }

    /// Increase the health by 1, up to the largest `u32`
    pub fn increase_health(&mut self)
        ensures
            *final(self) == (Player { health: old(self).health.saturating_add(1), ..*old(self) }),
    {
        self.health = self.health.saturating_add(1);
    }

    /// Decreases the health by 1
    pub fn decrease_health(&mut self)
        requires
            old(self).health > 0,
        ensures
            *final(self) == (Player { health: (old(self).health - 1) as u32, ..*old(self) }),
    {
        self.health = self.health - 1;
    }

    /// Return whether the player is alive or not
    pub fn get_alive(&self) -> (r: bool)
        ensures
            r == self.alive(),
    {
        self.health != 0
    }

    /// Reset the player to the center of a `width` by `height` field, with full
    /// health and a full burst. The shooting intent is kept.
    pub fn reset(&mut self, width: i64, height: i64)
        requires
            0 <= width <= COORD_LIMIT,
            0 <= height <= COORD_LIMIT,
        ensures
            *final(self) == (Player {
                is_shooting: old(self).is_shooting,
                ..Player::fresh((width / 2) as i64, (height / 2) as i64, Vector { x: 0, y: 0 })
            }),
            final(self).wf(),
    {
        self.pos.x = width / 2;
        self.pos.y = height / 2;
        self.health = PLAYER_START_HEALTH;
        self.heading = Vector::new(HEADING_SCALE, 0);
        self.bcooldown = 0;
        self.scooldown = 0;
        self.desired_pos.reset();
        self.vel.reset();
        self.shots = START_SHOTS;
    }

    /// Start shooting
    pub fn start_shooting(&mut self)
        ensures
            *final(self) == (Player { is_shooting: true, ..*old(self) }),
    {
        self.is_shooting = true;
    }

    /// Stop shooting.
    pub fn stop_shooting(&mut self)
        ensures
            *final(self) == (Player { is_shooting: false, ..*old(self) }),
    {
        self.is_shooting = false;
    }

    /// Return whether the player is shooting
    pub fn get_shooting(&self) -> (r: bool)
        ensures
            r == self.is_shooting,
    {
        self.is_shooting
    }

    /// Return whether the player can shoot.
    pub fn can_shoot(&self) -> (r: bool)
        ensures
            r == (self.bcooldown == 0 && self.scooldown == 0),
    {
        self.bcooldown == 0 && self.scooldown == 0
    }

    /// The state of the weapon
    pub fn fire_state(&self) -> (r: FireState)
        ensures
            r == (if self.bcooldown > 0 {
                FireState::BurstCooldown
            } else if self.scooldown > 0 {
                FireState::ShotCooldown
            } else {
                FireState::Ready
            }),
    {
        if self.bcooldown > 0 {
            FireState::BurstCooldown
        } else if self.scooldown > 0 {
            FireState::ShotCooldown
        } else {
            FireState::Ready
        }
    }

    /// Return the x position of the player
    pub fn get_x(&self) -> (r: i64)
        ensures
            r == self.pos.x,
    {
        self.pos.x
    }

    /// Return the y position of the player
    pub fn get_y(&self) -> (r: i64)
        ensures
            r == self.pos.y,
    {
        self.pos.y
    }

    /// Return the direction the player faces
    pub fn get_heading(&self) -> (r: Vector)
        ensures
            r == self.heading,
    {
        self.heading
    }

    /// Return the shots left in the current burst
    pub fn get_shots(&self) -> (r: u32)
        ensures
            r == self.shots,
    {
        self.shots
    }

    /// Return the cooldown between shots, in microseconds
    pub fn get_shot_cooldown(&self) -> (r: u64)
        ensures
            r == self.scooldown,
    {
        self.scooldown
    }

    /// Return the cooldown between bursts, in microseconds
    pub fn get_burst_cooldown(&self) -> (r: u64)
        ensures
            r == self.bcooldown,
    {
        self.bcooldown
    }
}

} // verus!
