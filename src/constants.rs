use vstd::prelude::*;

verus! {

// Lengths are measured in thousandths of a pixel, times in microseconds, and
// directions as vectors whose components are scaled by `HEADING_SCALE`.

/// Length units per pixel.
pub const UNITS_PER_PIXEL: i64 = 1000;

/// Largest magnitude a coordinate may take; positions saturate at this bound.
pub const COORD_LIMIT: i64 = 1_000_000_000_000;

/// Length of a unit direction vector.
pub const HEADING_SCALE: i64 = 1_000_000;

/// Longest tick that counts in full, in microseconds: a longer tick moves
/// things and runs enemy cooldowns as one of this length would.
pub const MAX_DT: u64 = 1_000_000_000;

/// Speeds are in pixels per second; a speed times a tick length (microseconds)
/// times a heading component, divided by this, is a displacement in length units.
pub const STEP_DIVISOR: u64 = 1_000_000_000;

/// Largest speed, in pixels per second, that the motion helpers accept.
pub const MAX_SPEED: u64 = 1000;

/// Initial width of the screen, in pixels.
pub const INIT_WIDTH: u32 = 600;

/// Initial height of the screen, in pixels.
pub const INIT_HEIGHT: u32 = 600;

/// Simulation steps per second.
pub const FPS: u64 = 60;

/// Diameter of the player.
pub const PLAYER_DIAMETER: i64 = 50_000;

/// Side of the player's gun.
pub const PLAYER_GUN: i64 = 10_000;

/// How far the player is pushed back when past an edge of the field.
pub const PLAYER_MOVEBACK: i64 = 15_000;

/// Speed of the player, in pixels per second.
pub const PLAYER_SPEED: u64 = 250;

/// Dead zone around the desired position, and how far inside the body a
/// projectile must be to hit the player.
pub const PLAYER_EPSILON: i64 = 250;

/// Recovery time after a burst, in microseconds.
pub const BURST_COOLDOWN: u64 = 1_000_000;

/// Time between two shots of a burst, in microseconds.
pub const SHOT_COOLDOWN: u64 = 250_000;

/// Shots in one burst.
pub const START_SHOTS: u32 = 6;

/// Starting health of the player.
pub const PLAYER_START_HEALTH: u32 = 30;

/// Distance under which a projectile hits the player.
pub const PLAYER_HIT_RADIUS: i64 = 24_750;

/// How far an enemy is pushed back when past an edge of the field.
pub const ENEMY_MOVEBACK: i64 = 15_000;

/// Diameter of an enemy.
pub const ENEMY_DIAMETER: i64 = 50_000;

/// Side of an enemy's gun.
pub const ENEMY_GUN: i64 = 10_000;

/// Speed of an enemy, in pixels per second.
pub const ENEMY_SPEED: u64 = 50;

/// Starting health of an enemy.
pub const ENEMY_START_HEALTH: u32 = 5;

/// How far inside the body a projectile must be to hit an enemy.
pub const ENEMY_EPSILON: i64 = 100;

/// Distance under which a projectile hits an enemy.
pub const ENEMY_HIT_RADIUS: i64 = 24_900;

/// A forward-capable enemy stops once it is this close to its target.
pub const ENEMY_REACH: i64 = 25_000;

/// Time between two enemy shots, in microseconds.
pub const ENEMY_COOLDOWN: i64 = 1_500_000;

/// Largest aim error of an enemy shot: the sine of 0.1 radian, scaled by
/// `HEADING_SCALE`.
pub const SHOOTING_ERROR: i64 = 99_833;

/// Nominal speed of a projectile; it travels `PROJECTILE_SPEED` squared pixels
/// per second.
pub const PROJECTILE_SPEED: u64 = 25;

/// Side of a projectile.
pub const PROJECTILE_SIDE: i64 = 10_000;

/// One chance in this many for a new enemy to be forward-capable.
pub const FORWARD_ODDS: u64 = 5;

} // verus!
