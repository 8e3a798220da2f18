use hit_and_run::bullet::Bullet;
use hit_and_run::enemy::Enemy;
use hit_and_run::player::Player;
use hit_and_run::vector::{Field, Vector};

fn field() -> Field {
    Field::new(600_000, 600_000)
}

#[test]
fn friendly_bullet_outside_field_dies_without_moving() {
    let mut b = Bullet::new(-1, 300_000, Vector::new(1_000_000, 0), true);
    b.update(16_667, &field());
    assert!(!b.get_alive());
    assert_eq!(b.get_x(), -1);
    assert_eq!(b.get_y(), 300_000);
}

#[test]
fn friendly_bullet_inside_field_flies() {
    let mut b = Bullet::new(0, 0, Vector::new(1_000_000, 0), true);
    b.update(1_000_000, &field());
    assert!(b.get_alive());
    // 625 pixels per second
    assert_eq!(b.get_x(), 625_000);
    assert_eq!(b.get_y(), 0);
    assert_eq!(b.get_heading(), Vector::new(1_000_000, 0));
}

#[test]
fn hostile_bullet_bounces_on_side_walls() {
    let mut b = Bullet::new(-1, 300_000, Vector::new(-1_000_000, 0), false);
    b.update(16_000, &field());
    assert!(b.get_alive());
    assert_eq!(b.get_heading(), Vector::new(1_000_000, 0));
    assert_eq!(b.get_x(), -1 + 10_000);
    let mut c = Bullet::new(600_001, 300_000, Vector::new(600_000, 800_000), false);
    c.update(16_000, &field());
    assert!(c.get_alive());
    assert_eq!(c.get_heading(), Vector::new(-600_000, 800_000));
    assert!(!c.get_friendly());
}

#[test]
fn hostile_bullet_bounces_on_both_axes_at_a_corner() {
    let mut b = Bullet::new(-5, -5, Vector::new(-600_000, -800_000), false);
    b.update(16_000, &field());
    assert!(b.get_alive());
    assert_eq!(b.get_heading(), Vector::new(600_000, 800_000));
}

#[test]
fn hostile_bullet_inside_keeps_direction() {
    let mut b = Bullet::new(300_000, 300_000, Vector::new(-600_000, 800_000), false);
    b.update(1_000_000, &field());
    assert_eq!(b.get_heading(), Vector::new(-600_000, 800_000));
    assert_eq!(b.get_x(), 300_000 - 375_000);
    assert_eq!(b.get_y(), 300_000 + 500_000);
}

#[test]
fn set_alive_marks_dead_idempotently() {
    let mut b = Bullet::new(0, 0, Vector::new(1_000_000, 0), true);
    b.set_alive(false);
    b.set_alive(false);
    assert!(!b.get_alive());
}

#[test]
fn enemy_hit_inside_radius_less_epsilon() {
    let mut e = Enemy::new(0, 0, false);
    let mut b = Bullet::new(24_899, 0, Vector::new(1_000_000, 0), true);
    e.hit(&mut b);
    assert_eq!(e.get_health(), 4);
    assert!(!b.get_alive());
}

#[test]
fn enemy_not_hit_at_radius_less_epsilon() {
    let mut e = Enemy::new(0, 0, false);
    let mut b = Bullet::new(24_900, 0, Vector::new(1_000_000, 0), true);
    e.hit(&mut b);
    assert_eq!(e.get_health(), 5);
    assert!(b.get_alive());
}

#[test]
fn dead_bullet_never_hits() {
    let mut e = Enemy::new(0, 0, false);
    let mut b = Bullet::new(0, 0, Vector::new(1_000_000, 0), true);
    e.hit(&mut b);
    assert_eq!(e.get_health(), 4);
    e.hit(&mut b);
    assert_eq!(e.get_health(), 4);
}

#[test]
fn dead_enemy_is_not_hit() {
    let mut e = Enemy::new(0, 0, false);
    e.health = 0;
    let mut b = Bullet::new(0, 0, Vector::new(1_000_000, 0), true);
    e.hit(&mut b);
    assert_eq!(e.get_health(), 0);
    assert!(!e.get_alive());
    assert!(b.get_alive());
}

#[test]
fn player_hit_law() {
    let mut p = Player::new(1000, 1000);
    let mut near = Bullet::new(1000 + 24_749, 1000, Vector::new(1_000_000, 0), false);
    let mut far = Bullet::new(1000 + 24_750, 1000, Vector::new(1_000_000, 0), false);
    p.hit(&mut far);
    assert_eq!(p.get_health(), 30);
    assert!(far.get_alive());
    p.hit(&mut near);
    assert_eq!(p.get_health(), 29);
    assert!(!near.get_alive());
}
