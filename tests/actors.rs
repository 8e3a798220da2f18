use hit_and_run::enemy::Enemy;
use hit_and_run::player::{FireState, Player};
use hit_and_run::random::{aim_error_of, forward_of, random_aim_error, random_forward};
use hit_and_run::vector::{Field, Vector};

fn field() -> Field {
    Field::new(600_000, 600_000)
}

#[test]
fn player_starts_with_full_burst() {
    let p = Player::new(300_000, 300_000);
    assert_eq!(p.get_health(), 30);
    assert!(p.get_alive());
    assert_eq!(p.get_shots(), 6);
    assert_eq!(p.fire_state(), FireState::Ready);
    assert_eq!(p.get_heading(), Vector::new(1_000_000, 0));
}

#[test]
fn player_aim_sets_heading_and_keeps_it_on_itself() {
    let mut p = Player::new(300_000, 300_000);
    p.desired_update(300_000, 0);
    assert_eq!(p.get_heading(), Vector::new(0, -1_000_000));
    p.desired_update(300_000, 300_000);
    assert_eq!(p.get_heading(), Vector::new(0, -1_000_000));
}

#[test]
fn player_moves_toward_desired_position() {
    let mut p = Player::new(300_000, 300_000);
    p.desired_update(600_000, 300_000);
    let shot = p.update(100_000, &field());
    assert!(shot.is_none());
    assert_eq!(p.get_x(), 325_000);
    assert_eq!(p.get_y(), 300_000);
}

#[test]
fn player_rests_inside_dead_zone() {
    let mut p = Player::new(300_000, 300_000);
    p.desired_update(300_200, 300_000);
    p.update(100_000, &field());
    assert_eq!(p.get_x(), 300_000);
}

#[test]
fn player_fires_a_burst_then_recovers() {
    let mut p = Player::new(300_000, 300_000);
    p.start_shooting();
    assert!(p.get_shooting());
    for i in 0..6u32 {
        let shot = p.update(250_000, &field());
        let b = shot.expect("a shot of the burst");
        assert!(b.get_friendly());
        assert!(b.get_alive());
        assert_eq!(b.get_heading(), Vector::new(1_000_000, 0));
        assert_eq!(p.get_shots(), 5 - i);
    }
    // burst empty: the next tick starts the recovery
    assert!(p.update(250_000, &field()).is_none());
    assert_eq!(p.get_burst_cooldown(), 1_000_000);
    assert_eq!(p.get_shots(), 6);
    assert_eq!(p.fire_state(), FireState::BurstCooldown);
    // no shot until the recovery has run out
    for _ in 0..4 {
        assert!(p.update(250_000, &field()).is_none());
    }
    assert_eq!(p.get_burst_cooldown(), 0);
    assert!(p.update(250_000, &field()).is_some());
    assert_eq!(p.get_shots(), 5);
}

#[test]
fn player_shot_cooldown_spaces_shots() {
    let mut p = Player::new(300_000, 300_000);
    p.start_shooting();
    assert!(p.update(100_000, &field()).is_some());
    assert_eq!(p.fire_state(), FireState::ShotCooldown);
    assert!(p.update(100_000, &field()).is_none());
    assert_eq!(p.get_shot_cooldown(), 150_000);
    assert!(p.update(100_000, &field()).is_none());
    assert!(p.update(100_000, &field()).is_some());
    p.stop_shooting();
    for _ in 0..5 {
        assert!(p.update(100_000, &field()).is_none());
    }
    assert!(p.can_shoot());
}

#[test]
fn player_health_and_reset() {
    let mut p = Player::new(10, 20);
    p.decrease_health();
    assert_eq!(p.get_health(), 29);
    p.increase_health();
    p.increase_health();
    assert_eq!(p.get_health(), 31);
    p.start_shooting();
    p.update(250_000, &field());
    p.reset(600_000, 400_000);
    assert_eq!(p.get_x(), 300_000);
    assert_eq!(p.get_y(), 200_000);
    assert_eq!(p.get_health(), 30);
    assert_eq!(p.get_shots(), 6);
    assert_eq!(p.get_shot_cooldown(), 0);
    assert_eq!(p.get_burst_cooldown(), 0);
    assert_eq!(p.get_heading(), Vector::new(1_000_000, 0));
}

#[test]
fn stationary_enemy_turns_and_fires_on_cooldown() {
    let mut e = Enemy::new(100_000, 100_000, false);
    // not yet: the cooldown runs for 1.5 s
    let first = e.update_with_error(1_000_000, 100_000, 500_000, &field(), 0);
    assert!(first.is_none());
    assert_eq!(e.get_heading(), Vector::new(0, 1_000_000));
    assert_eq!(e.get_x(), 100_000);
    assert_eq!(e.get_y(), 100_000);
    assert!(e.update_with_error(1_000_000, 100_000, 500_000, &field(), 0).is_none());
    assert!(e.can_shoot());
    let shot = e.update_with_error(1_000_000, 100_000, 500_000, &field(), 0);
    let b = shot.expect("a shot");
    assert!(!b.get_friendly());
    assert_eq!(b.get_x(), 100_000);
    assert_eq!(b.get_y(), 125_000);
    assert_eq!(b.get_heading(), Vector::new(0, 1_000_000));
    assert!(!e.can_shoot());
}

#[test]
fn enemy_aim_error_turns_the_shot() {
    let mut e = Enemy::new(100_000, 100_000, false);
    e.cooldown = -1;
    let b = e.update_with_error(16_000, 500_000, 100_000, &field(), 99_833).expect("a shot");
    assert_eq!(b.get_heading().y, 99_833);
    assert_eq!(b.get_x(), 125_000);
}

#[test]
fn forward_enemy_closes_in_and_stops_near_target() {
    let mut e = Enemy::new(100_000, 100_000, true);
    e.update(1_000_000, 500_000, 100_000, &field());
    assert_eq!(e.get_x(), 150_000);
    let mut near = Enemy::new(100_000, 100_000, true);
    near.update(1_000_000, 120_000, 100_000, &field());
    assert_eq!(near.get_x(), 100_000);
    let mut still = Enemy::new(100_000, 100_000, false);
    still.update(1_000_000, 500_000, 100_000, &field());
    assert_eq!(still.get_x(), 100_000);
}

#[test]
fn random_enemy_shot_stays_near_aim() {
    let mut errors: Vec<i64> = Vec::new();
    for _ in 0..50 {
        let err = random_aim_error();
        assert!((-99_833..=99_833).contains(&err));
        errors.push(err);
    }
    assert!(errors.iter().any(|&e| e != errors[0]));
    let mut e = Enemy::new(100_000, 100_000, false);
    e.cooldown = -1;
    let b = e.update(16_000, 500_000, 100_000, &field()).expect("a shot");
    let h = b.get_heading();
    assert!(h.x > 990_000);
    assert!(h.y.abs() <= 99_833);
}

#[test]
fn update_cooldown_refills_an_empty_burst() {
    let mut p = Player::new(0, 0);
    p.shots = 0;
    p.update_cooldown(16_000);
    assert_eq!(p.get_shots(), 6);
    assert_eq!(p.get_burst_cooldown(), 1_000_000);
    assert_eq!(p.get_shot_cooldown(), 0);
}

#[test]
fn enemy_cooldown_runs_out_after_a_long_tick() {
    let mut e = Enemy::new(100_000, 100_000, false);
    assert!(e.update_with_error(u64::MAX, 100_000, 500_000, &field(), 0).is_none());
    assert!(e.can_shoot());
    assert!(e.update_with_error(16_000, 100_000, 500_000, &field(), 0).is_some());
}

#[test]
fn one_draw_in_five_grants_forward_movement() {
    assert!(forward_of(0));
    for d in 1..5u64 {
        assert!(!forward_of(d));
    }
    let flags: Vec<bool> = (0..400).map(|_| random_forward()).collect();
    assert!(flags.iter().any(|&f| f));
    assert!(flags.iter().any(|&f| !f));
}

#[test]
fn aim_error_draws_cover_the_error_range() {
    assert_eq!(aim_error_of(0), -99_833);
    assert_eq!(aim_error_of(99_833), 0);
    assert_eq!(aim_error_of(199_666), 99_833);
}
