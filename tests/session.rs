use hit_and_run::bullet::Bullet;
use hit_and_run::game::{Game, Key};
use hit_and_run::vector::Vector;

const TICK: u64 = 16_667;

fn game() -> Game {
    Game::new(600_000, 600_000)
}

#[test]
fn new_game_is_empty_with_player_centered() {
    let g = game();
    assert_eq!(g.get_player().get_x(), 300_000);
    assert_eq!(g.get_player().get_y(), 300_000);
    assert_eq!(g.get_score(), 0);
    assert_eq!(g.get_level(), 1);
    assert_eq!(g.get_kills(), 0);
    assert!(!g.get_game_over());
    assert!(g.get_enemies().is_empty());
    assert!(g.get_player_bullets().is_empty());
    assert!(g.get_enemy_bullets().is_empty());
}

#[test]
fn spawned_enemies_are_inside_the_field() {
    let mut g = game();
    for _ in 0..100 {
        g.add_enemy();
    }
    assert_eq!(g.get_enemies().len(), 100);
    let x0 = g.get_enemies()[0].get_x();
    let y0 = g.get_enemies()[0].get_y();
    assert!(g.get_enemies().iter().any(|e| e.get_x() != x0));
    assert!(g.get_enemies().iter().any(|e| e.get_y() != y0));
    assert!(g.get_enemies().iter().any(|e| e.get_x() != 0));
    for e in g.get_enemies() {
        assert!(e.get_x() >= 0 && e.get_x() <= 600_000);
        assert!(e.get_y() >= 0 && e.get_y() <= 600_000);
        assert_eq!(e.get_health(), 5);
    }
}

#[test]
fn empty_field_spawns_at_origin() {
    let mut g = Game::new(0, 0);
    g.add_enemy();
    assert_eq!(g.get_enemies()[0].get_x(), 0);
    assert_eq!(g.get_enemies()[0].get_y(), 0);
}

#[test]
fn friendly_bullet_leaving_field_is_pruned() {
    let mut g = game();
    g.player_bullets.push(Bullet::new(-5, 100_000, Vector::new(-1_000_000, 0), true));
    g.player_bullets.push(Bullet::new(100_000, 100_000, Vector::new(1_000_000, 0), true));
    g.on_update(TICK);
    assert_eq!(g.get_player_bullets().len(), 1);
    assert_eq!(g.get_player_bullets()[0].get_y(), 100_000);
    assert!(g.get_player_bullets()[0].get_x() > 100_000);
}

#[test]
fn hostile_bullet_bounces_and_stays() {
    let mut g = game();
    g.enemy_bullets.push(Bullet::new(-5, 100_000, Vector::new(-1_000_000, 0), false));
    g.on_update(TICK);
    assert_eq!(g.get_enemy_bullets().len(), 1);
    assert_eq!(g.get_enemy_bullets()[0].get_heading(), Vector::new(1_000_000, 0));
}

#[test]
fn completing_a_level_leaves_one_enemy() {
    let mut g = game();
    g.add_enemy_at(100_000, 100_000, false);
    g.enemies[0].health = 1;
    g.player_bullets.push(Bullet::new(100_000, 100_000, Vector::new(1_000_000, 0), true));
    g.on_update(TICK);
    assert_eq!(g.get_score(), 1);
    assert_eq!(g.get_level(), 2);
    assert_eq!(g.get_kills(), 0);
    assert_eq!(g.get_enemies().len(), 1);
    assert_eq!(g.get_enemies()[0].get_health(), 5);
    assert_eq!(g.get_player().get_health(), 31);
    assert!(g.get_player_bullets().is_empty());
}

#[test]
fn a_kill_short_of_the_level_brings_two_enemies() {
    let mut g = game();
    g.level = 3;
    g.add_enemy_at(100_000, 100_000, false);
    g.add_enemy_at(500_000, 500_000, false);
    g.enemies[0].health = 1;
    g.player_bullets.push(Bullet::new(100_000, 100_000, Vector::new(1_000_000, 0), true));
    g.on_update(TICK);
    assert_eq!(g.get_score(), 1);
    assert_eq!(g.get_level(), 3);
    assert_eq!(g.get_kills(), 1);
    assert_eq!(g.get_enemies().len(), 3);
    assert_eq!(g.get_enemies()[0].get_x(), 500_000);
    assert_eq!(g.get_player().get_health(), 31);
}

#[test]
fn two_kills_in_one_tick_count_twice() {
    let mut g = game();
    g.level = 5;
    g.add_enemy_at(100_000, 100_000, false);
    g.add_enemy_at(500_000, 100_000, false);
    g.enemies[0].health = 1;
    g.enemies[1].health = 1;
    g.player_bullets.push(Bullet::new(100_000, 100_000, Vector::new(1_000_000, 0), true));
    g.player_bullets.push(Bullet::new(500_000, 100_000, Vector::new(1_000_000, 0), true));
    g.on_update(TICK);
    assert_eq!(g.get_score(), 2);
    assert_eq!(g.get_kills(), 2);
    assert_eq!(g.get_enemies().len(), 4);
    assert_eq!(g.get_player().get_health(), 32);
}

#[test]
fn a_bullet_hits_only_the_first_enemy_in_order() {
    let mut g = game();
    g.level = 5;
    g.add_enemy_at(100_000, 100_000, false);
    g.add_enemy_at(100_000, 100_000, false);
    g.player_bullets.push(Bullet::new(100_000, 100_000, Vector::new(1_000_000, 0), true));
    g.on_update(TICK);
    assert_eq!(g.get_enemies()[0].get_health(), 4);
    assert_eq!(g.get_enemies()[1].get_health(), 5);
    assert!(g.get_player_bullets().is_empty());
}

#[test]
fn six_hits_destroy_a_stationary_enemy() {
    let mut g = game();
    // one kill short of the level, so that the kill brings two enemies
    g.level = 2;
    g.add_enemy_at(0, 0, false);
    g.enemies[0].health = 6;
    g.on_mouse_mov(0, 0);
    g.on_key_press(Key::Space);
    let mut healths: Vec<u32> = vec![6];
    let mut ticks = 0;
    while g.get_score() == 0 && ticks < 2000 {
        g.on_update(TICK);
        ticks += 1;
        if g.get_score() == 0 {
            let h = g.get_enemies()[0].get_health();
            if h != *healths.last().unwrap() {
                healths.push(h);
            }
        }
    }
    assert_eq!(g.get_score(), 1);
    assert_eq!(healths, vec![6, 5, 4, 3, 2, 1]);
    assert_eq!(g.get_kills(), 1);
    assert_eq!(g.get_level(), 2);
    assert_eq!(g.get_enemies().len(), 2);
    for e in g.get_enemies() {
        assert_eq!(e.get_health(), 5);
    }
}

#[test]
fn game_over_freezes_then_reset_restores() {
    let mut g = game();
    g.add_enemy_at(100_000, 100_000, false);
    g.score = 7;
    g.level = 3;
    g.current_kills = 2;
    g.player.health = 1;
    g.enemy_bullets.push(Bullet::new(300_000, 300_000, Vector::new(1_000_000, 0), false));
    g.on_update(TICK);
    assert_eq!(g.get_player().get_health(), 0);
    assert!(g.get_game_over());
    for _ in 0..10 {
        g.on_update(TICK);
        g.on_mouse_mov(0, 0);
        g.on_key_press(Key::Space);
    }
    assert_eq!(g.get_score(), 7);
    assert_eq!(g.get_level(), 3);
    assert_eq!(g.get_kills(), 2);
    assert!(!g.get_player().get_shooting());
    assert_eq!(g.get_enemies().len(), 1);
    g.on_key_press(Key::R);
    assert!(!g.get_game_over());
    assert_eq!(g.get_player().get_health(), 30);
    assert_eq!(g.get_score(), 0);
    assert_eq!(g.get_level(), 1);
    assert_eq!(g.get_kills(), 0);
    assert_eq!(g.get_enemies().len(), 1);
    assert!(g.get_player_bullets().is_empty());
    assert!(g.get_enemy_bullets().is_empty());
}

#[test]
fn keys_start_and_stop_shooting() {
    let mut g = game();
    g.on_key_press(Key::Space);
    assert!(g.get_player().get_shooting());
    g.on_key_release(Key::Other);
    assert!(g.get_player().get_shooting());
    g.on_key_release(Key::Space);
    assert!(!g.get_player().get_shooting());
    g.on_key_press(Key::Other);
    assert!(!g.get_player().get_shooting());
}

#[test]
fn resize_changes_the_field() {
    let mut g = game();
    g.on_resize(800_000, 400_000);
    assert_eq!(g.get_dimensions().width, 800_000);
    assert_eq!(g.get_dimensions().height, 400_000);
    g.reset();
    assert_eq!(g.get_player().get_x(), 400_000);
    assert_eq!(g.get_player().get_y(), 200_000);
}

#[test]
fn enemies_fire_at_the_player() {
    let mut g = game();
    g.add_enemy_at(300_000, 100_000, false);
    g.enemies[0].cooldown = -1;
    g.on_update(TICK);
    assert_eq!(g.get_enemy_bullets().len(), 1);
    let b = g.get_enemy_bullets()[0];
    assert!(!b.get_friendly());
    assert!(b.get_heading().y > 990_000);
    assert!(!g.new_level());
}

#[test]
fn reset_clears_projectiles_and_recenters_player() {
    let mut g = game();
    g.add_enemy_at(100_000, 100_000, false);
    g.add_enemy_at(200_000, 100_000, false);
    g.player_bullets.push(Bullet::new(100_000, 100_000, Vector::new(1_000_000, 0), true));
    g.enemy_bullets.push(Bullet::new(50_000, 50_000, Vector::new(1_000_000, 0), false));
    g.on_mouse_mov(10_000, 10_000);
    g.on_key_press(Key::Space);
    for _ in 0..5 {
        g.on_update(TICK);
    }
    g.on_key_press(Key::R);
    assert!(g.get_player_bullets().is_empty());
    assert!(g.get_enemy_bullets().is_empty());
    assert_eq!(g.get_player().get_x(), 300_000);
    assert_eq!(g.get_player().get_y(), 300_000);
    assert_eq!(g.get_player().get_shots(), 6);
    assert_eq!(g.get_player().get_burst_cooldown(), 0);
    assert_eq!(g.get_player().get_shot_cooldown(), 0);
    assert!(g.get_player().get_shooting());
    assert_eq!(g.get_dimensions().width, 600_000);
    assert_eq!(g.get_enemies().len(), 1);
    let e = g.get_enemies()[0];
    assert!(e.get_x() >= 0 && e.get_x() < 600_000);
    assert!(e.get_y() >= 0 && e.get_y() < 600_000);
    assert_eq!(e.get_health(), 5);
}

#[test]
fn long_tick_counts_as_the_longest_one() {
    let mut g = game();
    g.on_mouse_mov(600_000, 300_000);
    g.on_update(u64::MAX);
    // at most 250 px/s for 1000 s, then held at the coordinate bound
    assert_eq!(g.get_player().get_x(), 300_000 + 250_000_000);
    assert!(!g.get_game_over());
}
