use hit_and_run::motion::{move_by, muzzle_exec, velocity_exec};
use hit_and_run::vector::{div_toward_zero, heading_toward, isqrt, step_along, turn, Field, Vector};

#[test]
fn vector_new_and_reset() {
    let mut v = Vector::new(3, -4);
    assert_eq!(v.x, 3);
    assert_eq!(v.y, -4);
    v.reset();
    assert_eq!(v, Vector::new(0, 0));
}

#[test]
fn vector_distance_is_euclidean() {
    let a = Vector::new(0, 0);
    let b = Vector::new(3000, 4000);
    assert_eq!(a.dist(&b), 5000);
    assert_eq!(b.dist(&a), 5000);
    // rounded down
    assert_eq!(Vector::new(0, 0).dist(&Vector::new(1, 1)), 1);
    assert_eq!(Vector::new(0, 0).dist(&Vector::new(-2, -2)), 2);
}

#[test]
fn integer_square_root() {
    assert_eq!(isqrt(0), 0);
    assert_eq!(isqrt(1), 1);
    assert_eq!(isqrt(15), 3);
    assert_eq!(isqrt(16), 4);
    assert_eq!(isqrt(8_000_000_000_000_000_000_000_000), 2_828_427_124_746);
}

#[test]
fn division_rounds_toward_zero() {
    assert_eq!(div_toward_zero(7, 2), 3);
    assert_eq!(div_toward_zero(-7, 2), -3);
    assert_eq!(div_toward_zero(0, 5), 0);
}

#[test]
fn heading_of_a_three_four_five_triangle() {
    assert_eq!(heading_toward(3, 4), Vector::new(600_000, 800_000));
    assert_eq!(heading_toward(-3, 4), Vector::new(-600_000, 800_000));
    assert_eq!(heading_toward(0, -7), Vector::new(0, -1_000_000));
}

#[test]
fn step_at_player_speed() {
    // 250 pixels per second for one second along x
    assert_eq!(step_along(250, 1_000_000, 1_000_000), 250_000);
    assert_eq!(step_along(250, 1_000_000, -1_000_000), -250_000);
    let v = velocity_exec(250, 1_000_000, &Vector::new(600_000, -800_000));
    assert_eq!(v, Vector::new(150_000, -200_000));
}

#[test]
fn turning_by_no_angle_keeps_heading() {
    assert_eq!(turn(Vector::new(600_000, 800_000), 0), Vector::new(600_000, 800_000));
    // a small turn changes the direction a little, counterclockwise for a positive sine
    let t = turn(Vector::new(1_000_000, 0), 99_833);
    assert_eq!(t.y, 99_833);
    assert!(t.x > 990_000 && t.x < 1_000_000);
}

#[test]
fn moving_pushes_back_from_edges() {
    let f = Field::new(600_000, 600_000);
    let p = move_by(&Vector::new(-10, 700_000), &Vector::new(5, 5), &f, 15_000);
    assert_eq!(p, Vector::new(-10 + 15_000 + 5, 700_000 - 15_000 + 5));
    let q = move_by(&Vector::new(100, 100), &Vector::new(5, -5), &f, 15_000);
    assert_eq!(q, Vector::new(105, 95));
}

#[test]
fn muzzle_is_at_body_edge() {
    let m = muzzle_exec(&Vector::new(1000, 1000), &Vector::new(0, -1_000_000), 25_000);
    assert_eq!(m, Vector::new(1000, -24_000));
}
