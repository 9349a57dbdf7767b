use asteroids::geometry::{clamp_to, div_toward_zero, steer, wrap_angle, Compass, Vec2, TURN, UNIT, WORLD};
use asteroids::random::Dice;

fn table() -> Vec<Vec2> {
    let mut entries = Vec::new();
    for step in 0..TURN {
        let radians = step as f64 * std::f64::consts::TAU / TURN as f64;
        entries.push(Vec2::new(
            (radians.cos() * UNIT as f64).round() as i64,
            (radians.sin() * UNIT as f64).round() as i64,
        ));
    }
    entries
}

fn compass() -> Compass {
    Compass::new(table()).expect("a table of unit vectors is valid")
}

#[test]
fn division_rounds_toward_zero() {
    assert_eq!(div_toward_zero(7, 2), 3);
    assert_eq!(div_toward_zero(-7, 2), -3);
    assert_eq!(div_toward_zero(-1, 1000), 0);
    assert_eq!(div_toward_zero(0, 5), 0);
}

#[test]
fn clamp_holds_value_in_range() {
    assert_eq!(clamp_to(5, 0, 10), 5);
    assert_eq!(clamp_to(-5, 0, 10), 0);
    assert_eq!(clamp_to(15, 0, 10), 10);
}

#[test]
fn angles_wrap_into_one_turn() {
    assert_eq!(wrap_angle(0), 0);
    assert_eq!(wrap_angle(TURN), 0);
    assert_eq!(wrap_angle(TURN + 5), 5);
    assert_eq!(wrap_angle(-1), TURN - 1);
    assert_eq!(wrap_angle(-TURN), 0);
    assert_eq!(wrap_angle(-TURN - 1), TURN - 1);
    assert_eq!(wrap_angle(3 * TURN + 17), 17);
    assert_eq!(wrap_angle(i64::MIN), i64::MIN.rem_euclid(TURN));
    assert_eq!(wrap_angle(i64::MAX), i64::MAX.rem_euclid(TURN));
}

#[test]
fn reach_counts_the_boundary_in() {
    let origin = Vec2::new(0, 0);
    assert!(origin.reaches(Vec2::new(3, 4), 5));
    assert!(!origin.reaches(Vec2::new(3, 4), 4));
    assert!(!origin.inside(Vec2::new(3, 4), 5));
    assert!(origin.inside(Vec2::new(3, 4), 6));
    assert_eq!(origin.distance_squared(Vec2::new(-3, 4)), 25);
}

#[test]
fn distance_fits_at_the_corners_of_the_world() {
    let low = Vec2::new(-WORLD, -WORLD);
    let high = Vec2::new(WORLD, WORLD);
    assert_eq!(low.distance_squared(high), 8_000_000_000_000_000_000);
    assert!(!low.reaches(high, WORLD));
}

#[test]
fn scaling_stretches_a_unit_vector() {
    assert_eq!(Vec2::new(1000, 0).scaled(25_000), Vec2::new(25_000, 0));
    assert_eq!(Vec2::new(-707, 707).scaled(1_000), Vec2::new(-707, 707));
    assert_eq!(Vec2::new(-707, 707).scaled(1_500), Vec2::new(-1_060, 1_060));
    assert_eq!(Vec2::new(600, -800).scaled(0), Vec2::new(0, 0));
}

#[test]
fn sums_stay_inside_the_world() {
    assert_eq!(Vec2::new(1, 2).plus(Vec2::new(10, -20)), Vec2::new(11, -18));
    assert_eq!(Vec2::new(WORLD, -WORLD).plus(Vec2::new(5, -5)), Vec2::new(WORLD, -WORLD));
    assert_eq!(Vec2::new(5, 7).minus(Vec2::new(8, 2)), Vec2::new(-3, 5));
}

#[test]
fn translation_follows_velocity_and_time() {
    let start = Vec2::new(100, 100);
    assert_eq!(start.translated(Vec2::new(1_000_000, -500_000), 16), Vec2::new(16_100, -7_900));
    assert_eq!(start.translated(Vec2::new(-1, 1), 999), Vec2::new(100, 100));
    assert_eq!(start.translated(Vec2::new(0, 0), u32::MAX), start);
    assert_eq!(
        Vec2::new(WORLD - 1, 0).translated(Vec2::new(2_000_000, 0), u32::MAX),
        Vec2::new(WORLD, 0)
    );
}

#[test]
fn signed_angle_is_positive_on_the_side_of_growing_angles() {
    let heading = Vec2::new(1000, 0);
    assert!(heading.angle_positive(Vec2::new(0, 5)));
    assert!(!heading.angle_positive(Vec2::new(0, -5)));
    assert!(!heading.angle_positive(Vec2::new(7, 0)));
    assert!(heading.angle_positive(Vec2::new(-7, 0)));
    assert!(!heading.angle_positive(Vec2::new(0, 0)));
}

#[test]
fn steering_turns_by_rate_and_time() {
    assert_eq!(steer(100, false, 5_000, 16), 180);
    assert_eq!(steer(100, true, 5_000, 16), 20);
    assert_eq!(steer(10, true, 5_000, 16), TURN - 70);
    assert_eq!(steer(TURN - 10, false, 5_000, 16), 70);
    assert_eq!(steer(0, false, -3_000, 1), TURN - 3);
    assert_eq!(steer(0, false, -999, 1), 0);
}

#[test]
fn compass_takes_only_a_full_table_of_unit_vectors() {
    assert!(Compass::new(table()).is_some());
    let mut short = table();
    short.pop();
    assert!(Compass::new(short).is_none());
    let mut long = table();
    long.push(Vec2::new(0, 0));
    assert!(Compass::new(long).is_none());
    let mut stretched = table();
    stretched[17] = Vec2::new(1001, 0);
    assert!(Compass::new(stretched).is_none());
    let mut sunk = table();
    sunk[6279] = Vec2::new(0, -1001);
    assert!(Compass::new(sunk).is_none());
    assert!(Compass::new(Vec::new()).is_none());
}

#[test]
fn compass_gives_the_unit_vector_of_an_angle() {
    let compass = compass();
    assert_eq!(compass.unit(0), Vec2::new(1000, 0));
    assert_eq!(compass.unit(1570), Vec2::new(0, 1000));
    assert_eq!(compass.unit(3140), Vec2::new(-1000, 0));
    assert_eq!(compass.unit(4710), Vec2::new(0, -1000));
    assert_eq!(compass.unit(785), Vec2::new(707, 707));
}

#[test]
fn bearing_points_along_the_vector() {
    let compass = compass();
    assert_eq!(compass.bearing(Vec2::new(0, 500)), 1570);
    assert_eq!(compass.bearing(Vec2::new(-3, 0)), 3140);
    assert_eq!(compass.bearing(Vec2::new(0, -2_000_000_000)), 4710);
    assert_eq!(compass.bearing(Vec2::new(1_000, 1_000)), 785);
    assert_eq!(compass.bearing(Vec2::new(0, 0)), 0);
}

#[test]
fn bearing_takes_the_angle_that_leans_least() {
    let compass = compass();
    assert_eq!(compass.bearing(Vec2::new(9, 0)), 0);
    assert_eq!(compass.bearing(Vec2::new(1_000_000, -1_000)), TURN - 1);
    assert_eq!(compass.bearing(Vec2::new(1_000_000, 1_000)), 1);
    assert_eq!(compass.bearing(Vec2::new(-1_000_000_000, 1_000_000_000)), 2_355);
}

#[test]
fn dice_stay_in_range() {
    let dice = Dice::new(42);
    let mut seen_low = false;
    let mut seen_other = false;
    for _ in 0..2_000 {
        let pick = dice.between(-3, 4);
        assert!((-3..4).contains(&pick));
        if pick == -3 {
            seen_low = true;
        } else {
            seen_other = true;
        }
        let angle = dice.angle();
        assert!((0..TURN).contains(&angle));
    }
    assert!(seen_low && seen_other);
}

#[test]
fn dice_draw_the_only_value_of_a_narrow_range() {
    let dice = Dice::new(1);
    for _ in 0..100 {
        assert_eq!(dice.between(1_048_575, 1_048_576), 1_048_575);
        assert_eq!(dice.between(-1_048_576, -1_048_575), -1_048_576);
    }
}

#[test]
fn dice_with_one_seed_repeat_themselves() {
    let first = Dice::new(7);
    let second = Dice::new(7);
    for _ in 0..50 {
        assert_eq!(first.between(0, 1_000), second.between(0, 1_000));
    }
}

#[test]
fn draw_lands_above_the_start_of_its_range() {
    assert_eq!(Dice::above(-3, 5), 2);
    assert_eq!(Dice::above(0, 0), 0);
    assert_eq!(Dice::above(1_048_575, 1), 1_048_576);
    assert_eq!(Dice::above(i64::MIN, u32::MAX), i64::MIN + 4_294_967_295);
    assert_eq!(Dice::above(i64::MAX - 7, 7), i64::MAX);
}
