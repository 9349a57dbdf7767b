use asteroids::asteroid::{nearest_living, sort_by_distance, Asteroid, FRAGMENT_STEP, MIN_RADIUS};
use asteroids::bullet::Bullet;
use asteroids::drone::Drone;
use asteroids::explosions::Explosions;
use asteroids::geometry::{Compass, Vec2, TURN, UNIT};
use asteroids::lifecycle::keep_living;
use asteroids::mine::Mine;
use asteroids::particle::Particle;
use asteroids::random::Dice;
use asteroids::rocket::Rocket;
use asteroids::rockets::{target_for, Rockets};
use asteroids::ship::{Controls, Ship};

fn compass() -> Compass {
    let mut entries = Vec::new();
    for step in 0..TURN {
        let radians = step as f64 * std::f64::consts::TAU / TURN as f64;
        entries.push(Vec2::new(
            (radians.cos() * UNIT as f64).round() as i64,
            (radians.sin() * UNIT as f64).round() as i64,
        ));
    }
    Compass::new(entries).expect("a table of unit vectors is valid")
}

fn rock(x: i64, y: i64, size: u8) -> Asteroid {
    Asteroid::with_spin(Vec2::new(x, y), Vec2::new(0, 0), size, 0)
}

fn idle() -> Controls {
    Controls { left: false, right: false, thrust: false, brake: false }
}

fn length(v: Vec2) -> f64 {
    ((v.x as f64).powi(2) + (v.y as f64).powi(2)).sqrt()
}

#[test]
fn large_asteroid_breaks_into_as_many_fragments_as_its_size() {
    let compass = compass();
    let dice = Dice::new(3);
    for size in 2..=5u8 {
        let mut parent = rock(1_000, -2_000, size);
        let mut pending = Vec::new();
        parent.destroy(&mut pending, &compass, &dice);
        assert!(!parent.is_alive());
        assert_eq!(pending.len(), size as usize);
        for child in &pending {
            assert_eq!(child.size(), size - 1);
            assert!(child.is_alive());
            let away = child.position().minus(parent.position());
            let distance = length(away);
            assert!((distance - (size as i64 * MIN_RADIUS) as f64).abs() < 100.0);
            assert!((length(child.velocity) - 100_000.0).abs() < 200.0);
        }
    }
}

#[test]
fn fragments_stand_a_fifth_of_a_turn_apart() {
    let compass = compass();
    let dice = Dice::new(3);
    let mut parent = rock(0, 0, 3);
    let mut pending = Vec::new();
    parent.destroy_along(&mut pending, &compass, 0, &dice);
    assert_eq!(FRAGMENT_STEP * 5, TURN);
    assert_eq!(pending.len(), 3);
    assert_eq!(pending[0].position(), Vec2::new(75_000, 0));
    assert_eq!(pending[0].velocity, Vec2::new(100_000, 0));
    assert_eq!(pending[1].position(), Vec2::new(23_175, 71_325));
    assert_eq!(pending[1].velocity, Vec2::new(30_900, 95_100));
    assert_eq!(pending[2].position(), Vec2::new(-60_675, 44_100));
    assert_eq!(pending[2].velocity, Vec2::new(-80_900, 58_800));
    for child in &pending {
        assert_eq!(child.size(), 2);
        assert_eq!(child.angle, 0);
        assert!((-3_000..3_000).contains(&child.rotation_speed));
    }
}

#[test]
fn fragments_follow_the_offset() {
    let compass = compass();
    let dice = Dice::new(3);
    let mut parent = rock(10_000, 10_000, 2);
    let mut pending = vec![rock(1, 1, 1)];
    parent.destroy_along(&mut pending, &compass, TURN - FRAGMENT_STEP, &dice);
    assert_eq!(pending.len(), 3);
    assert_eq!(pending[0], rock(1, 1, 1));
    assert_eq!(pending[1].position(), Vec2::new(10_000 + 15_450, 10_000 - 47_550));
    assert_eq!(pending[2].position(), Vec2::new(60_000, 10_000));
}

#[test]
fn smallest_asteroid_leaves_no_fragment() {
    let compass = compass();
    let dice = Dice::new(3);
    let mut parent = rock(0, 0, 1);
    let mut pending = Vec::new();
    parent.destroy(&mut pending, &compass, &dice);
    assert!(!parent.is_alive());
    assert!(pending.is_empty());
}

#[test]
fn destroying_twice_gives_fragments_once() {
    let compass = compass();
    let dice = Dice::new(3);
    let mut parent = rock(0, 0, 4);
    let mut pending = Vec::new();
    parent.destroy(&mut pending, &compass, &dice);
    let once = pending.clone();
    let dead = parent;
    parent.destroy(&mut pending, &compass, &dice);
    assert_eq!(pending, once);
    assert_eq!(parent, dead);
    assert_eq!(pending.len(), 4);
}

#[test]
fn despawned_asteroid_leaves_nothing() {
    let mut asteroid = rock(5, 5, 4);
    asteroid.despawn();
    assert!(!asteroid.is_alive());
    assert_eq!(asteroid.size(), 4);
}

#[test]
fn new_asteroid_moves_at_full_speed_along_its_heading() {
    let dice = Dice::new(11);
    let mut sizes = [false; 6];
    for _ in 0..500 {
        let asteroid = Asteroid::new(Vec2::new(7, 8), Vec2::new(600, -800), &dice);
        assert_eq!(asteroid.position(), Vec2::new(7, 8));
        assert_eq!(asteroid.velocity, Vec2::new(60_000, -80_000));
        assert!(asteroid.is_alive());
        assert!((1..=4).contains(&asteroid.size()));
        assert!((-3_000..3_000).contains(&asteroid.rotation_speed));
        sizes[asteroid.size() as usize] = true;
    }
    assert_eq!(sizes, [false, true, true, true, true, false]);
}

#[test]
fn smaller_asteroid_keeps_what_it_is_given() {
    let dice = Dice::new(11);
    let asteroid = Asteroid::new_smaller(Vec2::new(1, 2), Vec2::new(-3, 4), 2, &dice);
    assert_eq!(asteroid.position(), Vec2::new(1, 2));
    assert_eq!(asteroid.velocity, Vec2::new(-3, 4));
    assert_eq!(asteroid.size(), 2);
    assert_eq!(asteroid.radius(), 50_000);
    assert!(asteroid.is_alive());
}

#[test]
fn asteroid_drifts_and_spins() {
    let mut asteroid = Asteroid::with_spin(Vec2::new(0, 0), Vec2::new(100_000, -50_000), 1, -2_000);
    asteroid.update(16);
    assert_eq!(asteroid.position(), Vec2::new(1_600, -800));
    assert_eq!(asteroid.angle, TURN - 32);
    asteroid.update(1_000);
    assert_eq!(asteroid.position(), Vec2::new(101_600, -50_800));
    assert_eq!(asteroid.angle, TURN - 2_032);
}

#[test]
fn asteroids_touch_within_the_sum_of_their_radii() {
    let small = rock(0, 0, 1);
    let large = rock(100_000, 0, 3);
    assert!(small.collision(&large));
    assert!(large.collision(&small));
    let apart = rock(100_001, 0, 3);
    assert!(!small.collision(&apart));
    assert!(!apart.collision(&small));
}

#[test]
fn sorting_puts_the_nearest_first() {
    let mut asteroids = vec![rock(300, 0, 1), rock(0, -100, 2), rock(-200, 0, 3), rock(0, 100, 4)];
    sort_by_distance(&mut asteroids, Vec2::new(0, 0));
    let sizes: Vec<u8> = asteroids.iter().map(|a| a.size()).collect();
    assert_eq!(sizes, vec![2, 4, 3, 1]);
    sort_by_distance(&mut asteroids, Vec2::new(300, 0));
    assert_eq!(asteroids[0].size(), 1);
    assert_eq!(asteroids[3].size(), 3);
    let mut none: Vec<Asteroid> = Vec::new();
    sort_by_distance(&mut none, Vec2::new(0, 0));
    assert!(none.is_empty());
}

#[test]
fn nearest_living_skips_the_dead() {
    let mut near = rock(10, 0, 1);
    near.despawn();
    let asteroids = vec![rock(50, 0, 1), near, rock(0, 30, 1), rock(0, -30, 1)];
    assert_eq!(nearest_living(&asteroids, Vec2::new(0, 0)), Some(2));
    assert_eq!(nearest_living(&Vec::new(), Vec2::new(0, 0)), None);
    assert_eq!(nearest_living(&vec![near], Vec2::new(0, 0)), None);
}

#[test]
fn bullet_lives_while_it_has_life() {
    let compass = compass();
    let mut bullet = Bullet::new(Vec2::new(0, 0), 0);
    assert!(bullet.alive());
    assert_eq!(bullet.life, 1_000);
    bullet.update(16, &compass);
    assert_eq!(bullet.position, Vec2::new(16_000, 0));
    assert_eq!(bullet.life, 984);
    assert!(bullet.alive());
    bullet.update(983, &compass);
    assert_eq!(bullet.life, 1);
    assert!(bullet.alive());
    bullet.update(1, &compass);
    assert_eq!(bullet.life, 0);
    assert!(!bullet.alive());
    bullet.update(500, &compass);
    assert!(!bullet.alive());
}

#[test]
fn destroyed_bullet_is_dead_at_once() {
    let compass = compass();
    let mut bullet = Bullet::new(Vec2::new(0, 0), 100);
    bullet.destroy();
    assert!(!bullet.alive());
    assert!(bullet.life <= 0);
    bullet.update(16, &compass);
    assert!(!bullet.alive());
}

#[test]
fn bullet_wraps_its_angle() {
    let bullet = Bullet::new(Vec2::new(0, 0), -1_570);
    assert_eq!(bullet.angle, 4_710);
    let compass = compass();
    let mut moving = bullet;
    moving.update(10, &compass);
    assert_eq!(moving.position, Vec2::new(0, -10_000));
}

#[test]
fn bullet_touches_a_disc_at_the_sum_of_radii() {
    let bullet = Bullet::new(Vec2::new(0, 0), 0);
    assert!(bullet.collision(Vec2::new(77_000, 0), 75_000));
    assert!(!bullet.collision(Vec2::new(77_001, 0), 75_000));
    assert!(bullet.collision(Vec2::new(0, -2_000), 0));
}

#[test]
fn particle_flies_and_fades() {
    let compass = compass();
    let mut particle = Particle::with_speed(Vec2::new(0, 0), 1_570, 100, 500_000);
    assert!(particle.is_alive());
    particle.update(20, &compass);
    assert_eq!(particle.position, Vec2::new(0, 10_000));
    assert_eq!(particle.life, 80);
    particle.update(80, &compass);
    assert!(!particle.is_alive());
    particle.update(80, &compass);
    assert_eq!(particle.life, 0);
    assert_eq!(particle.position, Vec2::new(0, 90_000));
}

#[test]
fn particle_without_life_is_dead_from_the_start() {
    let dice = Dice::new(5);
    let particle = Particle::new(Vec2::new(0, 0), 0, 0, &dice);
    assert!(!particle.is_alive());
    assert!((400_000..600_000).contains(&particle.speed));
}

#[test]
fn explosion_throws_twenty_particles_for_each_point_of_power() {
    let compass = compass();
    let dice = Dice::new(5);
    let mut explosions = Explosions::new();
    assert_eq!(explosions.particles_count(), 0);
    explosions.explode(Vec2::new(5, 6), 3, &dice);
    assert_eq!(explosions.particles_count(), 60);
    for particle in &explosions.particles {
        assert_eq!(particle.position, Vec2::new(5, 6));
        assert!((200..700).contains(&particle.life));
        assert!((400_000..600_000).contains(&particle.speed));
        assert!((0..TURN).contains(&particle.angle));
    }
    explosions.explode(Vec2::new(0, 0), 0, &dice);
    assert_eq!(explosions.particles_count(), 60);
    explosions.update(199, &compass);
    assert_eq!(explosions.particles_count(), 60);
    explosions.update(501, &compass);
    assert_eq!(explosions.particles_count(), 0);
}

#[test]
fn sweeping_keeps_the_living_in_order() {
    let mut bullets = vec![
        Bullet::new(Vec2::new(1, 0), 0),
        Bullet::new(Vec2::new(2, 0), 0),
        Bullet::new(Vec2::new(3, 0), 0),
        Bullet::new(Vec2::new(4, 0), 0),
    ];
    bullets[0].destroy();
    bullets[2].destroy();
    keep_living(&mut bullets);
    assert_eq!(bullets.len(), 2);
    assert_eq!(bullets[0].position, Vec2::new(2, 0));
    assert_eq!(bullets[1].position, Vec2::new(4, 0));
    bullets[0].destroy();
    bullets[1].destroy();
    keep_living(&mut bullets);
    assert!(bullets.is_empty());
}

#[test]
fn mine_goes_off_at_the_sum_of_radii() {
    let mut mine = Mine::new(Vec2::new(0, 0));
    assert!(mine.is_alive());
    assert_eq!(mine.position(), Vec2::new(0, 0));
    assert!(mine.asteroid_collision(&rock(40_000, 0, 1)));
    assert!(!mine.asteroid_collision(&rock(40_001, 0, 1)));
    mine.destroy();
    assert!(!mine.is_alive());
}

#[test]
fn ship_starts_at_rest_heading_up() {
    let ship = Ship::new();
    assert_eq!(ship.position(), Vec2::new(0, 0));
    assert_eq!(ship.speed(), 0);
    assert_eq!(ship.angle, 4_710);
    assert_eq!(ship.rotation_speed, 0);
    assert_eq!(ship.particles_count(), 0);
}

#[test]
fn ship_gathers_speed_under_thrust() {
    let compass = compass();
    let dice = Dice::new(9);
    let mut ship = Ship::new();
    let controls = Controls { left: false, right: true, thrust: true, brake: false };
    ship.update(16, controls, &compass, &dice);
    assert_eq!(ship.rotation_speed, 224);
    assert_eq!(ship.angle, 4_713);
    assert_eq!(ship.speed(), 4_800);
    assert_eq!(ship.position(), Vec2::new(0, -76));
    assert_eq!(ship.particles_count(), 1);
    assert_eq!(ship.particles[0].position, Vec2::new(0, -76).plus(compass.unit(1_573).scaled(12_500)));
    assert!((100..200).contains(&ship.particles[0].life));
}

#[test]
fn ship_coasts_to_rest() {
    let compass = compass();
    let dice = Dice::new(9);
    let mut ship = Ship::new();
    ship.speed = 1_000;
    ship.rotation_speed = -100;
    ship.update(7, idle(), &compass, &dice);
    assert_eq!(ship.speed(), 300);
    assert_eq!(ship.rotation_speed, -30);
    ship.update(7, idle(), &compass, &dice);
    assert_eq!(ship.speed(), 0);
    assert_eq!(ship.rotation_speed, 0);
    ship.update(7, idle(), &compass, &dice);
    assert_eq!(ship.speed(), 0);
    assert_eq!(ship.rotation_speed, 0);
    assert_eq!(ship.particles_count(), 0);
}

#[test]
fn ship_brakes_harder_than_it_coasts() {
    let compass = compass();
    let dice = Dice::new(9);
    let mut ship = Ship::new();
    ship.speed = 10_000;
    ship.update(10, Controls { left: false, right: false, thrust: false, brake: true }, &compass, &dice);
    assert_eq!(ship.speed(), 7_000);
    ship.update(10, Controls { left: false, right: false, thrust: true, brake: true }, &compass, &dice);
    assert_eq!(ship.speed(), 10_000);
}

#[test]
fn ship_speeds_stay_within_their_limits() {
    let compass = compass();
    let dice = Dice::new(9);
    let mut ship = Ship::new();
    for frame in 0..3_000u32 {
        let controls = Controls {
            left: frame % 7 < 3,
            right: frame % 5 < 2 || frame > 2_000,
            thrust: frame % 11 < 9,
            brake: frame % 3 == 0,
        };
        let dt = if frame % 97 == 0 { u32::MAX } else { frame % 40 };
        ship.update(dt, controls, &compass, &dice);
        assert!((0..=300_000).contains(&ship.speed()));
        assert!((-7_000..=7_000).contains(&ship.rotation_speed));
        assert!((0..TURN).contains(&ship.angle));
    }
    let right = Controls { left: false, right: true, thrust: true, brake: false };
    ship.update(u32::MAX, right, &compass, &dice);
    assert_eq!(ship.speed(), 300_000);
    assert_eq!(ship.rotation_speed, 7_000);
    let left = Controls { left: true, right: false, thrust: false, brake: true };
    ship.update(u32::MAX, left, &compass, &dice);
    assert_eq!(ship.speed(), 0);
    assert_eq!(ship.rotation_speed, -7_000);
}

#[test]
fn ship_fires_from_its_nose() {
    let compass = compass();
    let dice = Dice::new(9);
    let mut ship = Ship::new();
    ship.position = Vec2::new(1_000, 1_000);
    ship.angle = 0;
    let bullet = ship.fire(&compass);
    assert_eq!(bullet.position, Vec2::new(13_500, 1_000));
    assert_eq!(bullet.angle, 0);
    assert_eq!(bullet.life, 1_000);
    let rocket = ship.launch_rocket(&compass);
    assert_eq!(rocket.position, Vec2::new(13_500, 1_000));
    assert_eq!(rocket.speed, 300_000);
    assert_eq!(rocket.accelerating_time, 700);
    assert!(rocket.is_alive());
    let mine = ship.spawn_mine();
    assert_eq!(mine.position(), Vec2::new(1_000, 1_000));
    let drone = ship.spawn_drone(&compass, &dice);
    assert_eq!(drone.position(), Vec2::new(1_000, 1_000));
    assert_eq!(drone.charge, 100_000_000);
    assert!((length(drone.target_offset) - 300_000.0).abs() < 400.0);
}

#[test]
fn ship_touches_an_asteroid_at_radius_and_height() {
    let ship = Ship::new();
    assert!(ship.asteroid_collision(&rock(0, 100_000, 3)));
    assert!(!ship.asteroid_collision(&rock(0, 100_001, 3)));
    assert!(ship.asteroid_collision(&rock(-50_000, 0, 1)));
    assert!(!ship.asteroid_collision(&rock(-50_001, 0, 1)));
}

#[test]
fn drone_charge_runs_down() {
    let compass = compass();
    let mut drone = Drone::with_offset(Vec2::new(0, 0), Vec2::new(300_000, 0));
    drone.update_with(1_000, Vec2::new(0, 0), &compass, Vec2::new(0, 300_000));
    assert_eq!(drone.charge, 99_500_000);
    assert_eq!(drone.reload_time, 500);
    assert_eq!(drone.speed, 120_000);
    assert!(!drone.is_fast_moving);
    drone.is_fast_moving = true;
    drone.update_with(1_000, Vec2::new(0, 0), &compass, Vec2::new(0, 300_000));
    assert_eq!(drone.charge, 97_000_000);
    assert_eq!(drone.reload_time, -500);
    assert_eq!(drone.speed, 600_000);
    drone.update_with(1_000, Vec2::new(0, 0), &compass, Vec2::new(0, 300_000));
    assert_eq!(drone.reload_time, -500);
}

#[test]
fn drone_charge_never_grows_and_death_is_final() {
    let compass = compass();
    let dice = Dice::new(13);
    let mut drone = Drone::new(Vec2::new(0, 0), &compass, &dice);
    let asteroids = vec![rock(50_000, 50_000, 1)];
    let mut was_dead = false;
    let mut last = drone.charge;
    for frame in 0..20_000u32 {
        if frame % 2 == 0 {
            drone.fire(&asteroids, &compass);
        }
        drone.update(frame % 50, Vec2::new(10_000, -10_000), &compass, &dice);
        assert!(drone.charge <= last);
        last = drone.charge;
        if was_dead {
            assert!(!drone.is_alive());
        }
        was_dead = !drone.is_alive();
    }
    assert!(was_dead);
}

#[test]
fn drone_charge_stops_at_its_floor() {
    let compass = compass();
    let mut drone = Drone::with_offset(Vec2::new(0, 0), Vec2::new(0, 0));
    drone.is_fast_moving = true;
    drone.update_with(u32::MAX, Vec2::new(0, 0), &compass, Vec2::new(0, 0));
    assert_eq!(drone.charge, 100_000_000 - 2_500 * u32::MAX as i64);
    assert!(!drone.is_alive());
    drone.position = Vec2::new(0, 0);
    let asteroids = vec![rock(50_000, 0, 1)];
    for _ in 0..3 {
        drone.reload_time = 0;
        drone.is_fast_moving = false;
        let before = drone.charge;
        assert!(drone.fire(&asteroids, &compass).is_some());
        assert_eq!(drone.charge, before - 5_000_000);
    }
    drone.charge = -20_000_000_000_000 + 1;
    drone.reload_time = 0;
    assert!(drone.fire(&asteroids, &compass).is_some());
    assert_eq!(drone.charge, -20_000_000_000_000);
}

#[test]
fn reloading_drone_never_fires() {
    let compass = compass();
    let mut drone = Drone::with_offset(Vec2::new(0, 0), Vec2::new(0, 0));
    assert_eq!(drone.reload_time, 1_500);
    for distance in [0, 1, 10_000, 499_999, 500_000, 5_000_000] {
        let asteroids = vec![rock(distance, 0, 1), rock(0, distance, 4)];
        let before = drone;
        assert_eq!(drone.fire(&asteroids, &compass), None);
        assert_eq!(drone, before);
    }
    drone.reload_time = 1;
    assert_eq!(drone.fire(&vec![rock(10, 0, 1)], &compass), None);
}

#[test]
fn fast_drone_never_fires() {
    let compass = compass();
    let mut drone = Drone::with_offset(Vec2::new(0, 0), Vec2::new(0, 0));
    drone.reload_time = 0;
    drone.is_fast_moving = true;
    let before = drone;
    assert_eq!(drone.fire(&vec![rock(10, 0, 1)], &compass), None);
    assert_eq!(drone, before);
}

#[test]
fn ready_drone_fires_at_the_nearest_asteroid() {
    let compass = compass();
    let mut drone = Drone::with_offset(Vec2::new(0, 0), Vec2::new(0, 0));
    drone.reload_time = 0;
    let asteroids = vec![rock(0, -200_000, 1), rock(100_000, 0, 1), rock(0, 150_000, 1)];
    let bullet = drone.fire(&asteroids, &compass).expect("the asteroid is in reach");
    assert_eq!(bullet.position, Vec2::new(5_000, 0));
    assert_eq!(bullet.angle, 0);
    assert_eq!(bullet.life, 1_000);
    assert_eq!(drone.reload_time, 1_500);
    assert_eq!(drone.charge, 95_000_000);
    assert_eq!(drone.fire(&asteroids, &compass), None);
}

#[test]
fn drone_aims_along_the_bearing() {
    let compass = compass();
    let mut drone = Drone::with_offset(Vec2::new(10_000, 10_000), Vec2::new(0, 0));
    drone.reload_time = -3;
    let bullet = drone.fire(&vec![rock(10_000, -90_000, 2)], &compass).expect("the asteroid is in reach");
    assert_eq!(bullet.angle, 4_710);
    assert_eq!(bullet.position, Vec2::new(10_000, 5_000));
}

#[test]
fn drone_holds_fire_beyond_its_reach() {
    let compass = compass();
    let mut drone = Drone::with_offset(Vec2::new(0, 0), Vec2::new(0, 0));
    drone.reload_time = 0;
    let before = drone;
    assert_eq!(drone.fire(&vec![rock(500_000, 0, 1)], &compass), None);
    assert_eq!(drone.fire(&Vec::new(), &compass), None);
    let mut dead = rock(10, 10, 1);
    dead.despawn();
    assert_eq!(drone.fire(&vec![dead], &compass), None);
    assert_eq!(drone, before);
    assert!(drone.fire(&vec![rock(499_999, 0, 1)], &compass).is_some());
}

#[test]
fn drone_flies_fast_when_far_and_slow_when_near() {
    let compass = compass();
    let target = Vec2::new(0, 0);
    let mut drone = Drone::with_offset(Vec2::new(600_000, 0), Vec2::new(0, 0));
    drone.update_with(0, target, &compass, Vec2::new(0, 0));
    assert!(drone.is_fast_moving);
    drone.position = Vec2::new(200_001, 0);
    drone.update_with(0, target, &compass, Vec2::new(0, 0));
    assert!(drone.is_fast_moving);
    drone.position = Vec2::new(200_000, 0);
    drone.update_with(0, target, &compass, Vec2::new(0, 0));
    assert!(!drone.is_fast_moving);
    drone.position = Vec2::new(599_999, 0);
    drone.update_with(0, target, &compass, Vec2::new(0, 0));
    assert!(!drone.is_fast_moving);
}

#[test]
fn drone_takes_a_new_offset_at_its_aim() {
    let compass = compass();
    let mut drone = Drone::with_offset(Vec2::new(105_000, 0), Vec2::new(100_000, 0));
    drone.update_with(0, Vec2::new(0, 0), &compass, Vec2::new(0, -300_000));
    assert_eq!(drone.target_offset, Vec2::new(0, -300_000));
    let mut away = Drone::with_offset(Vec2::new(105_001, 0), Vec2::new(100_000, 0));
    away.update_with(0, Vec2::new(0, 0), &compass, Vec2::new(0, -300_000));
    assert_eq!(away.target_offset, Vec2::new(100_000, 0));
}

#[test]
fn drone_turns_toward_its_aim() {
    let compass = compass();
    let mut drone = Drone::with_offset(Vec2::new(0, 0), Vec2::new(0, 100_000));
    drone.update_with(16, Vec2::new(0, 0), &compass, Vec2::new(0, 0));
    assert_eq!(drone.angle, 160);
    assert_eq!(drone.animation, 640);
    assert_eq!(drone.speed, 8_000);
    let mut other = Drone::with_offset(Vec2::new(0, 0), Vec2::new(0, -100_000));
    other.update_with(16, Vec2::new(0, 0), &compass, Vec2::new(0, 0));
    assert_eq!(other.angle, TURN - 160);
}

#[test]
fn drones_and_asteroids_touch_at_radius_and_half_size() {
    let mut drone = Drone::with_offset(Vec2::new(0, 0), Vec2::new(0, 0));
    assert!(drone.asteroid_collision(&rock(30_000, 0, 1)));
    assert!(!drone.asteroid_collision(&rock(30_001, 0, 1)));
    assert!(!drone.drone_collision(Vec2::new(10_001, 0)));
    assert!(drone.is_alive());
    assert!(drone.drone_collision(Vec2::new(0, 10_000)));
    assert!(!drone.is_alive());
    assert_eq!(drone.charge, 0);
}

#[test]
fn rocket_leaves_straight_before_it_turns() {
    let compass = compass();
    let mut rocket = Rocket::new(Vec2::new(0, 0), 0);
    rocket.update(Vec2::new(0, 500_000), 100, &compass);
    assert_eq!(rocket.angle, 0);
    assert_eq!(rocket.accelerating_time, 600);
    assert_eq!(rocket.speed, 380_000);
    assert_eq!(rocket.position, Vec2::new(38_000, 0));
    rocket.update(Vec2::new(0, 500_000), 600, &compass);
    assert_eq!(rocket.angle, 0);
    assert_eq!(rocket.accelerating_time, 0);
    rocket.update(Vec2::new(0, 500_000), 16, &compass);
    assert_eq!(rocket.angle, 80);
}

#[test]
fn rocket_speed_grows_to_its_limit() {
    let compass = compass();
    let mut rocket = Rocket::new(Vec2::new(0, 0), 0);
    let mut last = rocket.speed;
    for _ in 0..200 {
        rocket.update(Vec2::new(0, 0), 16, &compass);
        assert!(rocket.speed >= last);
        assert!(rocket.speed <= 2_000_000);
        last = rocket.speed;
    }
    assert_eq!(rocket.speed, 2_000_000);
    rocket.update(Vec2::new(0, 0), u32::MAX, &compass);
    assert_eq!(rocket.speed, 2_000_000);
}

#[test]
fn rocket_steering_flips_between_ahead_and_behind() {
    let compass = compass();
    let mut rocket = Rocket::new(Vec2::new(0, 0), 0);
    rocket.accelerating_time = 0;
    let mut behind = rocket;
    behind.update(Vec2::new(-100_000, 0), 16, &compass);
    assert_eq!(behind.angle, 80);
    let mut ahead = rocket;
    ahead.update(Vec2::new(100_000, 0), 16, &compass);
    assert_eq!(ahead.angle, TURN - 80);
    let mut left = rocket;
    left.update(Vec2::new(-100_000, 1), 16, &compass);
    assert_eq!(left.angle, 80);
    let mut right = rocket;
    right.update(Vec2::new(-100_000, -1), 16, &compass);
    assert_eq!(right.angle, TURN - 80);
    let mut on_target = rocket;
    on_target.update(Vec2::new(0, 0), 16, &compass);
    assert_eq!(on_target.angle, 80);
}

#[test]
fn rocket_touches_an_asteroid_at_radius_and_height() {
    let mut rocket = Rocket::new(Vec2::new(0, 0), 0);
    assert!(rocket.asteroid_collision(&rock(45_000, 0, 1)));
    assert!(!rocket.asteroid_collision(&rock(45_001, 0, 1)));
    rocket.destroy();
    assert!(!rocket.is_alive());
}

#[test]
fn rocket_exhaust_starts_at_the_tail() {
    let compass = compass();
    let dice = Dice::new(21);
    let rocket = Rocket::new(Vec2::new(0, 0), 0);
    for _ in 0..100 {
        let particle = rocket.spawn_particle(&compass, &dice);
        assert_eq!(particle.position, Vec2::new(-10_000, 0));
        assert!((100..200).contains(&particle.life));
        assert!((3_140 - 628..3_140 + 628).contains(&particle.angle));
    }
}

#[test]
fn rockets_make_for_asteroids_by_rank() {
    let asteroids = vec![rock(100, 0, 1), rock(200, 0, 1), rock(300, 0, 1)];
    assert_eq!(target_for(&asteroids, 0), Vec2::new(100, 0));
    assert_eq!(target_for(&asteroids, 1), Vec2::new(200, 0));
    assert_eq!(target_for(&asteroids, 2), Vec2::new(300, 0));
    assert_eq!(target_for(&asteroids, 3), Vec2::new(300, 0));
    assert_eq!(target_for(&asteroids, 99), Vec2::new(300, 0));
    assert_eq!(target_for(&Vec::new(), 0), Vec2::new(0, 0));
    assert_eq!(target_for(&Vec::new(), 5), Vec2::new(0, 0));
}

#[test]
fn swarm_sorts_the_asteroids_and_flies_each_rocket_to_its_own() {
    let compass = compass();
    let dice = Dice::new(21);
    let ship = Ship::new();
    let mut swarm = Rockets::new();
    for _ in 0..4 {
        let mut rocket = Rocket::new(Vec2::new(0, 0), 0);
        rocket.accelerating_time = 0;
        swarm.push(rocket);
    }
    let mut dead = Rocket::new(Vec2::new(0, 0), 0);
    dead.destroy();
    swarm.rockets.insert(1, dead);
    assert_eq!(swarm.len(), 5);
    let mut asteroids = vec![rock(0, -300_000, 3), rock(0, 100_000, 1), rock(0, -200_000, 2)];
    swarm.update(&mut asteroids, &ship, 16, &compass, &dice);
    let sizes: Vec<u8> = asteroids.iter().map(|a| a.size()).collect();
    assert_eq!(sizes, vec![1, 2, 3]);
    assert_eq!(swarm.len(), 4);
    assert_eq!(swarm.rockets[0].angle, 80);
    assert_eq!(swarm.rockets[1].angle, TURN - 80);
    assert_eq!(swarm.rockets[2].angle, TURN - 80);
    assert_eq!(swarm.rockets[3].angle, TURN - 80);
    assert_eq!(swarm.particles_count(), 4);
    let mut none = Vec::new();
    swarm.update(&mut none, &ship, 16, &compass, &dice);
    assert_eq!(swarm.particles_count(), 8);
}

#[test]
fn rockets_beyond_the_asteroids_make_for_the_farthest() {
    let compass = compass();
    let dice = Dice::new(21);
    let ship = Ship::new();
    let mut swarm = Rockets::new();
    for _ in 0..3 {
        let mut rocket = Rocket::new(Vec2::new(0, 0), 0);
        rocket.accelerating_time = 0;
        swarm.push(rocket);
    }
    let mut asteroids = vec![rock(0, 300_000, 3), rock(0, -100_000, 1)];
    swarm.update(&mut asteroids, &ship, 16, &compass, &dice);
    assert_eq!(swarm.rockets[0].angle, TURN - 80);
    assert_eq!(swarm.rockets[1].angle, 80);
    assert_eq!(swarm.rockets[2].angle, 80);
}

#[test]
fn swarm_rockets_destroy_what_they_touch() {
    let compass = compass();
    let dice = Dice::new(21);
    let mut swarm = Rockets::new();
    swarm.push(Rocket::new(Vec2::new(0, 0), 0));
    swarm.push(Rocket::new(Vec2::new(500_000, 0), 0));
    swarm.push(Rocket::new(Vec2::new(10_000, 0), 0));
    let mut asteroid = rock(50_000, 0, 2);
    let mut pending = Vec::new();
    let mut explosions = Explosions::new();
    swarm.asteroid_collision(&mut asteroid, &mut pending, &mut explosions, &compass, &dice);
    assert!(!asteroid.is_alive());
    assert!(!swarm.rockets[0].is_alive());
    assert!(swarm.rockets[1].is_alive());
    assert!(!swarm.rockets[2].is_alive());
    assert_eq!(pending.len(), 2);
    assert_eq!(explosions.particles_count(), 2 * 2 * 20);
    let mut far = rock(0, 900_000, 2);
    swarm.asteroid_collision(&mut far, &mut pending, &mut explosions, &compass, &dice);
    assert!(far.is_alive());
    assert_eq!(pending.len(), 2);
    assert_eq!(explosions.particles_count(), 80);
}
