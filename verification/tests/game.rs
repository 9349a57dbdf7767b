use asteroids::asteroid::Asteroid;
use asteroids::bullet::Bullet;
use asteroids::drone::Drone;
use asteroids::console::Console;
use asteroids::collisions::{collide_asteroids, collide_bullets, collide_drones, merge_new_asteroids};
use asteroids::game::{Event, Game, Input};
use asteroids::geometry::{Compass, Vec2, TURN, UNIT};
use asteroids::mine::Mine;
use asteroids::rocket::Rocket;
use asteroids::ship::Controls;

fn compass() -> Compass {
    let mut entries = Vec::new();
    for step in 0..TURN {
        let radians = step as f64 * std::f64::consts::TAU / TURN as f64;
        entries.push(Vec2::new(
            (radians.cos() * UNIT as f64).round() as i64,
            (radians.sin() * UNIT as f64).round() as i64,
        ));
    }
    Compass::new(entries).expect("a table of unit vectors is valid")
}

fn game() -> Game {
    Game::new(compass(), 2024)
}

fn rock(x: i64, y: i64, size: u8) -> Asteroid {
    Asteroid::with_spin(Vec2::new(x, y), Vec2::new(0, 0), size, 0)
}

fn idle() -> Input {
    Input {
        controls: Controls { left: false, right: false, thrust: false, brake: false },
        fire: false,
        launch_rocket: false,
        spawn_drone: false,
        spawn_mine: false,
    }
}

fn length(v: Vec2) -> f64 {
    ((v.x as f64).powi(2) + (v.y as f64).powi(2)).sqrt()
}

#[test]
fn new_game_holds_a_ship_and_nothing_else() {
    let game = game();
    assert_eq!(game.ship.position(), Vec2::new(0, 0));
    assert!(game.bullets.is_empty());
    assert!(game.asteroids.is_empty());
    assert!(game.new_asteroids.is_empty());
    assert!(game.drones.is_empty());
    assert!(game.mines.is_empty());
    assert_eq!(game.rockets.len(), 0);
    assert_eq!(game.explosions.particles_count(), 0);
    assert_eq!(game.bullet_reload, 200);
    assert_eq!(game.rocket_reload, 500);
    assert_eq!(game.drone_reload, 1_000);
    assert_eq!(game.mine_reload, 600);
    assert_eq!(game.asteroid_generate_time, 1_000);
    assert!(!game.is_game_over());
    assert_eq!(game.camera_target(), Vec2::new(0, 0));
    assert_eq!(game.camera_span(), 1_000_000);
}

#[test]
fn bullet_at_the_radius_of_an_asteroid_destroys_it() {
    let mut game = game();
    game.asteroids.push(rock(1_000_000, 0, 3));
    game.bullets.push(Bullet::new(Vec2::new(1_000_000 - 75_000, 0), 0));
    game.process_collisions();
    assert!(!game.bullets[0].alive());
    assert_eq!(game.asteroids.len(), 4);
    assert!(!game.asteroids[0].is_alive());
    for fragment in &game.asteroids[1..] {
        assert!(fragment.is_alive());
        assert_eq!(fragment.size(), 2);
        let away = fragment.position().minus(Vec2::new(1_000_000, 0));
        assert!((length(away) - 75_000.0).abs() < 100.0);
    }
    assert!(game.new_asteroids.is_empty());
    assert_eq!(game.explosions.particles_count(), 3 * 20);
    assert!(!game.is_game_over());
    game.remove_objects();
    assert!(game.bullets.is_empty());
    assert_eq!(game.asteroids.len(), 3);
    assert_eq!(game.explosions.particles_count(), 60);
}

#[test]
fn bullet_beyond_reach_passes_by() {
    let mut game = game();
    game.asteroids.push(rock(1_000_000, 0, 3));
    game.bullets.push(Bullet::new(Vec2::new(1_000_000 - 77_001, 0), 0));
    game.process_collisions();
    assert!(game.bullets[0].alive());
    assert_eq!(game.asteroids.len(), 1);
    assert!(game.asteroids[0].is_alive());
    assert_eq!(game.explosions.particles_count(), 0);
}

#[test]
fn spent_bullet_still_strikes_what_it_touches() {
    let compass = compass();
    let dice = asteroids::random::Dice::new(1);
    let mut bullets = vec![Bullet::new(Vec2::new(0, 0), 0), Bullet::new(Vec2::new(900_000, 0), 0)];
    let mut rocks = vec![rock(20_000, 0, 1), rock(-20_000, 0, 1), rock(0, 400_000, 1)];
    let mut pending = Vec::new();
    let mut explosions = asteroids::explosions::Explosions::new();
    collide_bullets(&mut bullets, &mut rocks, &mut pending, &mut explosions, &compass, &dice);
    assert!(!bullets[0].alive());
    assert!(bullets[1].alive());
    assert!(!rocks[0].is_alive());
    assert!(!rocks[1].is_alive());
    assert!(rocks[2].is_alive());
    assert!(pending.is_empty());
    assert_eq!(explosions.particles_count(), 40);
}

#[test]
fn asteroid_just_inside_reach_of_the_ship_ends_the_game() {
    let mut game = game();
    game.asteroids.push(rock(25_000 + 50_000 - 1, 0, 2));
    game.process_collisions();
    assert!(game.is_game_over());
    assert_eq!(game.ship.position(), Vec2::new(0, 0));
    assert!(game.asteroids[0].is_alive());
}

#[test]
fn asteroid_just_outside_reach_of_the_ship_passes_by() {
    let mut game = game();
    game.asteroids.push(rock(25_000 + 50_000 + 1, 0, 2));
    game.asteroids.push(rock(0, -(25_000 + 125_000 + 1), 5));
    game.process_collisions();
    assert!(!game.is_game_over());
}

#[test]
fn asteroid_at_the_very_reach_of_the_ship_ends_the_game() {
    let mut game = game();
    game.asteroids.push(rock(0, 75_000, 2));
    game.process_collisions();
    assert!(game.is_game_over());
}

#[test]
fn game_over_stays() {
    let mut game = game();
    game.asteroids.push(rock(10_000, 0, 1));
    game.update(16, idle());
    assert!(game.is_game_over());
    game.asteroids.clear();
    for _ in 0..10 {
        game.update(16, idle());
        assert!(game.is_game_over());
    }
}

#[test]
fn touching_asteroids_destroy_each_other() {
    let mut game = game();
    game.asteroids.push(rock(500_000, 0, 2));
    game.asteroids.push(rock(600_000, 0, 2));
    game.asteroids.push(rock(500_000, 400_000, 1));
    game.process_collisions();
    assert!(!game.asteroids[0].is_alive());
    assert!(!game.asteroids[1].is_alive());
    assert!(game.asteroids[2].is_alive());
    assert_eq!(game.asteroids.len(), 3 + 4);
    assert_eq!(game.explosions.particles_count(), 2 * (40 + 40));
    game.remove_objects();
    assert_eq!(game.asteroids.len(), 5);
    assert_eq!(game.asteroids.iter().filter(|a| a.size() == 1).count(), 5);
}

#[test]
fn asteroids_apart_by_more_than_their_radii_pass() {
    let mut game = game();
    game.asteroids.push(rock(500_000, 0, 2));
    game.asteroids.push(rock(600_001, 0, 2));
    game.process_collisions();
    assert!(game.asteroids.iter().all(|a| a.is_alive()));
    assert_eq!(game.asteroids.len(), 2);
}

#[test]
fn mine_goes_off_under_an_asteroid() {
    let mut game = game();
    game.mines.push(Mine::new(Vec2::new(500_000, 0)));
    game.mines.push(Mine::new(Vec2::new(-500_000, 0)));
    game.asteroids.push(rock(540_000, 0, 1));
    game.process_collisions();
    assert!(!game.mines[0].is_alive());
    assert!(game.mines[1].is_alive());
    assert!(!game.asteroids[0].is_alive());
    assert_eq!(game.explosions.particles_count(), 20 + 8 * 20);
    assert_eq!(game.events, vec![Event::MineExploded(Vec2::new(500_000, 0))]);
    game.remove_objects();
    assert_eq!(game.mines.len(), 1);
    assert!(game.asteroids.is_empty());
}

#[test]
fn drone_and_asteroid_destroy_each_other() {
    let mut game = game();
    game.drones.push(Drone::with_offset(Vec2::new(0, 500_000), Vec2::new(0, 0)));
    game.drones.push(Drone::with_offset(Vec2::new(0, -500_000), Vec2::new(0, 0)));
    game.asteroids.push(rock(0, 530_000, 1));
    game.process_collisions();
    assert!(!game.drones[0].is_alive());
    assert!(game.drones[1].is_alive());
    assert!(!game.asteroids[0].is_alive());
    assert_eq!(game.explosions.particles_count(), 20 + 4 * 20);
    assert!(game.events.is_empty());
    game.remove_objects();
    assert_eq!(game.drones.len(), 1);
    assert_eq!(game.explosions.particles_count(), 20 + 4 * 20 + 4 * 20);
    assert_eq!(game.events, vec![Event::DroneDestroyed(Vec2::new(0, 500_000))]);
}

#[test]
fn touching_drones_destroy_each_other() {
    let mut drones = vec![
        Drone::with_offset(Vec2::new(0, 0), Vec2::new(0, 0)),
        Drone::with_offset(Vec2::new(500_000, 0), Vec2::new(0, 0)),
        Drone::with_offset(Vec2::new(0, 10_000), Vec2::new(0, 0)),
    ];
    collide_drones(&mut drones);
    assert!(!drones[0].is_alive());
    assert!(drones[1].is_alive());
    assert!(!drones[2].is_alive());
    let mut alone = vec![Drone::with_offset(Vec2::new(0, 0), Vec2::new(0, 0))];
    collide_drones(&mut alone);
    assert!(alone[0].is_alive());
}

#[test]
fn rocket_and_asteroid_destroy_each_other() {
    let mut game = game();
    game.rockets.push(Rocket::new(Vec2::new(500_000, 0), 0));
    game.rockets.push(Rocket::new(Vec2::new(-500_000, 0), 0));
    game.asteroids.push(rock(500_000, 70_000, 2));
    game.process_collisions();
    assert!(!game.rockets.rockets[0].is_alive());
    assert!(game.rockets.rockets[1].is_alive());
    assert_eq!(game.asteroids.len(), 3);
    assert_eq!(game.explosions.particles_count(), 40);
    game.update(0, idle());
    assert_eq!(game.rockets.len(), 1);
}

#[test]
fn far_asteroid_leaves_without_a_trace() {
    let mut game = game();
    game.asteroids.push(rock(10_000_000, 0, 4));
    game.asteroids.push(rock(0, 9_999_999, 4));
    game.process_collisions();
    assert!(!game.asteroids[0].is_alive());
    assert!(game.asteroids[1].is_alive());
    assert_eq!(game.asteroids.len(), 2);
    assert_eq!(game.explosions.particles_count(), 0);
    assert_eq!(game.events, vec![Event::AsteroidDespawned(Vec2::new(10_000_000, 0))]);
    game.remove_objects();
    assert_eq!(game.asteroids.len(), 1);
}

#[test]
fn collisions_say_whether_the_ship_was_touched() {
    let compass = compass();
    let dice = asteroids::random::Dice::new(1);
    let ship = asteroids::ship::Ship::new();
    let mut rocks = vec![rock(400_000, 0, 1), rock(0, 50_000, 1)];
    let mut swarm = asteroids::rockets::Rockets::new();
    let mut drones = Vec::new();
    let mut mines = Vec::new();
    let mut pending = Vec::new();
    let mut explosions = asteroids::explosions::Explosions::new();
    let mut events = Vec::new();
    let struck = collide_asteroids(
        &mut rocks,
        &ship,
        &mut swarm,
        &mut drones,
        &mut mines,
        &mut pending,
        &mut explosions,
        &mut events,
        &compass,
        &dice,
    );
    assert!(struck);
    rocks.pop();
    let missed = collide_asteroids(
        &mut rocks,
        &ship,
        &mut swarm,
        &mut drones,
        &mut mines,
        &mut pending,
        &mut explosions,
        &mut events,
        &compass,
        &dice,
    );
    assert!(!missed);
    assert!(events.is_empty());
}

#[test]
fn fragments_join_the_asteroids_last_first() {
    let mut rocks = vec![rock(1, 0, 1)];
    let mut pending = vec![rock(2, 0, 1), rock(3, 0, 1), rock(4, 0, 1)];
    merge_new_asteroids(&mut rocks, &mut pending);
    assert!(pending.is_empty());
    let places: Vec<i64> = rocks.iter().map(|a| a.position().x).collect();
    assert_eq!(places, vec![1, 4, 3, 2]);
}

#[test]
fn weapons_wait_for_their_reload() {
    let mut game = game();
    let mut input = idle();
    input.fire = true;
    game.update(100, input);
    assert_eq!(game.bullet_reload, 100);
    assert!(game.bullets.is_empty());
    game.update(100, input);
    assert_eq!(game.bullet_reload, 0);
    assert!(game.bullets.is_empty());
    game.update(100, input);
    assert_eq!(game.bullet_reload, 200);
    assert_eq!(game.bullets.len(), 1);
    assert_eq!(game.bullets[0].life, 900);
    assert_eq!(game.bullets[0].position, Vec2::new(0, -112_500));
    game.update(100, input);
    assert_eq!(game.bullet_reload, 100);
    assert_eq!(game.bullets.len(), 1);
    assert_eq!(game.rocket_reload, 100);
    assert_eq!(game.mine_reload, 200);
    assert_eq!(game.drone_reload, 600);
}

#[test]
fn released_weapon_stays_ready() {
    let mut game = game();
    for _ in 0..5 {
        game.update(300, idle());
    }
    assert_eq!(game.bullet_reload, -100);
    assert_eq!(game.rocket_reload, -100);
    assert_eq!(game.mine_reload, 0);
    assert_eq!(game.drone_reload, -200);
    let mut input = idle();
    input.launch_rocket = true;
    input.spawn_mine = true;
    input.spawn_drone = true;
    game.update(0, input);
    assert_eq!(game.rockets.len(), 1);
    assert_eq!(game.mines.len(), 1);
    assert_eq!(game.drones.len(), 1);
    assert_eq!(game.rocket_reload, 500);
    assert_eq!(game.mine_reload, 600);
    assert_eq!(game.drone_reload, 1_000);
    assert!(game.bullets.is_empty());
    assert_eq!(game.mines[0].position(), Vec2::new(0, 0));
}

#[test]
fn asteroids_arrive_one_by_one() {
    let mut game = game();
    game.update(500, idle());
    assert_eq!(game.asteroid_generate_time, 500);
    assert!(game.asteroids.is_empty());
    game.update(500, idle());
    assert_eq!(game.asteroid_generate_time, 0);
    assert!(game.asteroids.is_empty());
    assert!(game.events.is_empty());
    game.update(0, idle());
    assert_eq!(game.asteroid_generate_time, 1_000);
    assert_eq!(game.asteroids.len(), 1);
    let newcomer = game.asteroids[0];
    assert_eq!(game.events, vec![Event::AsteroidGenerated(newcomer.position())]);
    assert!((length(newcomer.position()) - 3_000_000.0).abs() < 3_000.0);
    assert!((length(newcomer.velocity) - 100_000.0).abs() < 200.0);
    assert!((1..=4).contains(&newcomer.size()));
    let inward = newcomer.position().x as f64 * newcomer.velocity.x as f64
        + newcomer.position().y as f64 * newcomer.velocity.y as f64;
    assert!(inward < 0.0);
    game.update(1_000, idle());
    assert!(game.events.is_empty());
    assert_eq!(game.asteroids.len(), 1);
    assert!((length(game.asteroids[0].position()) - 2_900_000.0).abs() < 3_000.0);
}

#[test]
fn drones_shoot_in_the_frame() {
    let mut game = game();
    let mut drone = Drone::with_offset(Vec2::new(0, 2_000_000), Vec2::new(0, 0));
    drone.reload_time = 0;
    game.drones.push(drone);
    game.asteroids.push(rock(100_000, 2_000_000, 1));
    game.update(0, idle());
    assert_eq!(game.bullets.len(), 1);
    assert_eq!(game.bullets[0].position, Vec2::new(5_000, 2_000_000));
    assert_eq!(game.drones[0].charge, 95_000_000);
    assert_eq!(game.drones[0].reload_time, 1_500);
}

#[test]
fn frame_leaves_only_the_living() {
    let mut game = game();
    let mut input = idle();
    input.fire = true;
    input.launch_rocket = true;
    input.spawn_drone = true;
    input.spawn_mine = true;
    input.controls.thrust = true;
    input.controls.left = true;
    for frame in 0..600u32 {
        game.update(16 + frame % 5, input);
        assert!(game.new_asteroids.is_empty());
        assert!(game.bullets.iter().all(|b| b.alive()));
        assert!(game.asteroids.iter().all(|a| a.is_alive()));
        assert!(game.drones.iter().all(|d| d.is_alive()));
        assert!(game.mines.iter().all(|m| m.is_alive()));
        assert!((0..=300_000).contains(&game.ship.speed()));
        assert!((-7_000..=7_000).contains(&game.ship.rotation_speed));
        assert_eq!(game.camera_span(), 1_000_000 + 2 * game.ship.speed());
        assert_eq!(game.camera_target(), game.ship.position());
    }
    assert!(!game.bullets.is_empty());
    assert!(game.rockets.len() > 0);
    assert!(!game.asteroids.is_empty() || game.explosions.particles_count() > 0);
}

#[test]
fn one_seed_gives_one_battle() {
    let mut first = game();
    let mut second = game();
    let mut input = idle();
    input.fire = true;
    input.controls.thrust = true;
    for _ in 0..300 {
        first.update(17, input);
        second.update(17, input);
    }
    assert_eq!(first.asteroids, second.asteroids);
    assert_eq!(first.bullets, second.bullets);
    assert_eq!(first.ship.position(), second.ship.position());
    assert_eq!(first.is_game_over(), second.is_game_over());
}

#[test]
fn console_keeps_its_newest_lines() {
    let mut console = Console::new();
    assert_eq!(console.len(), 0);
    for line in 0..10 {
        console.print(format!("line {}", line));
        assert_eq!(console.len(), line + 1);
    }
    assert_eq!(console.lines[0], "line 0");
    console.print(format!("line {}", 10));
    console.print(format!("line {}", 11));
    assert_eq!(console.len(), 10);
    assert_eq!(console.lines[0], "line 2");
    assert_eq!(console.lines[9], "line 11");
}

#[test]
fn frame_begins_without_events() {
    let mut game = game();
    game.asteroids.push(rock(10_000_000, 0, 1));
    game.process_collisions();
    assert_eq!(game.events.len(), 1);
    game.begin_frame();
    assert!(game.events.is_empty());
    assert_eq!(game.asteroids.len(), 1);
}

#[test]
fn weapons_leave_the_ship_when_reloaded() {
    let mut game = game();
    let mut input = idle();
    input.fire = true;
    input.spawn_mine = true;
    game.spawn_weapons(600, input);
    assert!(game.bullets.is_empty());
    assert!(game.mines.is_empty());
    assert_eq!(game.bullet_reload, -400);
    assert_eq!(game.mine_reload, 0);
    assert_eq!(game.rocket_reload, -100);
    game.spawn_weapons(600, input);
    assert_eq!(game.bullets.len(), 1);
    assert_eq!(game.mines.len(), 1);
    assert_eq!(game.bullets[0].position, Vec2::new(0, -12_500));
    assert_eq!(game.bullets[0].angle, 4_710);
    assert_eq!(game.bullet_reload, 200);
    assert_eq!(game.mine_reload, 600);
    assert_eq!(game.rocket_reload, -100);
    assert_eq!(game.rockets.len(), 0);
}

#[test]
fn quiet_frame_leaves_no_burst_and_no_fragment() {
    let mut game = game();
    game.asteroids.push(rock(1_000_000, 0, 4));
    game.asteroids.push(rock(-1_000_000, 0, 4));
    game.bullets.push(Bullet::new(Vec2::new(0, 500_000), 0));
    game.mines.push(Mine::new(Vec2::new(0, -500_000)));
    game.drones.push(Drone::with_offset(Vec2::new(300_000, 300_000), Vec2::new(0, 0)));
    game.rockets.push(Rocket::new(Vec2::new(-300_000, 300_000), 0));
    game.process_collisions();
    assert_eq!(game.asteroids.len(), 2);
    assert_eq!(game.explosions.particles_count(), 0);
    assert!(game.events.is_empty());
    assert!(game.bullets[0].alive());
    assert!(game.mines[0].is_alive());
    assert!(game.drones[0].is_alive());
    assert!(game.rockets.rockets[0].is_alive());
    assert!(!game.is_game_over());
}
