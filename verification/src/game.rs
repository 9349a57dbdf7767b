//! The battle as a whole: what one frame does to it.

use vstd::prelude::*;

use crate::asteroid::{stably_sorted, Asteroid, MAX_ASTEROID_SIZE, MAX_MOVE_SPEED};
use crate::bullet::Bullet;
use crate::drone::{all_fired, all_sent, fire_all, Drone};
use crate::explosions::Explosions;
use crate::geometry::{wrap, wrap_angle, Compass, Vec2, HALF_TURN, TURN};
use crate::collisions::{
    all_crashed, all_met, all_shot, all_spent, collide_asteroids, collide_bullets, collide_drones,
    drones_met, explode_dead_drones, fragments_left, fragments_lost, lemma_quiet_after_shots,
    lemma_same_place_met, lemma_same_place_ship, merge_new_asteroids, mines_met, none_met, none_struck,
    power_of_shots, reports_of_pass, rockets_met, ship_struck, sparks_of_pass, DRONE_EXPLOSION_POWER,
};
use crate::lifecycle::{
    all_sound, extends, keep_living, lemma_extends_twice, lemma_living_came_from, lemma_living_sound, living,
};
use crate::mine::Mine;
use crate::random::Dice;
use crate::rocket::Rocket;
use crate::rockets::{all_flown, Rockets};
use crate::ship::{throttled, turned, Controls, Ship};

verus! {

/// Half the width of what the screen shows of the world when the ship is
/// at rest.
pub const DISPLAY_SCALE: i64 = 1_000_000;

/// Milliseconds between two bullets.
pub const BULLET_RELOAD: i64 = 200;

/// Milliseconds between two rockets.
pub const ROCKET_RELOAD: i64 = 500;

/// Milliseconds between two drones.
pub const DRONE_RELOAD: i64 = 1_000;

/// Milliseconds between two mines.
pub const MINE_RELOAD: i64 = 600;

/// Milliseconds between two new asteroids.
pub const ASTEROID_GENERATE_RATE: i64 = 1_000;

/// How far from the ship a new asteroid starts.
pub const ASTEROID_SPAWN_DISTANCE: i64 = 3_000_000;

/// What the player holds down in a frame.
#[derive(Clone, Copy, Debug, PartialEq, Eq, Structural)]
pub struct Input {
    pub controls: Controls,
    pub fire: bool,
    pub launch_rocket: bool,
    pub spawn_drone: bool,
    pub spawn_mine: bool,
}

/// What a frame reports to whoever watches the battle, each with the
/// place where it happened.
#[derive(Clone, Copy, Debug, PartialEq, Eq, Structural)]
pub enum Event {
    AsteroidGenerated(Vec2),
    AsteroidDespawned(Vec2),
    MineExploded(Vec2),
    DroneDestroyed(Vec2),
}

/// What a frame of `dt` milliseconds makes of a countdown, and whether it
/// lets its weapon go: a running countdown runs on; one that has run out
/// starts anew with the weapon's period when the key is held.
pub open spec fn counted(timer: int, dt: u32, held: bool, period: int) -> (int, bool) {
    if timer > 0 {
        (timer - dt, false)
    } else if held {
        (period, true)
    } else {
        (timer, false)
    }
}

/// A countdown never stands above its period, nor further below zero than
/// one frame can take it.
pub open spec fn timer_in_range(timer: int, period: int) -> bool {
    -(u32::MAX as int) <= timer <= period
}

/// Lets a frame of `dt` milliseconds pass over a countdown, and says
/// whether its weapon goes.
fn count_down(timer: &mut i64, dt: u32, held: bool, period: i64) -> (open: bool)
    requires
        timer_in_range(*old(timer) as int, period as int),
        0 < period,
    ensures
        (*final(timer) as int, open) == counted(*old(timer) as int, dt, held, period as int),
        timer_in_range(*final(timer) as int, period as int),
{
    if *timer > 0 {
        *timer = *timer - dt as i64;
        false
    } else if held {
        *timer = period;
        true
    } else {
        false
    }
}

pub struct Game {
    pub ship: Ship,
    pub bullets: Vec<Bullet>,
    pub bullet_reload: i64,
    pub explosions: Explosions,
    pub asteroids: Vec<Asteroid>,
    pub new_asteroids: Vec<Asteroid>,
    pub asteroid_generate_time: i64,
    pub rockets: Rockets,
    pub rocket_reload: i64,
    pub drones: Vec<Drone>,
    pub drone_reload: i64,
    pub mines: Vec<Mine>,
    pub mine_reload: i64,
    pub is_game_over: bool,
    pub events: Vec<Event>,
    pub compass: Compass,
    pub dice: Dice,
}

impl Game {
    pub open spec fn wf(&self) -> bool {
        &&& self.ship.wf()
        &&& all_sound(self.bullets@)
        &&& timer_in_range(self.bullet_reload as int, BULLET_RELOAD as int)
        &&& self.explosions.wf()
        &&& all_sound(self.asteroids@)
        &&& all_sound(self.new_asteroids@)
        &&& timer_in_range(self.asteroid_generate_time as int, ASTEROID_GENERATE_RATE as int)
        &&& self.rockets.wf()
        &&& timer_in_range(self.rocket_reload as int, ROCKET_RELOAD as int)
        &&& all_sound(self.drones@)
        &&& timer_in_range(self.drone_reload as int, DRONE_RELOAD as int)
        &&& all_sound(self.mines@)
        &&& timer_in_range(self.mine_reload as int, MINE_RELOAD as int)
        &&& self.compass.wf()
    }

    /// The four countdowns of the weapons: bullets, rockets, drones, mines.
    pub open spec fn reloads(&self) -> (i64, i64, i64, i64) {
        (self.bullet_reload, self.rocket_reload, self.drone_reload, self.mine_reload)
    }

    /// Every countdown of the battle: those of the weapons and that of the
    /// next asteroid.
    pub open spec fn clocks(&self) -> ((i64, i64, i64, i64), i64) {
        (self.reloads(), self.asteroid_generate_time)
    }

    /// `a` is a new asteroid for a ship at `ship`: it starts at the spawn
    /// distance in some direction and heads back along that line.
    pub open spec fn is_newcomer(a: Asteroid, ship: Vec2, compass: &Compass) -> bool {
        &&& a.is_alive
        &&& 1 <= a.size < MAX_ASTEROID_SIZE
        &&& a.wf()
        &&& exists|angle: int|
            0 <= angle < TURN && a.position == ship.plus_spec(
                (#[trigger] compass@[angle]).scaled_spec(ASTEROID_SPAWN_DISTANCE as int),
            ) && a.velocity == compass@[wrap(angle + HALF_TURN)].scaled_spec(MAX_MOVE_SPEED as int)
    }

    /// A fresh battle: the ship at rest at the origin and nothing else.
    pub fn new(compass: Compass, seed: u64) -> (r: Game)
        requires
            compass.wf(),
        ensures
            r.wf(),
            r.ship.position == (Vec2 { x: 0, y: 0 }),
            r.ship.speed == 0,
            r.ship.angle == TURN - TURN / 4,
            r.ship.rotation_speed == 0,
            r.ship.particles@.len() == 0,
            r.rockets.particles@.len() == 0,
            r.bullets@.len() == 0,
            r.asteroids@.len() == 0,
            r.new_asteroids@.len() == 0,
            r.rockets.rockets@.len() == 0,
            r.drones@.len() == 0,
            r.mines@.len() == 0,
            r.explosions.particles@.len() == 0,
            r.reloads() == (BULLET_RELOAD, ROCKET_RELOAD, DRONE_RELOAD, MINE_RELOAD),
            r.asteroid_generate_time == ASTEROID_GENERATE_RATE,
            !r.is_game_over,
            r.events@.len() == 0,
            r.compass@ == compass@,
    {
        Game {
            ship: Ship::new(),
            bullets: Vec::new(),
            bullet_reload: BULLET_RELOAD,
            explosions: Explosions::new(),
            asteroids: Vec::new(),
            new_asteroids: Vec::new(),
            asteroid_generate_time: ASTEROID_GENERATE_RATE,
            rockets: Rockets::new(),
            rocket_reload: ROCKET_RELOAD,
            drones: Vec::new(),
            drone_reload: DRONE_RELOAD,
            mines: Vec::new(),
            mine_reload: MINE_RELOAD,
            is_game_over: false,
            events: Vec::new(),
            compass,
            dice: Dice::new(seed),
        }
    }

    /// `after` is the battle at the start of a frame: as it was, with no
    /// events yet.
    pub open spec fn begun(&self, after: Game) -> bool {
        &&& after.events@.len() == 0
        &&& after.ship == self.ship
        &&& after.bullets == self.bullets
        &&& after.explosions == self.explosions
        &&& after.asteroids == self.asteroids
        &&& after.new_asteroids == self.new_asteroids
        &&& after.rockets == self.rockets
        &&& after.drones == self.drones
        &&& after.mines == self.mines
        &&& after.clocks() == self.clocks()
        &&& after.is_game_over == self.is_game_over
        &&& after.compass == self.compass
    }

    /// `after` is the battle once the countdown to the next asteroid has
    /// had its `dt` milliseconds: it has run on, or it has run out and a
    /// new asteroid has come.
    pub open spec fn generated(&self, dt: u32, after: Game) -> bool {
        &&& if self.asteroid_generate_time > 0 {
            &&& after.asteroid_generate_time == self.asteroid_generate_time - dt
            &&& after.asteroids@ == self.asteroids@
            &&& after.events@ == self.events@
        } else {
            &&& after.asteroid_generate_time == ASTEROID_GENERATE_RATE
            &&& after.asteroids@.len() == self.asteroids@.len() + 1
            &&& after.asteroids@.drop_last() == self.asteroids@
            &&& Self::is_newcomer(after.asteroids@.last(), self.ship.position, &self.compass)
            &&& after.events@ == self.events@.push(Event::AsteroidGenerated(after.asteroids@.last().position))
        }
        &&& after.ship == self.ship
        &&& after.bullets == self.bullets
        &&& after.explosions == self.explosions
        &&& after.new_asteroids == self.new_asteroids
        &&& after.rockets == self.rockets
        &&& after.drones == self.drones
        &&& after.mines == self.mines
        &&& after.reloads() == self.reloads()
        &&& after.is_game_over == self.is_game_over
        &&& after.compass == self.compass
    }

    /// `after` is the battle once the weapons have had their `dt`
    /// milliseconds: each countdown has run on or started anew, and each
    /// weapon whose countdown started anew has left the ship.
    pub open spec fn armed(&self, dt: u32, input: Input, after: Game) -> bool {
        let bullet = counted(self.bullet_reload as int, dt, input.fire, BULLET_RELOAD as int);
        let rocket = counted(self.rocket_reload as int, dt, input.launch_rocket, ROCKET_RELOAD as int);
        let drone = counted(self.drone_reload as int, dt, input.spawn_drone, DRONE_RELOAD as int);
        let mine = counted(self.mine_reload as int, dt, input.spawn_mine, MINE_RELOAD as int);
        &&& after.bullet_reload == bullet.0
        &&& after.rocket_reload == rocket.0
        &&& after.drone_reload == drone.0
        &&& after.mine_reload == mine.0
        &&& after.bullets@ == if bullet.1 {
            self.bullets@.push(self.ship.fired_bullet(&self.compass))
        } else {
            self.bullets@
        }
        &&& after.rockets.rockets@ == if rocket.1 {
            self.rockets.rockets@.push(self.ship.launched_rocket(&self.compass))
        } else {
            self.rockets.rockets@
        }
        &&& after.rockets.particles == self.rockets.particles
        &&& if drone.1 {
            &&& after.drones@.len() == self.drones@.len() + 1
            &&& after.drones@.drop_last() == self.drones@
            &&& self.ship.is_spawned_drone(after.drones@.last(), &self.compass)
        } else {
            after.drones@ == self.drones@
        }
        &&& after.mines@ == if mine.1 {
            self.mines@.push(Mine { position: self.ship.position, is_alive: true })
        } else {
            self.mines@
        }
        &&& after.ship == self.ship
        &&& after.explosions == self.explosions
        &&& after.asteroids == self.asteroids
        &&& after.new_asteroids == self.new_asteroids
        &&& after.asteroid_generate_time == self.asteroid_generate_time
        &&& after.is_game_over == self.is_game_over
        &&& after.events == self.events
        &&& after.compass == self.compass
    }

    /// `after` is the battle once everything has moved for `dt`
    /// milliseconds. The dead rockets are gone and the rest have flown
    /// toward the asteroids of their rank, the asteroids standing in the
    /// order of their distance from the ship; the ship has moved under its
    /// controls and the bullets, the asteroids and the bursts by
    /// themselves; then every drone has had its shot at the asteroids and
    /// has moved on after the ship.
    pub open spec fn moved(&self, dt: u32, controls: Controls, after: Game) -> bool {
        &&& exists|sorted: Seq<Asteroid>|
            {
                &&& #[trigger] stably_sorted(self.asteroids@, sorted, self.ship.position)
                &&& after.asteroids@ == crate::asteroid::all_updated(sorted, dt)
                &&& after.rockets.rockets@ == all_flown(living(self.rockets.rockets@), sorted, dt, &self.compass)
            }
        &&& Rockets::exhaust_after(
            self.rockets.particles@,
            after.rockets.rockets@,
            dt,
            &self.compass,
            after.rockets.particles@,
        )
        &&& after.ship.rotation_speed == turned(self.ship.rotation_speed as int, dt, controls.left, controls.right)
        &&& after.ship.speed == throttled(self.ship.speed as int, dt, controls.thrust, controls.brake)
        &&& after.ship.angle == self.ship.next_angle(dt, controls)
        &&& after.ship.position == self.ship.next_position(dt, controls, &self.compass)
        &&& after.ship.trail_after(self.ship.particles@, dt, controls.thrust, &self.compass, after.ship.particles@)
        &&& extends(crate::bullet::all_updated(self.bullets@, &self.compass, dt), after.bullets@)
        &&& after.bullets@.len() == self.bullets@.len() + self.drones@.filter(
            |d: Drone| d.shoots(after.asteroids@),
        ).len()
        &&& all_sent(after.bullets@, self.bullets@.len() as int, self.drones@, after.asteroids@, &self.compass)
        &&& after.explosions.particles@ == living(
            crate::particle::all_updated(self.explosions.particles@, &self.compass, dt),
        )
        &&& crate::drone::all_updated(
            all_fired(self.drones@, after.asteroids@),
            dt,
            after.ship.position,
            &self.compass,
            after.drones@,
        )
        &&& after.new_asteroids == self.new_asteroids
        &&& after.mines == self.mines
        &&& after.clocks() == self.clocks()
        &&& after.is_game_over == self.is_game_over
        &&& after.events == self.events
        &&& after.compass == self.compass
    }

    /// Nothing in the battle touches an asteroid: no bullet, no other
    /// asteroid, no rocket, no drone and no mine.
    pub open spec fn quiet(&self) -> bool {
        &&& none_struck(self.bullets@, self.asteroids@)
        &&& none_met(
            self.asteroids@,
            self.rockets.rockets@,
            self.drones@,
            self.mines@,
            self.asteroids@.len() as int,
        )
    }

    /// How many fragments the collisions of the frame leave: those of
    /// every asteroid that dies of a bullet, and those of every asteroid
    /// that dies in meeting the rest, but for the asteroids that drift
    /// off.
    pub open spec fn fragments_of_frame(&self) -> int {
        let shot = all_shot(self.asteroids@, self.bullets@);
        fragments_left(self.asteroids@, shot) + fragments_left(
            shot,
            all_met(shot, self.ship.position, self.rockets.rockets@, self.drones@, self.mines@),
        ) - fragments_lost(
            shot,
            self.ship.position,
            self.rockets.rockets@,
            self.drones@,
            shot.len() as int,
        )
    }

    /// How many particles the collisions of the frame throw up: twenty
    /// for each point of an asteroid's size wherever a bullet touches it,
    /// and those of every touch among the asteroids and of the asteroids
    /// with rockets, drones and mines.
    pub open spec fn sparks_of_frame(&self) -> int {
        crate::explosions::PARTICLES_PER_POWER_POINT * power_of_shots(
            self.bullets@,
            self.asteroids@,
            self.bullets@.len() as int,
        ) + sparks_of_pass(
            all_shot(self.asteroids@, self.bullets@),
            self.rockets.rockets@,
            self.drones@,
            self.mines@,
            self.asteroids@.len() as int,
        )
    }

    /// `after` is the battle once the collisions are settled. Every bullet
    /// that touches an asteroid is spent and every asteroid that a bullet
    /// touches is dead; so is every asteroid that touches another asteroid,
    /// a rocket, a drone or a mine, or has drifted too far; the rockets,
    /// drones and mines that an asteroid touches are destroyed, and so are
    /// drones that touch each other. The game is over if it was, or if an
    /// asteroid touches the ship. The fragments stand behind the
    /// asteroids, as many as the collisions leave, and the bursts hold as
    /// many particles more as the collisions throw up; where nothing
    /// touches an asteroid no fragment and no burst comes of it.
    pub open spec fn collided(&self, after: Game) -> bool {
        &&& after.bullets@ == all_spent(self.bullets@, self.asteroids@)
        &&& after.is_game_over == (self.is_game_over || ship_struck(&self.ship, self.asteroids@))
        &&& after.asteroids@.len() >= self.asteroids@.len()
        &&& after.asteroids@.take(self.asteroids@.len() as int) == all_met(
            all_shot(self.asteroids@, self.bullets@),
            self.ship.position,
            self.rockets.rockets@,
            self.drones@,
            self.mines@,
        )
        &&& after.rockets.rockets@ == rockets_met(
            self.rockets.rockets@,
            self.asteroids@,
            self.asteroids@.len() as int,
        )
        &&& after.drones@ == all_crashed(drones_met(self.drones@, self.asteroids@, self.asteroids@.len() as int))
        &&& after.mines@ == mines_met(self.mines@, self.asteroids@, self.asteroids@.len() as int)
        &&& after.new_asteroids@.len() == 0
        &&& extends(self.explosions.particles@, after.explosions.particles@)
        &&& self.quiet() ==> after.explosions.particles@ == self.explosions.particles@
            && after.asteroids@.len() == self.asteroids@.len() + self.new_asteroids@.len()
        &&& after.asteroids@.len() == self.asteroids@.len() + self.new_asteroids@.len()
            + self.fragments_of_frame()
        &&& after.explosions.particles@.len() == self.explosions.particles@.len() + self.sparks_of_frame()
        &&& after.events@.len() == self.events@.len() + reports_of_pass(
            all_shot(self.asteroids@, self.bullets@),
            self.ship.position,
            self.mines@,
            self.asteroids@.len() as int,
        )
        &&& extends(self.events@, after.events@)
        &&& after.rockets.particles == self.rockets.particles
        &&& after.ship == self.ship
        &&& after.clocks() == self.clocks()
        &&& after.compass == self.compass
    }

    /// `after` is the battle once the dead are taken out: of the bullets,
    /// asteroids, drones and mines the living stay, in their order, and
    /// every drone that goes leaves a burst and an event.
    pub open spec fn swept(&self, after: Game) -> bool {
        &&& after.bullets@ == living(self.bullets@)
        &&& after.asteroids@ == living(self.asteroids@)
        &&& after.drones@ == living(self.drones@)
        &&& after.mines@ == living(self.mines@)
        &&& extends(self.events@, after.events@)
        &&& after.events@.len() == self.events@.len() + (self.drones@.len() - living(self.drones@).len())
        &&& extends(self.explosions.particles@, after.explosions.particles@)
        &&& after.explosions.particles@.len() == self.explosions.particles@.len() + (self.drones@.len()
            - living(self.drones@).len()) * (DRONE_EXPLOSION_POWER * crate::explosions::PARTICLES_PER_POWER_POINT)
        &&& after.ship == self.ship
        &&& after.rockets == self.rockets
        &&& after.new_asteroids == self.new_asteroids
        &&& after.clocks() == self.clocks()
        &&& after.is_game_over == self.is_game_over
        &&& after.compass == self.compass
    }

    /// `after` is the battle one frame of `dt` milliseconds on: the frame
    /// begins, the next asteroid and the weapons have their time,
    /// everything moves, the collisions are settled and the dead are taken
    /// out, in this order.
    pub open spec fn framed(&self, dt: u32, input: Input, after: Game) -> bool {
        exists|begun: Game, generated: Game, armed: Game, moved: Game, collided: Game|
            {
                &&& #[trigger] self.begun(begun)
                &&& #[trigger] begun.generated(dt, generated)
                &&& #[trigger] generated.armed(dt, input, armed)
                &&& #[trigger] armed.moved(dt, input.controls, moved)
                &&& #[trigger] moved.collided(collided)
                &&& collided.swept(after)
            }
    }

    /// Starts a frame: what the last frame reported is forgotten.
    pub fn begin_frame(&mut self)
        requires
            old(self).wf(),
        ensures
            old(self).begun(*final(self)),
            final(self).wf(),
    {
        self.events.clear();
    }

    /// Counts down to the next asteroid, and sends one when the countdown
    /// has run out.
    pub fn generate_asteroid(&mut self, dt: u32)
        requires
            old(self).wf(),
        ensures
            old(self).generated(dt, *final(self)),
            final(self).wf(),
    {
        if self.asteroid_generate_time > 0 {
            self.asteroid_generate_time = self.asteroid_generate_time - dt as i64;
        } else {
            let angle: i64 = self.dice.angle();
            let position: Vec2 = self.ship.position().plus(
                self.compass.unit(angle).scaled(ASTEROID_SPAWN_DISTANCE),
            );
            let heading: Vec2 = self.compass.unit(wrap_angle(angle + HALF_TURN));
            let newcomer: Asteroid = Asteroid::new(position, heading, &self.dice);
            let ghost before = self.asteroids@;
            self.asteroids.push(newcomer);
            self.events.push(Event::AsteroidGenerated(position));
            self.asteroid_generate_time = ASTEROID_GENERATE_RATE;
            proof {
                assert(self.asteroids@.drop_last() =~= before);
                assert(heading == self.compass@[wrap(angle + HALF_TURN)]);
                assert(Self::is_newcomer(newcomer, self.ship.position, &self.compass));
            }
        }
    }

    /// Counts the weapons' countdowns down, and sends out each weapon that
    /// is held and has reloaded: a bullet, a rocket, a drone, a mine.
    pub fn spawn_weapons(&mut self, dt: u32, input: Input)
        requires
            old(self).wf(),
        ensures
            old(self).armed(dt, input, *final(self)),
            final(self).wf(),
    {
        if count_down(&mut self.bullet_reload, dt, input.fire, BULLET_RELOAD) {
            let bullet: Bullet = self.ship.fire(&self.compass);
            self.bullets.push(bullet);
        }
        if count_down(&mut self.rocket_reload, dt, input.launch_rocket, ROCKET_RELOAD) {
            let rocket: Rocket = self.ship.launch_rocket(&self.compass);
            self.rockets.push(rocket);
        }
        if count_down(&mut self.drone_reload, dt, input.spawn_drone, DRONE_RELOAD) {
            let drone: Drone = self.ship.spawn_drone(&self.compass, &self.dice);
            let ghost before = self.drones@;
            self.drones.push(drone);
            assert(self.drones@.drop_last() =~= before);
        }
        if count_down(&mut self.mine_reload, dt, input.spawn_mine, MINE_RELOAD) {
            let mine: Mine = self.ship.spawn_mine();
            self.mines.push(mine);
        }
    }

    /// Moves everything on by `dt` milliseconds: the rockets toward the
    /// asteroids of their rank, the ship under its controls, the bullets,
    /// the asteroids and the bursts; then the drones shoot and move.
    pub fn update_game_objects(&mut self, dt: u32, controls: Controls)
        requires
            old(self).wf(),
        ensures
            old(self).moved(dt, controls, *final(self)),
            final(self).wf(),
    {
        self.rockets.update(&mut self.asteroids, &self.ship, dt, &self.compass, &self.dice);
        let ghost sorted = self.asteroids@;
        self.ship.update(dt, controls, &self.compass, &self.dice);
        crate::bullet::update_all(&mut self.bullets, dt, &self.compass);
        crate::asteroid::update_all(&mut self.asteroids, dt);
        self.explosions.update(dt, &self.compass);
        fire_all(&mut self.drones, &self.asteroids, &mut self.bullets, &self.compass);
        crate::drone::update_all(&mut self.drones, dt, self.ship.position(), &self.compass, &self.dice);
        proof {
            assert(stably_sorted(old(self).asteroids@, sorted, old(self).ship.position));
        }
    }

    /// Settles every collision of the frame, then moves the fragments in
    /// among the asteroids. The ship is never destroyed: an asteroid that
    /// touches it ends the game.
    pub fn process_collisions(&mut self)
        requires
            old(self).wf(),
        ensures
            old(self).collided(*final(self)),
            final(self).wf(),
    {
        let ghost rocks = self.asteroids@;
        let ghost sparks = self.explosions.particles@;
        collide_bullets(
            &mut self.bullets,
            &mut self.asteroids,
            &mut self.new_asteroids,
            &mut self.explosions,
            &self.compass,
            &self.dice,
        );
        let ghost shot = self.asteroids@;
        let ghost burning = self.explosions.particles@;
        let struck: bool = collide_asteroids(
            &mut self.asteroids,
            &self.ship,
            &mut self.rockets,
            &mut self.drones,
            &mut self.mines,
            &mut self.new_asteroids,
            &mut self.explosions,
            &mut self.events,
            &self.compass,
            &self.dice,
        );
        if struck {
            self.is_game_over = true;
        }
        let ghost rammed = self.drones@;
        proof {
            if none_met(rocks, old(self).rockets.rockets@, old(self).drones@, old(self).mines@, rocks.len() as int) {
                lemma_quiet_after_shots(
                    rocks,
                    shot,
                    old(self).rockets.rockets@,
                    old(self).drones@,
                    old(self).mines@,
                );
            }
            lemma_same_place_met(shot, rocks);
            assert(rammed =~= drones_met(old(self).drones@, rocks, rocks.len() as int));
        }
        collide_drones(&mut self.drones);
        let ghost met = self.asteroids@;
        merge_new_asteroids(&mut self.asteroids, &mut self.new_asteroids);
        proof {
            assert(self.asteroids@.take(rocks.len() as int) =~= met);
            lemma_extends_twice(sparks, burning, self.explosions.particles@);
            lemma_same_place_ship(&self.ship, shot, rocks);
            assert(self.rockets.rockets@ =~= rockets_met(
                old(self).rockets.rockets@,
                rocks,
                rocks.len() as int,
            ));
            assert(self.mines@ =~= mines_met(old(self).mines@, rocks, rocks.len() as int));
        }
    }

    /// Takes the dead out of the battle: bullets, asteroids, drones and
    /// mines. Every drone that goes leaves a burst behind.
    pub fn remove_objects(&mut self)
        requires
            old(self).wf(),
        ensures
            old(self).swept(*final(self)),
            final(self).wf(),
    {
        proof {
            lemma_living_sound(self.bullets@);
            lemma_living_sound(self.asteroids@);
            lemma_living_sound(self.drones@);
            lemma_living_sound(self.mines@);
        }
        keep_living(&mut self.bullets);
        keep_living(&mut self.asteroids);
        explode_dead_drones(&self.drones, &mut self.explosions, &mut self.events, &self.dice);
        keep_living(&mut self.drones);
        keep_living(&mut self.mines);
    }

    /// One frame of `dt` milliseconds: a new asteroid when its time has
    /// come, the weapons that are held and have reloaded, the movement of
    /// everything, the collisions, and the removal of the dead. The events
    /// are those of this frame. When the frame is over no fragment is
    /// pending and nothing dead is left among the bullets, asteroids,
    /// drones and mines; a game that was over stays over.
    pub fn update(&mut self, dt: u32, input: Input)
        requires
            old(self).wf(),
        ensures
            old(self).framed(dt, input, *final(self)),
            final(self).wf(),
            final(self).compass == old(self).compass,
            old(self).is_game_over ==> final(self).is_game_over,
            final(self).new_asteroids@.len() == 0,
            forall|i: int| 0 <= i < final(self).bullets@.len() ==> (#[trigger] final(self).bullets@[i]).alive_spec(),
            forall|i: int| 0 <= i < final(self).asteroids@.len() ==> (#[trigger] final(self).asteroids@[i]).is_alive,
            forall|i: int| 0 <= i < final(self).drones@.len() ==> (#[trigger] final(self).drones@[i]).is_alive_spec(),
            forall|i: int| 0 <= i < final(self).mines@.len() ==> (#[trigger] final(self).mines@[i]).is_alive,
    {
        self.begin_frame();
        let ghost begun = *self;
        self.generate_asteroid(dt);
        let ghost generated = *self;
        self.spawn_weapons(dt, input);
        let ghost armed = *self;
        self.update_game_objects(dt, input.controls);
        let ghost moved = *self;
        self.process_collisions();
        let ghost collided = *self;
        self.remove_objects();
        proof {
            lemma_living_came_from(collided.bullets@);
            lemma_living_came_from(collided.asteroids@);
            lemma_living_came_from(collided.drones@);
            lemma_living_came_from(collided.mines@);
            assert(old(self).begun(begun));
            assert(begun.generated(dt, generated));
            assert(generated.armed(dt, input, armed));
            assert(armed.moved(dt, input.controls, moved));
            assert(moved.collided(collided));
            assert(collided.swept(*self));
        }
    }

    pub fn is_game_over(&self) -> (r: bool)
        ensures
            r == self.is_game_over,
    {
        self.is_game_over
    }

    /// The point that the camera follows.
    pub fn camera_target(&self) -> (r: Vec2)
        ensures
            r == self.ship.position,
    {
        self.ship.position()
    }

    /// Half the width of what the screen shows of the world: it widens
    /// with the ship's speed.
    pub fn camera_span(&self) -> (r: i64)
        requires
            self.ship.wf(),
        ensures
            r == DISPLAY_SCALE + 2 * self.ship.speed,
    {
        DISPLAY_SCALE + 2 * self.ship.speed()
    }
}

} // verus!
