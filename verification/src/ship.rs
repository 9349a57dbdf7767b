//! The player's ship.

use vstd::prelude::*;

use crate::asteroid::Asteroid;
use crate::bullet::Bullet;
use crate::drone::Drone;
use crate::geometry::{clamp, clamp_to, steer, steered, wrap, wrap_angle, Compass, Vec2, HALF_TURN, TURN};
use crate::lifecycle::{all_sound, keep_living, lemma_living_sound, living};
use crate::mine::Mine;
use crate::particle::{all_updated, update_all, Particle};
use crate::random::Dice;
use crate::rocket::Rocket;

verus! {

pub const HEIGHT: i64 = 25_000;

/// Angle steps per second.
pub const MAX_ROTATION_SPEED: i64 = 7_000;

/// Points per second gained or lost in each millisecond under power.
pub const MOVE_ACCELERATION: i64 = 300;

/// Angle steps per second gained in each millisecond of turning.
pub const ROTATION_ACCELERATION: i64 = 14;

pub const MAX_SPEED: i64 = 300_000;

/// Points per second lost in each millisecond of coasting.
pub const MOVE_FRICTION: i64 = 100;

/// Angle steps per second lost in each millisecond without turning.
pub const ROTATION_FRICTION: i64 = 10;

/// The exhaust leaves within an eighth of a turn of straight behind.
pub const PARTICLE_ANGLE_DIFF: i64 = 785;

/// Which of the ship's controls are held down.
#[derive(Clone, Copy, Debug, PartialEq, Eq, Structural)]
pub struct Controls {
    pub left: bool,
    pub right: bool,
    pub thrust: bool,
    pub brake: bool,
}

/// The rotation speed after `dt` milliseconds: turning left lowers it and
/// turning right raises it, as far as the limit; with neither held
/// friction brings it toward zero and no further.
pub open spec fn turned(rotation_speed: int, dt: u32, left: bool, right: bool) -> int {
    let after_left = if left {
        clamp(rotation_speed - ROTATION_ACCELERATION * dt, -MAX_ROTATION_SPEED as int, MAX_ROTATION_SPEED as int)
    } else {
        rotation_speed
    };
    let after_right = if right {
        clamp(after_left + ROTATION_ACCELERATION * dt, -MAX_ROTATION_SPEED as int, MAX_ROTATION_SPEED as int)
    } else {
        after_left
    };
    if left || right {
        after_right
    } else if rotation_speed > 0 {
        clamp(rotation_speed - ROTATION_FRICTION * dt, 0, MAX_ROTATION_SPEED as int)
    } else {
        clamp(rotation_speed + ROTATION_FRICTION * dt, -MAX_ROTATION_SPEED as int, 0)
    }
}

/// The change of speed in each millisecond: thrust before brake, and
/// friction with neither.
pub open spec fn acceleration(thrust: bool, brake: bool) -> int {
    if thrust {
        MOVE_ACCELERATION as int
    } else if brake {
        -MOVE_ACCELERATION as int
    } else {
        -MOVE_FRICTION as int
    }
}

/// The speed after `dt` milliseconds, held between rest and the limit.
pub open spec fn throttled(speed: int, dt: u32, thrust: bool, brake: bool) -> int {
    clamp(speed + acceleration(thrust, brake) * dt, 0, MAX_SPEED as int)
}

/// The speed and the rotation speed after a run of frames, each with its
/// length and the controls held in it.
pub open spec fn speeds_after(speed: int, rotation_speed: int, frames: Seq<(u32, Controls)>) -> (int, int)
    decreases frames.len(),
{
    if frames.len() == 0 {
        (speed, rotation_speed)
    } else {
        let (earlier_speed, earlier_rotation) = speeds_after(speed, rotation_speed, frames.drop_last());
        let (dt, controls) = frames.last();
        (
            throttled(earlier_speed, dt, controls.thrust, controls.brake),
            turned(earlier_rotation, dt, controls.left, controls.right),
        )
    }
}

pub struct Ship {
    pub position: Vec2,
    pub speed: i64,
    pub angle: i64,
    pub rotation_speed: i64,
    pub particles: Vec<Particle>,
}

impl Ship {
    pub open spec fn wf(&self) -> bool {
        &&& self.position.in_world()
        &&& 0 <= self.speed <= MAX_SPEED
        &&& 0 <= self.angle < TURN
        &&& -MAX_ROTATION_SPEED <= self.rotation_speed <= MAX_ROTATION_SPEED
        &&& all_sound(self.particles@)
    }

    /// The point half the ship's height ahead of its centre.
    pub open spec fn nose(&self, compass: &Compass) -> Vec2 {
        self.position.plus_spec(compass@[self.angle as int].scaled_spec(HEIGHT / 2))
    }

    /// The point half the ship's height behind its centre.
    pub open spec fn tail(&self, compass: &Compass) -> Vec2 {
        self.position.plus_spec(compass@[wrap(self.angle + HALF_TURN)].scaled_spec(HEIGHT / 2))
    }

    pub open spec fn next_angle(&self, dt: u32, controls: Controls) -> int {
        steered(
            self.angle as int,
            false,
            turned(self.rotation_speed as int, dt, controls.left, controls.right),
            dt as int,
        )
    }

    /// Where the ship is after `dt` milliseconds: it moves along its new
    /// angle at its new speed.
    pub open spec fn next_position(&self, dt: u32, controls: Controls, compass: &Compass) -> Vec2 {
        self.position.translated_spec(
            compass@[self.next_angle(dt, controls)].scaled_spec(
                throttled(self.speed as int, dt, controls.thrust, controls.brake),
            ),
            dt as int,
        )
    }

    /// The bullet that the ship fires: it leaves the nose along the ship's
    /// heading.
    pub open spec fn fired_bullet(&self, compass: &Compass) -> Bullet {
        Bullet { position: self.nose(compass), angle: self.angle, life: crate::bullet::LIFETIME }
    }

    /// The rocket that the ship launches: it leaves the nose along the
    /// ship's heading.
    pub open spec fn launched_rocket(&self, compass: &Compass) -> Rocket {
        Rocket {
            position: self.nose(compass),
            angle: self.angle,
            speed: crate::rocket::START_SPEED,
            is_alive: true,
            accelerating_time: crate::rocket::ACCELERATING_TIME,
        }
    }

    /// `drone` is a drone that the ship sets out: fully charged, at rest
    /// where the ship is, with some offset to make for.
    pub open spec fn is_spawned_drone(&self, drone: Drone, compass: &Compass) -> bool {
        &&& crate::drone::is_target_offset(drone.target_offset, compass)
        &&& drone == (Drone {
            position: self.position,
            speed: 0,
            angle: 0,
            animation: 0,
            target_offset: drone.target_offset,
            is_fast_moving: false,
            reload_time: crate::drone::RELOAD_TIME,
            charge: crate::drone::FULL_CHARGE_VALUE,
        })
    }

    /// The asteroid's centre is no farther away than its radius and the
    /// ship's height.
    pub open spec fn asteroid_collision_spec(&self, asteroid: &Asteroid) -> bool {
        asteroid.position.reaches_spec(self.position, asteroid.radius_spec() + HEIGHT)
    }

    /// A ship at rest at the origin, heading up the screen.
    pub fn new() -> (r: Ship)
        ensures
            r.position == (Vec2 { x: 0, y: 0 }),
            r.speed == 0,
            r.angle == TURN - TURN / 4,
            r.rotation_speed == 0,
            r.particles@.len() == 0,
            r.wf(),
    {
        Ship { position: Vec2 { x: 0, y: 0 }, speed: 0, angle: 4_710, rotation_speed: 0, particles: Vec::new() }
    }

    fn handle_rotation_input(&mut self, dt: u32, left: bool, right: bool)
        requires
            old(self).wf(),
        ensures
            final(self).rotation_speed == turned(old(self).rotation_speed as int, dt, left, right),
            final(self).position == old(self).position,
            final(self).speed == old(self).speed,
            final(self).angle == old(self).angle,
            final(self).particles == old(self).particles,
            final(self).wf(),
    {
        let ms: i64 = dt as i64;
        if left {
            self.rotation_speed = clamp_to(
                self.rotation_speed - ROTATION_ACCELERATION * ms,
                -MAX_ROTATION_SPEED,
                MAX_ROTATION_SPEED,
            );
        }
        if right {
            self.rotation_speed = clamp_to(
                self.rotation_speed + ROTATION_ACCELERATION * ms,
                -MAX_ROTATION_SPEED,
                MAX_ROTATION_SPEED,
            );
        }
        if !left && !right {
            if self.rotation_speed > 0 {
                self.rotation_speed = clamp_to(self.rotation_speed - ROTATION_FRICTION * ms, 0, MAX_ROTATION_SPEED);
            } else {
                self.rotation_speed = clamp_to(self.rotation_speed + ROTATION_FRICTION * ms, -MAX_ROTATION_SPEED, 0);
            }
        }
    }

    fn handle_move_input(&mut self, dt: u32, thrust: bool, brake: bool) -> (accelerated: bool)
        requires
            old(self).wf(),
        ensures
            accelerated == thrust,
            final(self).speed == throttled(old(self).speed as int, dt, thrust, brake),
            final(self).position == old(self).position,
            final(self).rotation_speed == old(self).rotation_speed,
            final(self).angle == old(self).angle,
            final(self).particles == old(self).particles,
            final(self).wf(),
    {
        let acceleration: i64 = if thrust {
            MOVE_ACCELERATION
        } else if brake {
            -MOVE_ACCELERATION
        } else {
            -MOVE_FRICTION
        };
        self.speed = clamp_to(self.speed + acceleration * dt as i64, 0, MAX_SPEED);
        acceleration > 0
    }

    fn apply_rotation_speed(&mut self, dt: u32)
        requires
            old(self).wf(),
        ensures
            final(self).angle == steered(
                old(self).angle as int,
                false,
                old(self).rotation_speed as int,
                dt as int,
            ),
            final(self).position == old(self).position,
            final(self).rotation_speed == old(self).rotation_speed,
            final(self).speed == old(self).speed,
            final(self).particles == old(self).particles,
            final(self).wf(),
    {
        self.angle = steer(self.angle, false, self.rotation_speed, dt);
    }

    fn apply_move(&mut self, dt: u32, compass: &Compass)
        requires
            old(self).wf(),
            compass.wf(),
        ensures
            final(self).position == old(self).position.translated_spec(
                compass@[old(self).angle as int].scaled_spec(old(self).speed as int),
                dt as int,
            ),
            final(self).angle == old(self).angle,
            final(self).rotation_speed == old(self).rotation_speed,
            final(self).speed == old(self).speed,
            final(self).particles == old(self).particles,
            final(self).wf(),
    {
        let velocity: Vec2 = compass.unit(self.angle).scaled(self.speed);
        self.position = self.position.translated(velocity, dt);
    }

    /// What the exhaust trail `before` becomes in a frame: the dead leave,
    /// the rest move on, and under thrust one new particle starts at the
    /// tail, with a tenth of a second to live or up to as much more.
    pub open spec fn trail_after(
        &self,
        before: Seq<Particle>,
        dt: u32,
        accelerated: bool,
        compass: &Compass,
        after: Seq<Particle>,
    ) -> bool {
        let kept = all_updated(living(before), compass, dt);
        if accelerated {
            &&& after.len() == kept.len() + 1
            &&& after.drop_last() == kept
            &&& after.last().position == self.tail(compass)
            &&& 100 <= after.last().life < 200
            &&& after.last().wf()
        } else {
            after == kept
        }
    }

    fn update_particles(&mut self, dt: u32, accelerated: bool, compass: &Compass, dice: &Dice)
        requires
            old(self).wf(),
            compass.wf(),
        ensures
            old(self).trail_after(old(self).particles@, dt, accelerated, compass, final(self).particles@),
            final(self).position == old(self).position,
            final(self).angle == old(self).angle,
            final(self).rotation_speed == old(self).rotation_speed,
            final(self).speed == old(self).speed,
            final(self).wf(),
    {
        proof {
            lemma_living_sound(self.particles@);
        }
        keep_living(&mut self.particles);
        update_all(&mut self.particles, dt, compass);
        if accelerated {
            let back: i64 = wrap_angle(self.angle + HALF_TURN);
            let start: Vec2 = self.position.plus(compass.unit(back).scaled(HEIGHT / 2));
            let swerve: i64 = dice.between(-PARTICLE_ANGLE_DIFF, PARTICLE_ANGLE_DIFF);
            let extra: i64 = dice.between(0, 100);
            let ghost kept = self.particles@;
            self.particles.push(Particle::new(start, back + swerve, (100 + extra) as u32, dice));
            assert(self.particles@.drop_last() =~= kept);
        }
    }

    /// Moves the ship on by `dt` milliseconds under the controls held.
    pub fn update(&mut self, dt: u32, controls: Controls, compass: &Compass, dice: &Dice)
        requires
            old(self).wf(),
            compass.wf(),
        ensures
            final(self).rotation_speed == turned(
                old(self).rotation_speed as int,
                dt,
                controls.left,
                controls.right,
            ),
            final(self).speed == throttled(old(self).speed as int, dt, controls.thrust, controls.brake),
            final(self).angle == old(self).next_angle(dt, controls),
            final(self).position == old(self).next_position(dt, controls, compass),
            final(self).trail_after(old(self).particles@, dt, controls.thrust, compass, final(self).particles@),
            0 <= final(self).speed <= MAX_SPEED,
            -MAX_ROTATION_SPEED <= final(self).rotation_speed <= MAX_ROTATION_SPEED,
            final(self).wf(),
    {
        self.handle_rotation_input(dt, controls.left, controls.right);
        self.apply_rotation_speed(dt);
        let accelerated: bool = self.handle_move_input(dt, controls.thrust, controls.brake);
        self.apply_move(dt, compass);
        self.update_particles(dt, accelerated, compass, dice);
    }

    /// A bullet that leaves the nose along the ship's heading.
    pub fn fire(&self, compass: &Compass) -> (r: Bullet)
        requires
            self.wf(),
            compass.wf(),
        ensures
            r == self.fired_bullet(compass),
            r.wf(),
    {
        Bullet::new(self.position.plus(compass.unit(self.angle).scaled(HEIGHT / 2)), self.angle)
    }

    /// A rocket that leaves the nose along the ship's heading.
    pub fn launch_rocket(&self, compass: &Compass) -> (r: Rocket)
        requires
            self.wf(),
            compass.wf(),
        ensures
            r == self.launched_rocket(compass),
            r.wf(),
    {
        Rocket::new(self.position.plus(compass.unit(self.angle).scaled(HEIGHT / 2)), self.angle)
    }

    /// A fresh drone where the ship is.
    pub fn spawn_drone(&self, compass: &Compass, dice: &Dice) -> (r: Drone)
        requires
            self.wf(),
            compass.wf(),
        ensures
            self.is_spawned_drone(r, compass),
            r.wf(),
    {
        Drone::new(self.position, compass, dice)
    }

    /// A mine where the ship is.
    pub fn spawn_mine(&self) -> (r: Mine)
        ensures
            r == (Mine { position: self.position, is_alive: true }),
    {
        Mine::new(self.position)
    }

    pub fn position(&self) -> (r: Vec2)
        ensures
            r == self.position,
    {
        self.position
    }

    pub fn speed(&self) -> (r: i64)
        ensures
            r == self.speed,
    {
        self.speed
    }

    pub fn particles_count(&self) -> (r: usize)
        ensures
            r == self.particles@.len(),
    {
        self.particles.len()
    }

    pub fn asteroid_collision(&self, asteroid: &Asteroid) -> (r: bool)
        requires
            self.wf(),
            asteroid.wf(),
        ensures
            r == self.asteroid_collision_spec(asteroid),
    {
        asteroid.position().reaches(self.position, asteroid.radius() + HEIGHT)
    }
}

/// However many frames pass and whatever is held in them, the speed stays
/// between rest and the limit, and the rotation speed within the limit
/// either way.
pub proof fn law_speeds_stay_clamped(speed: int, rotation_speed: int, frames: Seq<(u32, Controls)>)
    requires
        0 <= speed <= MAX_SPEED,
        -MAX_ROTATION_SPEED <= rotation_speed <= MAX_ROTATION_SPEED,
    ensures
        0 <= speeds_after(speed, rotation_speed, frames).0 <= MAX_SPEED,
        -MAX_ROTATION_SPEED <= speeds_after(speed, rotation_speed, frames).1 <= MAX_ROTATION_SPEED,
    decreases frames.len(),
{
    if frames.len() > 0 {
        law_speeds_stay_clamped(speed, rotation_speed, frames.drop_last());
    }
}

} // verus!
