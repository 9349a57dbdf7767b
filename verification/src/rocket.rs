//! Rockets: they leave straight, then turn toward their target as they
//! gather speed.

use vstd::prelude::*;

use crate::asteroid::Asteroid;
use crate::geometry::{steer, steered, wrap, wrap_angle, Compass, Vec2, HALF_TURN, TURN};
use crate::lifecycle::Mortal;
use crate::particle::Particle;
use crate::random::Dice;

verus! {

pub const HEIGHT: i64 = 20_000;

/// Points per second at launch.
pub const START_SPEED: i64 = 300_000;

/// Points per second gained in each millisecond.
pub const MOVE_ACCELERATION: i64 = 800;

pub const MAX_SPEED: i64 = 2_000_000;

/// Angle steps per second.
pub const ROTATION_SPEED: i64 = 5_000;

/// The exhaust leaves within a tenth of a turn of straight behind.
pub const PARTICLE_ANGLE_DIFF: i64 = 628;

/// Milliseconds after launch in which a rocket does not turn.
pub const ACCELERATING_TIME: i64 = 700;

#[derive(Clone, Copy, Debug, PartialEq, Eq, Structural)]
pub struct Rocket {
    pub position: Vec2,
    pub angle: i64,
    pub speed: i64,
    pub is_alive: bool,
    pub accelerating_time: i64,
}

impl Rocket {
    pub open spec fn wf(&self) -> bool {
        &&& self.position.in_world()
        &&& 0 <= self.angle < TURN
        &&& 0 <= self.speed <= MAX_SPEED
        &&& -(u32::MAX as int) <= self.accelerating_time <= ACCELERATING_TIME
    }

    /// Whether a rocket at `position` heading along `angle` turns against
    /// the growth of its angle to come round to `target`: the signed angle
    /// from its heading to the line from the target to itself is positive.
    pub open spec fn turns_back(position: Vec2, angle: int, target: Vec2, compass: &Compass) -> bool {
        compass@[angle].angle_positive_spec(position.minus_spec(target))
    }

    pub open spec fn next_angle(&self, target: Vec2, dt: u32, compass: &Compass) -> int {
        if self.accelerating_time > 0 {
            self.angle as int
        } else {
            steered(
                self.angle as int,
                Self::turns_back(self.position, self.angle as int, target, compass),
                ROTATION_SPEED as int,
                dt as int,
            )
        }
    }

    pub open spec fn next_speed(&self, dt: u32) -> int {
        if self.speed + MOVE_ACCELERATION * dt > MAX_SPEED {
            MAX_SPEED as int
        } else {
            self.speed + MOVE_ACCELERATION * dt
        }
    }

    /// The rocket after `dt` milliseconds of flying toward `target`.
    pub open spec fn updated(&self, target: Vec2, dt: u32, compass: &Compass) -> Rocket {
        Rocket {
            position: self.position.translated_spec(
                compass@[self.next_angle(target, dt, compass)].scaled_spec(self.next_speed(dt)),
                dt as int,
            ),
            angle: self.next_angle(target, dt, compass) as i64,
            speed: self.next_speed(dt) as i64,
            is_alive: self.is_alive,
            accelerating_time: if self.accelerating_time > 0 {
                (self.accelerating_time - dt) as i64
            } else {
                self.accelerating_time
            },
        }
    }

    /// The asteroid's centre is no farther away than its radius and the
    /// rocket's height.
    pub open spec fn asteroid_collision_spec(&self, asteroid: &Asteroid) -> bool {
        asteroid.position.reaches_spec(self.position, asteroid.radius_spec() + HEIGHT)
    }

    /// Where the exhaust leaves the rocket: half its height behind it.
    pub open spec fn tail(&self, compass: &Compass) -> Vec2 {
        self.position.plus_spec(compass@[wrap(self.angle + HALF_TURN)].scaled_spec(HEIGHT / 2))
    }

    pub fn new(position: Vec2, angle: i64) -> (r: Rocket)
        requires
            position.in_world(),
        ensures
            r == (Rocket {
                position,
                angle: wrap(angle as int) as i64,
                speed: START_SPEED,
                is_alive: true,
                accelerating_time: ACCELERATING_TIME,
            }),
            r.wf(),
    {
        Rocket {
            position,
            angle: wrap_angle(angle),
            speed: START_SPEED,
            is_alive: true,
            accelerating_time: ACCELERATING_TIME,
        }
    }

    pub fn update(&mut self, target: Vec2, dt: u32, compass: &Compass)
        requires
            old(self).wf(),
            target.in_world(),
            compass.wf(),
        ensures
            *final(self) == old(self).updated(target, dt, compass),
            final(self).wf(),
    {
        if self.accelerating_time > 0 {
            self.accelerating_time = self.accelerating_time - dt as i64;
        } else {
            let positive: bool = compass.unit(self.angle).angle_positive(self.position.minus(target));
            self.angle = steer(self.angle, positive, ROTATION_SPEED, dt);
        }
        let faster: i64 = self.speed + MOVE_ACCELERATION * dt as i64;
        if faster > MAX_SPEED {
            self.speed = MAX_SPEED;
        } else {
            self.speed = faster;
        }
        let velocity: Vec2 = compass.unit(self.angle).scaled(self.speed);
        self.position = self.position.translated(velocity, dt);
    }

    /// A particle of exhaust: it starts at the tail, lives a tenth of a
    /// second or up to as much longer, and leaves within a tenth of a turn
    /// of straight behind.
    pub fn spawn_particle(&self, compass: &Compass, dice: &Dice) -> (r: Particle)
        requires
            self.wf(),
            compass.wf(),
        ensures
            r.position == self.tail(compass),
            100 <= r.life < 200,
            r.wf(),
    {
        let back: i64 = wrap_angle(self.angle + HALF_TURN);
        let start: Vec2 = self.position.plus(compass.unit(back).scaled(HEIGHT / 2));
        let swerve: i64 = dice.between(-PARTICLE_ANGLE_DIFF, PARTICLE_ANGLE_DIFF);
        let extra: i64 = dice.between(0, 100);
        Particle::new(start, back + swerve, (100 + extra) as u32, dice)
    }

    pub fn asteroid_collision(&self, asteroid: &Asteroid) -> (r: bool)
        requires
            self.wf(),
            asteroid.wf(),
        ensures
            r == self.asteroid_collision_spec(asteroid),
    {
        asteroid.position().reaches(self.position, asteroid.radius() + HEIGHT)
    }

    pub fn is_alive(&self) -> (r: bool)
        ensures
            r == self.is_alive,
    {
        self.is_alive
    }

    pub fn destroy(&mut self)
        ensures
            *final(self) == (Rocket { is_alive: false, ..*old(self) }),
    {
        self.is_alive = false;
    }
}

impl Mortal for Rocket {
    open spec fn sound(&self) -> bool {
        self.wf()
    }

    open spec fn lives(&self) -> bool {
        self.is_alive
    }

    fn still_lives(&self) -> (r: bool) {
        self.is_alive
    }
}

/// Steering goes by the side of the heading on which the line from the
/// target to the rocket lies: on the side of growing angles the signed
/// angle is positive and the rocket turns back, on the other side it is
/// not and the angle grows. On the line of the heading itself the sign
/// goes by the direction alone.
pub proof fn law_steering_sign(heading: Vec2, away: Vec2)
    ensures
        heading.cross_spec(away) > 0 ==> heading.angle_positive_spec(away),
        heading.cross_spec(away) < 0 ==> !heading.angle_positive_spec(away),
        heading.cross_spec(away) == 0 ==> (heading.angle_positive_spec(away) <==> heading.dot_spec(away) < 0),
{
}

/// With the target on the line of the heading, `k` headings behind the
/// rocket (ahead of it where `k` is negative), the signed angle is
/// positive exactly when the target lies ahead: straight behind it is
/// zero, straight ahead it is half a turn, and the sign flips nowhere
/// else.
pub proof fn law_steering_flips_on_the_line(heading: Vec2, away: Vec2, k: int)
    requires
        away.x == k * heading.x,
        away.y == k * heading.y,
    ensures
        heading.cross_spec(away) == 0,
        heading.angle_positive_spec(away) <==> k < 0 && (heading.x != 0 || heading.y != 0),
{
    let (hx, hy) = (heading.x as int, heading.y as int);
    assert(hx * (k * hy) - hy * (k * hx) == 0) by (nonlinear_arith);
    assert(hx * (k * hx) + hy * (k * hy) == k * (hx * hx + hy * hy)) by (nonlinear_arith);
    assert(hx * hx + hy * hy > 0 <==> (hx != 0 || hy != 0)) by (nonlinear_arith);
    assert(k * (hx * hx + hy * hy) < 0 <==> k < 0 && hx * hx + hy * hy > 0) by (nonlinear_arith)
        requires
            hx * hx + hy * hy >= 0,
    ;
}

} // verus!
