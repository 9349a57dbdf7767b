//! Drones: escorts that circle the ship, shoot at what comes near and run
//! down their charge.

use vstd::prelude::*;

use crate::asteroid::{is_nearest, nearest_living, none_alive, Asteroid};
use crate::bullet::{Bullet, LIFETIME};
use crate::geometry::{steer, steered, Compass, Vec2, TURN};
use crate::lifecycle::{all_sound, extends, Mortal};
use crate::random::Dice;

verus! {

pub const HALF_SIZE: i64 = 5_000;

pub const PROPELLER_RADIUS: i64 = 5_000;

/// Angle steps per second.
pub const PROPELLER_ROTATION_SPEED: i64 = 40_000;

pub const MAX_TARGET_OFFSET_DISTANCE: i64 = 300_000;

/// Points per second gained in each millisecond.
pub const MOVE_ACCELERATION: i64 = 500;

pub const FAST_MAX_SPEED: i64 = 600_000;

pub const MAX_SPEED: i64 = 120_000;

pub const REGENERATE_TARGET_OFFSET_DISTANCE: i64 = 5_000;

pub const START_FAST_MOVING_DISTANCE: i64 = 600_000;

pub const STOP_FAST_MOVING_DISTANCE: i64 = 200_000;

/// Angle steps per second.
pub const ROTATION_SPEED: i64 = 10_000;

pub const FIRE_DISTANCE: i64 = 500_000;

/// Milliseconds between two shots.
pub const RELOAD_TIME: i64 = 1_500;

/// A full charge, in millionths of a percent.
pub const FULL_CHARGE_VALUE: i64 = 100_000_000;

/// Charge lost in each millisecond.
pub const UNCHARGING_SPEED: i64 = 500;

/// Charge lost in each millisecond of fast flight.
pub const FAST_MOVE_UNCHARGING_SPEED: i64 = 2_500;

pub const FIRE_CHARGE_COST: i64 = 5_000_000;

/// The charge never falls below this.
pub const CHARGE_FLOOR: i64 = -20_000_000_000_000;

/// What is left of `charge` after losing `amount`.
pub open spec fn drained(charge: int, amount: int) -> int {
    if charge - amount < CHARGE_FLOOR {
        CHARGE_FLOOR as int
    } else {
        charge - amount
    }
}

fn drain(charge: i64, amount: i64) -> (r: i64)
    requires
        CHARGE_FLOOR <= charge <= FULL_CHARGE_VALUE,
        0 <= amount <= -CHARGE_FLOOR,
    ensures
        r == drained(charge as int, amount as int),
        CHARGE_FLOOR <= r <= charge,
{
    if charge - amount < CHARGE_FLOOR {
        CHARGE_FLOOR
    } else {
        charge - amount
    }
}

/// Some point at the full offset distance from the origin.
pub open spec fn is_target_offset(v: Vec2, compass: &Compass) -> bool {
    exists|a: int| 0 <= a < TURN && v == (#[trigger] compass@[a]).scaled_spec(MAX_TARGET_OFFSET_DISTANCE as int)
}

/// A point beside the ship for a drone to make for, in some direction.
pub fn generate_target_offset(compass: &Compass, dice: &Dice) -> (r: Vec2)
    requires
        compass.wf(),
    ensures
        is_target_offset(r, compass),
        r.within(MAX_TARGET_OFFSET_DISTANCE as int),
{
    let angle: i64 = dice.angle();
    compass.unit(angle).scaled(MAX_TARGET_OFFSET_DISTANCE)
}

#[derive(Clone, Copy, Debug, PartialEq, Eq, Structural)]
pub struct Drone {
    pub position: Vec2,
    pub speed: i64,
    pub angle: i64,
    pub animation: i64,
    pub target_offset: Vec2,
    pub is_fast_moving: bool,
    pub reload_time: i64,
    pub charge: i64,
}

impl Drone {
    pub open spec fn wf(&self) -> bool {
        &&& self.position.in_world()
        &&& 0 <= self.speed <= FAST_MAX_SPEED
        &&& 0 <= self.angle < TURN
        &&& 0 <= self.animation < TURN
        &&& self.target_offset.within(MAX_TARGET_OFFSET_DISTANCE as int)
        &&& -(u32::MAX as int) <= self.reload_time <= RELOAD_TIME
        &&& CHARGE_FLOOR <= self.charge <= FULL_CHARGE_VALUE
    }

    pub open spec fn is_alive_spec(&self) -> bool {
        self.charge > 0
    }

    /// The point that the drone makes for when it escorts `target`.
    pub open spec fn aim(&self, target: Vec2) -> Vec2 {
        target.plus_spec(self.target_offset)
    }

    pub open spec fn next_angle(&self, dt: u32, target: Vec2, compass: &Compass) -> int {
        steered(
            self.angle as int,
            compass@[self.angle as int].angle_positive_spec(self.position.minus_spec(self.aim(target))),
            ROTATION_SPEED as int,
            dt as int,
        )
    }

    /// The speed after `dt` milliseconds: it grows up to the ceiling of the
    /// mode that the drone flies in.
    pub open spec fn next_speed(&self, dt: u32) -> int {
        let ceiling = if self.is_fast_moving {
            FAST_MAX_SPEED
        } else {
            MAX_SPEED
        };
        if self.speed + MOVE_ACCELERATION * dt > ceiling {
            ceiling as int
        } else {
            self.speed + MOVE_ACCELERATION * dt
        }
    }

    /// The mode after an update: fast flight starts at the far distance
    /// from the aim and stops at the near one.
    pub open spec fn next_mode(&self, target: Vec2) -> bool {
        if self.is_fast_moving {
            !self.position.reaches_spec(self.aim(target), STOP_FAST_MOVING_DISTANCE as int)
        } else {
            !self.position.inside_spec(self.aim(target), START_FAST_MOVING_DISTANCE as int)
        }
    }

    pub open spec fn next_charge(&self, dt: u32) -> int {
        if self.charge > 0 {
            if self.is_fast_moving {
                drained(self.charge as int, FAST_MOVE_UNCHARGING_SPEED * dt)
            } else {
                drained(self.charge as int, UNCHARGING_SPEED * dt)
            }
        } else {
            self.charge as int
        }
    }

    /// The drone after `dt` milliseconds of escorting `target`; `fresh` is
    /// the offset that it takes up if it has come to its aim.
    pub open spec fn updated(&self, dt: u32, target: Vec2, compass: &Compass, fresh: Vec2) -> Drone {
        Drone {
            position: self.position.translated_spec(
                compass@[self.next_angle(dt, target, compass)].scaled_spec(self.next_speed(dt)),
                dt as int,
            ),
            speed: self.next_speed(dt) as i64,
            angle: self.next_angle(dt, target, compass) as i64,
            animation: steered(self.animation as int, false, PROPELLER_ROTATION_SPEED as int, dt as int) as i64,
            target_offset: if self.position.reaches_spec(
                self.aim(target),
                REGENERATE_TARGET_OFFSET_DISTANCE as int,
            ) {
                fresh
            } else {
                self.target_offset
            },
            is_fast_moving: self.next_mode(target),
            reload_time: if self.reload_time > 0 {
                (self.reload_time - dt) as i64
            } else {
                self.reload_time
            },
            charge: self.next_charge(dt) as i64,
        }
    }

    /// Whether the drone is ready to shoot: it flies slowly and has
    /// reloaded.
    pub open spec fn ready(&self) -> bool {
        !self.is_fast_moving && self.reload_time <= 0
    }

    /// Whether the drone shoots: it is ready, and the nearest living
    /// asteroid is nearer than the firing distance.
    pub open spec fn shoots(&self, asteroids: Seq<Asteroid>) -> bool {
        self.ready() && exists|i: int|
            is_nearest(asteroids, self.position, i) && self.position.inside_spec(
                (#[trigger] asteroids[i]).position,
                FIRE_DISTANCE as int,
            )
    }

    /// The drone after a shot.
    pub open spec fn fired(&self) -> Drone {
        Drone {
            reload_time: RELOAD_TIME,
            charge: drained(self.charge as int, FIRE_CHARGE_COST as int) as i64,
            ..*self
        }
    }

    /// `bullet` is the shot that the drone sends at `target`: it heads
    /// along the bearing of the target and starts a propeller's radius
    /// from the drone on that line.
    pub open spec fn is_shot_at(&self, bullet: Bullet, target: Vec2, compass: &Compass) -> bool {
        &&& compass.is_bearing(target.minus_spec(self.position), bullet.angle as int)
        &&& bullet.position == self.position.plus_spec(
            compass@[bullet.angle as int].scaled_spec(PROPELLER_RADIUS as int),
        )
        &&& bullet.life == LIFETIME
    }

    /// `bullet` is the shot that the drone sends at the nearest living
    /// asteroid.
    pub open spec fn sends(&self, bullet: Bullet, asteroids: Seq<Asteroid>, compass: &Compass) -> bool {
        exists|i: int|
            is_nearest(asteroids, self.position, i) && self.is_shot_at(
                bullet,
                (#[trigger] asteroids[i]).position,
                compass,
            )
    }

    /// The asteroid's centre is no farther away than its radius and half
    /// the drone's size.
    pub open spec fn asteroid_collision_spec(&self, asteroid: &Asteroid) -> bool {
        asteroid.position.reaches_spec(self.position, asteroid.radius_spec() + HALF_SIZE)
    }

    /// Another drone at `position` touches this one.
    pub open spec fn drone_collision_spec(&self, position: Vec2) -> bool {
        position.reaches_spec(self.position, 2 * HALF_SIZE)
    }

    /// The drone with its charge gone.
    pub open spec fn destroyed(&self) -> Drone {
        Drone {
            charge: if self.charge > 0 {
                0
            } else {
                self.charge
            },
            ..*self
        }
    }

    /// A fully charged drone at rest, with the given offset to make for.
    pub fn with_offset(position: Vec2, target_offset: Vec2) -> (r: Drone)
        requires
            position.in_world(),
            target_offset.within(MAX_TARGET_OFFSET_DISTANCE as int),
        ensures
            r == (Drone {
                position,
                speed: 0,
                angle: 0,
                animation: 0,
                target_offset,
                is_fast_moving: false,
                reload_time: RELOAD_TIME,
                charge: FULL_CHARGE_VALUE,
            }),
            r.wf(),
            r.is_alive_spec(),
    {
        Drone {
            position,
            speed: 0,
            angle: 0,
            animation: 0,
            target_offset,
            is_fast_moving: false,
            reload_time: RELOAD_TIME,
            charge: FULL_CHARGE_VALUE,
        }
    }

    /// A fully charged drone at rest, with some offset to make for.
    pub fn new(position: Vec2, compass: &Compass, dice: &Dice) -> (r: Drone)
        requires
            position.in_world(),
            compass.wf(),
        ensures
            is_target_offset(r.target_offset, compass),
            r == (Drone {
                position,
                speed: 0,
                angle: 0,
                animation: 0,
                target_offset: r.target_offset,
                is_fast_moving: false,
                reload_time: RELOAD_TIME,
                charge: FULL_CHARGE_VALUE,
            }),
            r.wf(),
    {
        Self::with_offset(position, generate_target_offset(compass, dice))
    }

    /// Moves the drone on by `dt` milliseconds; it takes up the offset
    /// `fresh` if it has come to its aim.
    pub fn update_with(&mut self, dt: u32, target: Vec2, compass: &Compass, fresh: Vec2)
        requires
            old(self).wf(),
            target.in_world(),
            compass.wf(),
            fresh.within(MAX_TARGET_OFFSET_DISTANCE as int),
        ensures
            *final(self) == old(self).updated(dt, target, compass, fresh),
            final(self).wf(),
    {
        let ms: i64 = dt as i64;
        if self.charge > 0 {
            if self.is_fast_moving {
                self.charge = drain(self.charge, FAST_MOVE_UNCHARGING_SPEED * ms);
            } else {
                self.charge = drain(self.charge, UNCHARGING_SPEED * ms);
            }
        }
        if self.reload_time > 0 {
            self.reload_time = self.reload_time - ms;
        }
        self.animation = steer(self.animation, false, PROPELLER_ROTATION_SPEED, dt);
        let aim: Vec2 = target.plus(self.target_offset);
        let positive: bool = compass.unit(self.angle).angle_positive(self.position.minus(aim));
        self.angle = steer(self.angle, positive, ROTATION_SPEED, dt);
        if self.position.reaches(aim, REGENERATE_TARGET_OFFSET_DISTANCE) {
            self.target_offset = fresh;
        }
        let faster: i64 = self.speed + MOVE_ACCELERATION * ms;
        if self.is_fast_moving {
            if self.position.reaches(aim, STOP_FAST_MOVING_DISTANCE) {
                self.is_fast_moving = false;
            }
            self.speed = if faster > FAST_MAX_SPEED {
                FAST_MAX_SPEED
            } else {
                faster
            };
        } else {
            if !self.position.inside(aim, START_FAST_MOVING_DISTANCE) {
                self.is_fast_moving = true;
            }
            self.speed = if faster > MAX_SPEED {
                MAX_SPEED
            } else {
                faster
            };
        }
        let velocity: Vec2 = compass.unit(self.angle).scaled(self.speed);
        self.position = self.position.translated(velocity, dt);
    }

    /// Moves the drone on by `dt` milliseconds; if it has come to its aim
    /// it takes up some new offset.
    pub fn update(&mut self, dt: u32, target: Vec2, compass: &Compass, dice: &Dice)
        requires
            old(self).wf(),
            target.in_world(),
            compass.wf(),
        ensures
            *final(self) == old(self).updated(dt, target, compass, final(self).target_offset),
            old(self).position.reaches_spec(old(self).aim(target), REGENERATE_TARGET_OFFSET_DISTANCE as int)
                ==> is_target_offset(final(self).target_offset, compass),
            final(self).wf(),
    {
        let fresh: Vec2 = generate_target_offset(compass, dice);
        self.update_with(dt, target, compass, fresh);
    }

    /// Shoots at the nearest living asteroid if the drone is ready and the
    /// asteroid is nearer than the firing distance. Otherwise nothing
    /// changes.
    pub fn fire(&mut self, asteroids: &Vec<Asteroid>, compass: &Compass) -> (r: Option<Bullet>)
        requires
            old(self).wf(),
            all_sound(asteroids@),
            compass.wf(),
        ensures
            final(self).wf(),
            r.is_some() == old(self).shoots(asteroids@),
            !old(self).ready() ==> r.is_none(),
            none_alive(asteroids@) ==> r.is_none(),
            match r {
                None => *final(self) == *old(self),
                Some(bullet) => {
                    &&& *final(self) == old(self).fired()
                    &&& bullet.wf()
                    &&& old(self).sends(bullet, asteroids@, compass)
                },
            },
    {
        if self.is_fast_moving || self.reload_time > 0 {
            return None;
        }
        match nearest_living(asteroids, self.position) {
            None => None,
            Some(i) => {
                proof {
                    lemma_nearest_is_one(asteroids@, self.position, i as int);
                }
                let target: Vec2 = asteroids[i].position();
                if self.position.inside(target, FIRE_DISTANCE) {
                    let angle: i64 = compass.bearing(target.minus(self.position));
                    let start: Vec2 = self.position.plus(compass.unit(angle).scaled(PROPELLER_RADIUS));
                    self.reload_time = RELOAD_TIME;
                    self.charge = drain(self.charge, FIRE_CHARGE_COST);
                    let bullet: Bullet = Bullet::new(start, angle);
                    assert(old(self).is_shot_at(bullet, asteroids@[i as int].position, compass));
                    Some(bullet)
                } else {
                    None
                }
            },
        }
    }

    pub fn is_alive(&self) -> (r: bool)
        ensures
            r == (self.charge > 0),
            r == self.is_alive_spec(),
    {
        self.charge > 0
    }

    pub fn position(&self) -> (r: Vec2)
        ensures
            r == self.position,
    {
        self.position
    }

    pub fn asteroid_collision(&self, asteroid: &Asteroid) -> (r: bool)
        requires
            self.wf(),
            asteroid.wf(),
        ensures
            r == self.asteroid_collision_spec(asteroid),
    {
        asteroid.position().reaches(self.position, asteroid.radius() + HALF_SIZE)
    }

    /// Ends the drone if another drone at `position` touches it.
    pub fn drone_collision(&mut self, position: Vec2) -> (r: bool)
        requires
            old(self).wf(),
            position.in_world(),
        ensures
            r == old(self).drone_collision_spec(position),
            r ==> *final(self) == old(self).destroyed(),
            !r ==> *final(self) == *old(self),
            final(self).wf(),
    {
        if position.reaches(self.position, 2 * HALF_SIZE) {
            self.destroy();
            true
        } else {
            false
        }
    }

    /// Takes the charge that is left, which ends the drone.
    pub fn destroy(&mut self)
        ensures
            *final(self) == old(self).destroyed(),
            !final(self).is_alive_spec(),
            old(self).wf() ==> final(self).wf(),
    {
        if self.charge > 0 {
            self.charge = 0;
        }
    }
}

impl Mortal for Drone {
    open spec fn sound(&self) -> bool {
        self.wf()
    }

    open spec fn lives(&self) -> bool {
        self.is_alive_spec()
    }

    fn still_lives(&self) -> (r: bool) {
        self.is_alive()
    }
}

/// The drones after each has had its chance to shoot.
pub open spec fn all_fired(drones: Seq<Drone>, asteroids: Seq<Asteroid>) -> Seq<Drone> {
    Seq::new(
        drones.len(),
        |i: int|
            if drones[i].shoots(asteroids) {
                drones[i].fired()
            } else {
                drones[i]
            },
    )
}

/// `bullet` is the shot of one of the drones that shoot.
pub open spec fn sent_by_one(bullet: Bullet, drones: Seq<Drone>, asteroids: Seq<Asteroid>, compass: &Compass) -> bool {
    exists|d: int|
        0 <= d < drones.len() && drones[d].shoots(asteroids) && #[trigger] drones[d].sends(
            bullet,
            asteroids,
            compass,
        )
}

/// Every bullet behind the first `from` is the shot of one of the drones
/// that shoot.
pub open spec fn all_sent(
    bullets: Seq<Bullet>,
    from: int,
    drones: Seq<Drone>,
    asteroids: Seq<Asteroid>,
    compass: &Compass,
) -> bool {
    forall|k: int| from <= k < bullets.len() ==> sent_by_one(#[trigger] bullets[k], drones, asteroids, compass)
}

/// Lets every drone shoot that can; the shots join the bullets, one for
/// each drone that shoots.
pub fn fire_all(drones: &mut Vec<Drone>, asteroids: &Vec<Asteroid>, bullets: &mut Vec<Bullet>, compass: &Compass)
    requires
        all_sound(old(drones)@),
        all_sound(asteroids@),
        compass.wf(),
    ensures
        final(drones)@ == all_fired(old(drones)@, asteroids@),
        all_sound(final(drones)@),
        extends(old(bullets)@, final(bullets)@),
        final(bullets)@.len() == old(bullets)@.len() + old(drones)@.filter(
            |d: Drone| d.shoots(asteroids@),
        ).len(),
        all_sent(final(bullets)@, old(bullets)@.len() as int, old(drones)@, asteroids@, compass),
        all_sound(old(bullets)@) ==> all_sound(final(bullets)@),
{
    let ghost before = drones@;
    let ghost loaded = bullets@;
    let ghost shooting = |d: Drone| d.shoots(asteroids@);
    let mut i: usize = 0;
    proof {
        assert(before.take(0) =~= Seq::<Drone>::empty());
        before.take(0).lemma_filter_len(shooting);
        assert(loaded.take(loaded.len() as int) =~= loaded);
    }
    while i < drones.len()
        invariant
            compass.wf(),
            all_sound(before),
            all_sound(asteroids@),
            shooting == (|d: Drone| d.shoots(asteroids@)),
            drones@.len() == before.len(),
            i <= before.len(),
            forall|k: int| 0 <= k < i ==> #[trigger] drones@[k] == all_fired(before, asteroids@)[k],
            forall|k: int| 0 <= k < i ==> (#[trigger] drones@[k]).wf(),
            forall|k: int| i <= k < before.len() ==> #[trigger] drones@[k] == before[k],
            extends(loaded, bullets@),
            bullets@.len() == loaded.len() + before.take(i as int).filter(shooting).len(),
            all_sent(bullets@, loaded.len() as int, before, asteroids@, compass),
            all_sound(loaded) ==> all_sound(bullets@),
        decreases before.len() - i,
    {
        proof {
            assert(before.take(i + 1) =~= before.take(i as int).push(before[i as int]));
            before.take(i as int).lemma_filter_push(before[i as int], shooting);
        }
        let mut drone: Drone = drones[i];
        let shot: Option<Bullet> = drone.fire(asteroids, compass);
        drones.set(i, drone);
        match shot {
            Some(bullet) => {
                let ghost so_far = bullets@;
                bullets.push(bullet);
                proof {
                    assert(bullets@.take(loaded.len() as int) =~= so_far.take(loaded.len() as int));
                    assert(forall|k: int| 0 <= k < so_far.len() ==> #[trigger] bullets@[k] == so_far[k]);
                    assert(before[i as int].shoots(asteroids@) && before[i as int].sends(
                        bullet,
                        asteroids@,
                        compass,
                    ));
                    assert forall|k: int| loaded.len() <= k < bullets@.len() implies sent_by_one(
                        #[trigger] bullets@[k],
                        before,
                        asteroids@,
                        compass,
                    ) by {
                        if k == so_far.len() {
                            assert(before[i as int].sends(bullets@[k], asteroids@, compass));
                        } else {
                            assert(sent_by_one(so_far[k], before, asteroids@, compass));
                        }
                    }
                }
            },
            None => {},
        }
        i += 1;
    }
    proof {
        assert(before.take(i as int) =~= before);
        assert(drones@ =~= all_fired(before, asteroids@));
    }
}

/// `after` is what `dt` milliseconds of escorting `target` make of the
/// drones `before`; a drone that has come to its aim has some new offset.
pub open spec fn all_updated(
    before: Seq<Drone>,
    dt: u32,
    target: Vec2,
    compass: &Compass,
    after: Seq<Drone>,
) -> bool {
    &&& after.len() == before.len()
    &&& forall|i: int|
        0 <= i < before.len() ==> #[trigger] after[i] == before[i].updated(
            dt,
            target,
            compass,
            after[i].target_offset,
        )
}

/// Moves every drone on by `dt` milliseconds.
pub fn update_all(drones: &mut Vec<Drone>, dt: u32, target: Vec2, compass: &Compass, dice: &Dice)
    requires
        all_sound(old(drones)@),
        target.in_world(),
        compass.wf(),
    ensures
        all_updated(old(drones)@, dt, target, compass, final(drones)@),
        all_sound(final(drones)@),
{
    let ghost before = drones@;
    let mut i: usize = 0;
    while i < drones.len()
        invariant
            compass.wf(),
            target.in_world(),
            all_sound(before),
            drones@.len() == before.len(),
            i <= before.len(),
            forall|k: int|
                0 <= k < i ==> #[trigger] drones@[k] == before[k].updated(
                    dt,
                    target,
                    compass,
                    drones@[k].target_offset,
                ),
            forall|k: int| 0 <= k < i ==> (#[trigger] drones@[k]).wf(),
            forall|k: int| i <= k < before.len() ==> #[trigger] drones@[k] == before[k],
        decreases before.len() - i,
    {
        let mut drone: Drone = drones[i];
        drone.update(dt, target, compass, dice);
        drones.set(i, drone);
        i += 1;
    }
}

/// Only one asteroid is the nearest.
pub proof fn lemma_nearest_is_one(asteroids: Seq<Asteroid>, from: Vec2, i: int)
    requires
        is_nearest(asteroids, from, i),
    ensures
        forall|j: int| is_nearest(asteroids, from, j) ==> j == i,
        !none_alive(asteroids),
{
    assert forall|j: int| is_nearest(asteroids, from, j) implies j == i by {
        if j < i {
            assert(asteroids[j].is_alive);
        } else if i < j {
            assert(asteroids[i].is_alive);
        }
    }
}

/// Something that happens to a drone.
pub enum Step {
    /// It flies for so many milliseconds after a target, with a fresh
    /// offset at hand.
    Update(u32, Vec2, Vec2),
    /// It shoots.
    Fire,
    /// It is destroyed.
    Destroy,
}

/// The drone after all of `steps`, one behind the other.
pub open spec fn after_steps(drone: Drone, compass: &Compass, steps: Seq<Step>) -> Drone
    decreases steps.len(),
{
    if steps.len() == 0 {
        drone
    } else {
        let earlier = after_steps(drone, compass, steps.drop_last());
        match steps.last() {
            Step::Update(dt, target, fresh) => earlier.updated(dt, target, compass, fresh),
            Step::Fire => earlier.fired(),
            Step::Destroy => earlier.destroyed(),
        }
    }
}

/// Whatever happens to a drone, and however often, its charge never
/// grows; and a drone without charge is dead and never alive again.
pub proof fn law_charge_never_grows(drone: Drone, compass: &Compass, steps: Seq<Step>)
    requires
        CHARGE_FLOOR <= drone.charge <= FULL_CHARGE_VALUE,
    ensures
        CHARGE_FLOOR <= after_steps(drone, compass, steps).charge <= drone.charge,
        !drone.is_alive_spec() ==> !after_steps(drone, compass, steps).is_alive_spec(),
    decreases steps.len(),
{
    if steps.len() > 0 {
        law_charge_never_grows(drone, compass, steps.drop_last());
    }
}

} // verus!
