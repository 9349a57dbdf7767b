//! Short-lived debris of explosions and engines.

use vstd::prelude::*;

use crate::geometry::{wrap, wrap_angle, Compass, Vec2, TURN};
use crate::lifecycle::{all_sound, Mortal};
use crate::random::Dice;

verus! {

/// The slowest a particle flies, in points per second.
pub const MIN_SPEED: i64 = 400_000;

/// Every particle flies slower than this.
pub const MAX_SPEED: i64 = 600_000;

/// A speck that flies straight until its life runs out. Its life is a
/// countdown: a particle with none left is dead, and none lives for ever.
#[derive(Clone, Copy, Debug, PartialEq, Eq, Structural)]
pub struct Particle {
    pub position: Vec2,
    pub angle: i64,
    pub life: i64,
    pub speed: i64,
}

impl Particle {
    pub open spec fn wf(&self) -> bool {
        &&& self.position.in_world()
        &&& 0 <= self.angle < TURN
        &&& -(u32::MAX as int) <= self.life <= u32::MAX as int
        &&& MIN_SPEED <= self.speed < MAX_SPEED
    }

    /// The particle with every part given.
    pub open spec fn launched(position: Vec2, angle: int, life: u32, speed: int) -> Particle {
        Particle { position, angle: wrap(angle) as i64, life: life as i64, speed: speed as i64 }
    }

    /// The particle after `dt` milliseconds: it has moved along its angle,
    /// and what life it had left has run down.
    pub open spec fn updated(&self, compass: &Compass, dt: u32) -> Particle {
        Particle {
            position: self.position.translated_spec(
                compass@[self.angle as int].scaled_spec(self.speed as int),
                dt as int,
            ),
            life: if self.life > 0 {
                (self.life - dt) as i64
            } else {
                self.life
            },
            ..*self
        }
    }

    pub open spec fn is_alive_spec(&self) -> bool {
        self.life > 0
    }

    /// A particle of the given speed.
    pub fn with_speed(position: Vec2, angle: i64, life: u32, speed: i64) -> (r: Particle)
        requires
            position.in_world(),
            MIN_SPEED <= speed < MAX_SPEED,
        ensures
            r == Self::launched(position, angle as int, life, speed as int),
            r.wf(),
    {
        Particle { position, angle: wrap_angle(angle), life: life as i64, speed }
    }

    /// A particle of some speed between the slowest and the fastest.
    pub fn new(position: Vec2, angle: i64, life: u32, dice: &Dice) -> (r: Particle)
        requires
            position.in_world(),
        ensures
            MIN_SPEED <= r.speed < MAX_SPEED,
            r == Self::launched(position, angle as int, life, r.speed as int),
            r.wf(),
    {
        let speed: i64 = dice.between(MIN_SPEED, MAX_SPEED);
        Self::with_speed(position, angle, life, speed)
    }

    pub fn update(&mut self, dt: u32, compass: &Compass)
        requires
            old(self).wf(),
            compass.wf(),
        ensures
            *final(self) == old(self).updated(compass, dt),
            final(self).wf(),
    {
        let velocity: Vec2 = compass.unit(self.angle).scaled(self.speed);
        self.position = self.position.translated(velocity, dt);
        if self.life > 0 {
            self.life = self.life - dt as i64;
        }
    }

    pub fn is_alive(&self) -> (r: bool)
        ensures
            r == self.is_alive_spec(),
    {
        self.life > 0
    }
}

impl Mortal for Particle {
    open spec fn sound(&self) -> bool {
        self.wf()
    }

    open spec fn lives(&self) -> bool {
        self.is_alive_spec()
    }

    fn still_lives(&self) -> (r: bool) {
        self.is_alive()
    }
}

/// Every particle of `particles` after `dt` milliseconds.
pub open spec fn all_updated(particles: Seq<Particle>, compass: &Compass, dt: u32) -> Seq<Particle> {
    Seq::new(particles.len(), |i: int| particles[i].updated(compass, dt))
}

/// Moves every particle on by `dt` milliseconds.
pub fn update_all(particles: &mut Vec<Particle>, dt: u32, compass: &Compass)
    requires
        all_sound(old(particles)@),
        compass.wf(),
    ensures
        final(particles)@ == all_updated(old(particles)@, compass, dt),
        all_sound(final(particles)@),
{
    let ghost before = particles@;
    let mut i: usize = 0;
    while i < particles.len()
        invariant
            compass.wf(),
            all_sound(before),
            particles@.len() == before.len(),
            i <= particles@.len(),
            forall|k: int| 0 <= k < i ==> #[trigger] particles@[k] == before[k].updated(compass, dt),
            forall|k: int| 0 <= k < i ==> (#[trigger] particles@[k]).wf(),
            forall|k: int| i <= k < before.len() ==> #[trigger] particles@[k] == before[k],
        decreases particles@.len() - i,
    {
        let mut p: Particle = particles[i];
        p.update(dt, compass);
        particles.set(i, p);
        i += 1;
    }
    assert(particles@ =~= all_updated(before, compass, dt));
}

} // verus!
