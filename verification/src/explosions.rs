//! The bursts of particles that mark what was destroyed.

use vstd::prelude::*;

use crate::geometry::{Compass, Vec2};
use crate::lifecycle::{all_sound, keep_living, lemma_living_sound, living};
use crate::particle::{all_updated, update_all, Particle};
use crate::random::Dice;

verus! {

pub const PARTICLES_PER_POWER_POINT: usize = 20;

/// Milliseconds that every particle of a burst lives at least.
pub const PARTICLE_LIFE: i64 = 200;

/// A particle of a burst lives less than this much longer.
pub const PARTICLE_LIFE_SPREAD: i64 = 500;

pub struct Explosions {
    pub particles: Vec<Particle>,
}

impl Explosions {
    pub open spec fn wf(&self) -> bool {
        all_sound(self.particles@)
    }

    /// `p` belongs to a fresh burst at `center`.
    pub open spec fn is_spark(p: Particle, center: Vec2) -> bool {
        &&& p.position == center
        &&& PARTICLE_LIFE <= p.life < PARTICLE_LIFE + PARTICLE_LIFE_SPREAD
        &&& p.wf()
    }

    /// `grown` is `before` with a burst of the given power at `center`
    /// behind it: twenty particles for each point of power.
    pub open spec fn burst(before: Seq<Particle>, center: Vec2, power: u8, grown: Seq<Particle>) -> bool {
        &&& grown.len() == before.len() + power * PARTICLES_PER_POWER_POINT
        &&& grown.take(before.len() as int) == before
        &&& forall|i: int| before.len() <= i < grown.len() ==> Self::is_spark(#[trigger] grown[i], center)
    }

    pub fn new() -> (r: Explosions)
        ensures
            r.particles@.len() == 0,
            r.wf(),
    {
        Explosions { particles: Vec::new() }
    }

    pub fn explode(&mut self, center: Vec2, power: u8, dice: &Dice)
        requires
            center.in_world(),
        ensures
            Self::burst(old(self).particles@, center, power, final(self).particles@),
            old(self).wf() ==> final(self).wf(),
    {
        let ghost before = self.particles@;
        let count: usize = power as usize * PARTICLES_PER_POWER_POINT;
        let mut n: usize = 0;
        while n < count
            invariant
                center.in_world(),
                n <= count,
                self.particles@.len() == before.len() + n,
                self.particles@.take(before.len() as int) == before,
                forall|i: int|
                    before.len() <= i < self.particles@.len() ==> Self::is_spark(
                        #[trigger] self.particles@[i],
                        center,
                    ),
                all_sound(before) ==> all_sound(self.particles@),
            decreases count - n,
        {
            let angle: i64 = dice.angle();
            let extra: i64 = dice.between(0, PARTICLE_LIFE_SPREAD);
            let spark: Particle = Particle::new(center, angle, (PARTICLE_LIFE + extra) as u32, dice);
            let ghost so_far = self.particles@;
            self.particles.push(spark);
            proof {
                assert(self.particles@.take(before.len() as int) =~= so_far.take(before.len() as int));
                assert(forall|i: int| 0 <= i < so_far.len() ==> #[trigger] self.particles@[i] == so_far[i]);
            }
            n += 1;
        }
    }

    /// Moves every particle on and drops those whose life has run out.
    pub fn update(&mut self, dt: u32, compass: &Compass)
        requires
            old(self).wf(),
            compass.wf(),
        ensures
            final(self).particles@ == living(all_updated(old(self).particles@, compass, dt)),
            final(self).wf(),
    {
        update_all(&mut self.particles, dt, compass);
        let ghost moved = self.particles@;
        keep_living(&mut self.particles);
        proof {
            lemma_living_sound(moved);
        }
    }

    pub fn particles_count(&self) -> (r: usize)
        ensures
            r == self.particles@.len(),
    {
        self.particles.len()
    }
}

} // verus!
