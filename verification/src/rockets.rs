//! The swarm of rockets and what each of them makes for.

use vstd::prelude::*;

use crate::asteroid::{sort_by_distance, sorted_by_distance, stably_sorted, Asteroid};
use crate::explosions::Explosions;
use crate::geometry::{count_within, lemma_count_within_step, Compass, Vec2};
use crate::lifecycle::{
    all_sound, extends, keep_living, lemma_extends_self, lemma_extends_twice, lemma_living_sound, living,
};
use crate::particle::{all_updated, update_all, Particle};
use crate::random::Dice;
use crate::rocket::Rocket;
use crate::ship::Ship;

verus! {

/// What rocket `i` of the swarm makes for: asteroid `i`, or the last
/// asteroid if there are not so many, or the origin if there is none.
pub open spec fn target_of(asteroids: Seq<Asteroid>, i: int) -> Vec2 {
    if 0 <= i < asteroids.len() {
        asteroids[i].position
    } else if asteroids.len() > 0 {
        asteroids.last().position
    } else {
        Vec2 { x: 0, y: 0 }
    }
}

/// Every rocket after `dt` milliseconds of flying toward its target.
pub open spec fn all_flown(rockets: Seq<Rocket>, asteroids: Seq<Asteroid>, dt: u32, compass: &Compass) -> Seq<
    Rocket,
> {
    Seq::new(rockets.len(), |i: int| rockets[i].updated(target_of(asteroids, i), dt, compass))
}

/// The rockets after an asteroid has passed among them: those that it
/// touches are destroyed.
pub open spec fn all_struck(rockets: Seq<Rocket>, asteroid: &Asteroid) -> Seq<Rocket> {
    Seq::new(
        rockets.len(),
        |i: int|
            if rockets[i].asteroid_collision_spec(asteroid) {
                Rocket { is_alive: false, ..rockets[i] }
            } else {
                rockets[i]
            },
    )
}

/// Whether the asteroid touches any of the rockets.
pub open spec fn struck_by_any(asteroid: Asteroid, rockets: Seq<Rocket>) -> bool {
    exists|k: int| 0 <= k < rockets.len() && (#[trigger] rockets[k]).asteroid_collision_spec(&asteroid)
}

/// Where the rockets are.
pub open spec fn places(rockets: Seq<Rocket>) -> Seq<Vec2> {
    Seq::new(rockets.len(), |k: int| rockets[k].position)
}

/// How many of the rockets the asteroid touches.
pub open spec fn strikes(rockets: Seq<Rocket>, asteroid: Asteroid) -> int {
    count_within(asteroid.position, asteroid.radius_spec() + crate::rocket::HEIGHT, places(rockets))
}

/// What rocket `i` of the swarm makes for.
pub fn target_for(asteroids: &Vec<Asteroid>, i: usize) -> (r: Vec2)
    ensures
        r == target_of(asteroids@, i as int),
{
    if i < asteroids.len() {
        asteroids[i].position()
    } else if asteroids.len() > 0 {
        asteroids[asteroids.len() - 1].position()
    } else {
        Vec2 { x: 0, y: 0 }
    }
}

pub struct Rockets {
    pub rockets: Vec<Rocket>,
    pub particles: Vec<Particle>,
}

impl Rockets {
    pub open spec fn wf(&self) -> bool {
        all_sound(self.rockets@) && all_sound(self.particles@)
    }

    /// What the exhaust `before` becomes in a frame: the dead leave, the
    /// rest move on, and each rocket adds one particle at its tail.
    pub open spec fn exhaust_after(
        before: Seq<Particle>,
        rockets: Seq<Rocket>,
        dt: u32,
        compass: &Compass,
        after: Seq<Particle>,
    ) -> bool {
        let kept = all_updated(living(before), compass, dt);
        &&& after.len() == kept.len() + rockets.len()
        &&& after.take(kept.len() as int) == kept
        &&& forall|i: int|
            kept.len() <= i < after.len() ==> (#[trigger] after[i]).position == rockets[i - kept.len()].tail(
                compass,
            ) && 100 <= after[i].life < 200 && after[i].wf()
    }

    pub fn new() -> (r: Rockets)
        ensures
            r.rockets@.len() == 0,
            r.particles@.len() == 0,
            r.wf(),
    {
        Rockets { rockets: Vec::new(), particles: Vec::new() }
    }

    /// Drops the dead rockets, puts the asteroids in the order of their
    /// distance from the ship, and flies each rocket toward the asteroid of
    /// its rank.
    pub fn update(&mut self, asteroids: &mut Vec<Asteroid>, ship: &Ship, dt: u32, compass: &Compass, dice: &Dice)
        requires
            old(self).wf(),
            all_sound(old(asteroids)@),
            ship.wf(),
            compass.wf(),
        ensures
            stably_sorted(old(asteroids)@, final(asteroids)@, ship.position),
            final(asteroids)@.len() == old(asteroids)@.len(),
            all_sound(final(asteroids)@),
            final(self).rockets@ == all_flown(living(old(self).rockets@), final(asteroids)@, dt, compass),
            Self::exhaust_after(old(self).particles@, final(self).rockets@, dt, compass, final(self).particles@),
            final(self).wf(),
    {
        proof {
            lemma_living_sound(self.rockets@);
            lemma_living_sound(self.particles@);
        }
        keep_living(&mut self.rockets);
        sort_by_distance(asteroids, ship.position());
        let ghost alive = self.rockets@;
        let mut i: usize = 0;
        while i < self.rockets.len()
            invariant
                compass.wf(),
                all_sound(asteroids@),
                all_sound(alive),
                self.rockets@.len() == alive.len(),
                self.particles == old(self).particles,
                i <= alive.len(),
                forall|k: int|
                    0 <= k < i ==> #[trigger] self.rockets@[k] == alive[k].updated(
                        target_of(asteroids@, k),
                        dt,
                        compass,
                    ),
                forall|k: int| 0 <= k < i ==> (#[trigger] self.rockets@[k]).wf(),
                forall|k: int| i <= k < alive.len() ==> #[trigger] self.rockets@[k] == alive[k],
            decreases alive.len() - i,
        {
            let target: Vec2 = target_for(asteroids, i);
            proof {
                if i < asteroids@.len() {
                    assert(asteroids@[i as int].wf());
                } else if asteroids@.len() > 0 {
                    assert(asteroids@[asteroids@.len() - 1].wf());
                }
            }
            let mut rocket: Rocket = self.rockets[i];
            rocket.update(target, dt, compass);
            self.rockets.set(i, rocket);
            i += 1;
        }
        assert(self.rockets@ =~= all_flown(alive, asteroids@, dt, compass));
        keep_living(&mut self.particles);
        update_all(&mut self.particles, dt, compass);
        let ghost kept = self.particles@;
        let mut j: usize = 0;
        while j < self.rockets.len()
            invariant
                compass.wf(),
                all_sound(self.rockets@),
                self.rockets@ == all_flown(alive, asteroids@, dt, compass),
                all_sound(self.particles@),
                j <= self.rockets@.len(),
                self.particles@.len() == kept.len() + j,
                self.particles@.take(kept.len() as int) == kept,
                forall|k: int|
                    kept.len() <= k < self.particles@.len() ==> (#[trigger] self.particles@[k]).position
                        == self.rockets@[k - kept.len()].tail(compass) && 100 <= self.particles@[k].life < 200
                        && self.particles@[k].wf(),
            decreases self.rockets@.len() - j,
        {
            let spark: Particle = self.rockets[j].spawn_particle(compass, dice);
            let ghost so_far = self.particles@;
            self.particles.push(spark);
            proof {
                assert(self.particles@.take(kept.len() as int) =~= so_far.take(kept.len() as int));
                assert(forall|k: int| 0 <= k < so_far.len() ==> #[trigger] self.particles@[k] == so_far[k]);
            }
            j += 1;
        }
    }

    /// Lets an asteroid pass among the rockets: every rocket that it
    /// touches is destroyed, and each such touch destroys the asteroid and
    /// throws up a burst of the asteroid's size.
    pub fn asteroid_collision(
        &mut self,
        asteroid: &mut Asteroid,
        new_asteroids: &mut Vec<Asteroid>,
        explosions: &mut Explosions,
        compass: &Compass,
        dice: &Dice,
    )
        requires
            old(self).wf(),
            old(asteroid).wf(),
            compass.wf(),
        ensures
            final(self).rockets@ == all_struck(old(self).rockets@, &*old(asteroid)),
            final(self).particles == old(self).particles,
            final(self).wf(),
            final(asteroid).wf(),
            *final(asteroid) == (Asteroid {
                is_alive: old(asteroid).is_alive && !struck_by_any(*old(asteroid), old(self).rockets@),
                ..*old(asteroid)
            }),
            extends(old(new_asteroids)@, final(new_asteroids)@),
            extends(old(explosions).particles@, final(explosions).particles@),
            if struck_by_any(*old(asteroid), old(self).rockets@) {
                &&& old(asteroid).destroyed(old(new_asteroids)@, compass, *final(asteroid), final(new_asteroids)@)
                &&& final(new_asteroids)@.len() == old(new_asteroids)@.len() + old(asteroid).fragments_spec()
            } else {
                &&& final(new_asteroids)@ == old(new_asteroids)@
                &&& final(explosions).particles@ == old(explosions).particles@
            },
            final(explosions).particles@.len() == old(explosions).particles@.len() + strikes(
                old(self).rockets@,
                *old(asteroid),
            ) * (old(asteroid).size * crate::explosions::PARTICLES_PER_POWER_POINT),
            all_sound(old(new_asteroids)@) ==> all_sound(final(new_asteroids)@),
            old(explosions).wf() ==> final(explosions).wf(),
    {
        let ghost rockets = self.rockets@;
        let ghost rock = *asteroid;
        let ghost pending = new_asteroids@;
        let ghost sparks = explosions.particles@;
        let ghost reach: int = rock.radius_spec() + crate::rocket::HEIGHT;
        let ghost per: int = rock.size * crate::explosions::PARTICLES_PER_POWER_POINT;
        let ghost mut hits: int = 0;
        let mut i: usize = 0;
        proof {
            assert(places(rockets).take(0) =~= Seq::<Vec2>::empty());
            lemma_extends_self(pending);
            lemma_extends_self(sparks);
        }
        while i < self.rockets.len()
            invariant
                compass.wf(),
                rock.wf(),
                asteroid.wf(),
                all_sound(rockets),
                self.rockets@.len() == rockets.len(),
                self.particles == old(self).particles,
                i <= rockets.len(),
                reach == rock.radius_spec() + crate::rocket::HEIGHT,
                per == rock.size * crate::explosions::PARTICLES_PER_POWER_POINT,
                hits == count_within(rock.position, reach, places(rockets).take(i as int)),
                *asteroid == (Asteroid {
                    is_alive: rock.is_alive && !struck_by_any(rock, rockets.take(i as int)),
                    ..rock
                }),
                extends(pending, new_asteroids@),
                extends(sparks, explosions.particles@),
                forall|k: int| 0 <= k < i ==> #[trigger] self.rockets@[k] == all_struck(rockets, &rock)[k],
                forall|k: int| i <= k < rockets.len() ==> #[trigger] self.rockets@[k] == rockets[k],
                if struck_by_any(rock, rockets.take(i as int)) {
                    &&& rock.destroyed(pending, compass, *asteroid, new_asteroids@)
                    &&& new_asteroids@.len() == pending.len() + rock.fragments_spec()
                } else {
                    &&& new_asteroids@ == pending
                    &&& explosions.particles@ == sparks
                },
                explosions.particles@.len() == sparks.len() + hits * per,
                all_sound(pending) ==> all_sound(new_asteroids@),
                all_sound(sparks) ==> explosions.wf(),
            decreases rockets.len() - i,
        {
            proof {
                lemma_count_within_step(rock.position, reach, places(rockets), i as int);
                let ghost seen = rockets.take(i as int);
                let ghost more = rockets.take(i + 1);
                assert(forall|k: int| 0 <= k < i ==> #[trigger] more[k] == seen[k]);
                assert(more[i as int] == rockets[i as int]);
                assert(places(rockets)[i as int] == rockets[i as int].position);
            }
            let mut rocket: Rocket = self.rockets[i];
            if rocket.asteroid_collision(asteroid) {
                let ghost waiting = new_asteroids@;
                let ghost burning = explosions.particles@;
                asteroid.destroy(new_asteroids, compass, dice);
                explosions.explode(asteroid.position(), asteroid.size(), dice);
                rocket.destroy();
                self.rockets.set(i, rocket);
                proof {
                    assert((hits + 1) * per == hits * per + per) by (nonlinear_arith);
                    lemma_extends_twice(sparks, burning, explosions.particles@);
                    lemma_extends_twice(pending, waiting, new_asteroids@);
                    assert(rockets.take(i + 1)[i as int].asteroid_collision_spec(&rock));
                    hits = hits + 1;
                }
            }
            i += 1;
        }
        proof {
            assert(rockets.take(i as int) =~= rockets);
            assert(places(rockets).take(i as int) =~= places(rockets));
            assert(self.rockets@ =~= all_struck(rockets, &rock));
        }
    }

    pub fn push(&mut self, rocket: Rocket)
        ensures
            final(self).rockets@ == old(self).rockets@.push(rocket),
            final(self).particles == old(self).particles,
    {
        self.rockets.push(rocket);
    }

    pub fn particles_count(&self) -> (r: usize)
        ensures
            r == self.particles@.len(),
    {
        self.particles.len()
    }

    pub fn len(&self) -> (r: usize)
        ensures
            r == self.rockets@.len(),
    {
        self.rockets.len()
    }
}

/// With the asteroids in the order of their distance from the ship, a
/// rocket whose index is below their number makes for the asteroid of its
/// rank: none before it is farther and none behind it nearer. A rocket
/// beyond that makes for the farthest asteroid, and with no asteroid at
/// all for the origin.
pub proof fn law_targets_by_rank(asteroids: Seq<Asteroid>, from: Vec2, i: int)
    requires
        sorted_by_distance(asteroids, from),
        0 <= i,
    ensures
        i < asteroids.len() ==> target_of(asteroids, i) == asteroids[i].position,
        i < asteroids.len() ==> forall|j: int|
            0 <= j < i ==> from.distance_squared_spec((#[trigger] asteroids[j]).position)
                <= from.distance_squared_spec(target_of(asteroids, i)),
        i < asteroids.len() ==> forall|j: int|
            i < j < asteroids.len() ==> from.distance_squared_spec(target_of(asteroids, i))
                <= from.distance_squared_spec((#[trigger] asteroids[j]).position),
        i >= asteroids.len() > 0 ==> forall|j: int|
            0 <= j < asteroids.len() ==> from.distance_squared_spec((#[trigger] asteroids[j]).position)
                <= from.distance_squared_spec(target_of(asteroids, i)),
        asteroids.len() == 0 ==> target_of(asteroids, i) == (Vec2 { x: 0, y: 0 }),
{
    if i >= asteroids.len() && asteroids.len() > 0 {
        let last = asteroids.len() - 1;
        assert forall|j: int| 0 <= j < asteroids.len() implies from.distance_squared_spec(
            (#[trigger] asteroids[j]).position,
        ) <= from.distance_squared_spec(target_of(asteroids, i)) by {
            if j < last {
                assert(from.distance_squared_spec(asteroids[j].position) <= from.distance_squared_spec(
                    asteroids[last].position,
                ));
            }
        }
    }
}

} // verus!
