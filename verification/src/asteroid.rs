//! Asteroids, and how one breaks into smaller ones.

use vstd::prelude::*;

use crate::explosions::Explosions;
use crate::geometry::{steer, steered, wrap, wrap_angle, Compass, Vec2, TURN};
use crate::lifecycle::{all_sound, extends, Mortal};
use crate::random::Dice;

verus! {

/// Points per second.
pub const MAX_MOVE_SPEED: i64 = 100_000;

/// Angle steps per second; an asteroid spins slower than this either way.
pub const MAX_ROTATION_SPEED: i64 = 3_000;

/// The radius of an asteroid of size 1.
pub const MIN_RADIUS: i64 = 25_000;

pub const MAX_ASTEROID_SIZE: u8 = 5;

/// The angle between one fragment and the next: a fifth of a turn.
pub const FRAGMENT_STEP: i64 = 1_256;

#[derive(Clone, Copy, Debug, PartialEq, Eq, Structural)]
pub struct Asteroid {
    pub position: Vec2,
    pub velocity: Vec2,
    pub angle: i64,
    pub rotation_speed: i64,
    pub size: u8,
    pub is_alive: bool,
}

impl Asteroid {
    pub open spec fn wf(&self) -> bool {
        &&& self.position.in_world()
        &&& self.velocity.within(MAX_MOVE_SPEED as int)
        &&& 0 <= self.angle < TURN
        &&& -MAX_ROTATION_SPEED <= self.rotation_speed < MAX_ROTATION_SPEED
        &&& 1 <= self.size <= MAX_ASTEROID_SIZE
    }

    pub open spec fn radius_spec(&self) -> int {
        self.size * MIN_RADIUS
    }

    /// The asteroid after `dt` milliseconds of drifting and spinning.
    pub open spec fn updated(&self, dt: u32) -> Asteroid {
        Asteroid {
            position: self.position.translated_spec(self.velocity, dt as int),
            angle: steered(self.angle as int, false, self.rotation_speed as int, dt as int) as i64,
            ..*self
        }
    }

    /// Two asteroids touch when their centres are no farther apart than the
    /// sum of their radii.
    pub open spec fn collision_spec(&self, other: &Asteroid) -> bool {
        self.position.reaches_spec(other.position, self.radius_spec() + other.radius_spec())
    }

    /// The direction in which fragment `k` leaves, for a first fragment
    /// that leaves along `offset`.
    pub open spec fn fragment_angle(offset: int, k: int) -> int {
        wrap(offset + k * FRAGMENT_STEP)
    }

    /// Fragment `k` of this asteroid: one size smaller, set on the circle
    /// of radius `size * MIN_RADIUS` round the centre, and leaving outward
    /// at full speed.
    pub open spec fn fragment(&self, compass: &Compass, offset: int, k: int, spin: int) -> Asteroid {
        let outward = compass@[Self::fragment_angle(offset, k)];
        Asteroid {
            position: self.position.plus_spec(outward.scaled_spec(self.size * MIN_RADIUS)),
            velocity: outward.scaled_spec(MAX_MOVE_SPEED as int),
            angle: 0,
            rotation_speed: spin as i64,
            size: (self.size - 1) as u8,
            is_alive: true,
        }
    }

    /// How many fragments the asteroid leaves when it is destroyed: as
    /// many as its size if it lives and is larger than size 1, else none.
    pub open spec fn fragments_spec(&self) -> int {
        if self.is_alive && self.size > 1 {
            self.size as int
        } else {
            0
        }
    }

    /// `child` is fragment `k` of `self`, whatever its spin.
    pub open spec fn has_fragment(&self, child: Asteroid, compass: &Compass, offset: int, k: int) -> bool {
        &&& -MAX_ROTATION_SPEED <= child.rotation_speed < MAX_ROTATION_SPEED
        &&& child == self.fragment(compass, offset, k, child.rotation_speed as int)
    }

    /// What destroying `self` with the first fragment along `offset` makes
    /// of it and of the pending fragments: `after` and `grown`.
    pub open spec fn shattered(
        &self,
        pending: Seq<Asteroid>,
        compass: &Compass,
        offset: int,
        after: Asteroid,
        grown: Seq<Asteroid>,
    ) -> bool {
        if !self.is_alive {
            after == *self && grown == pending
        } else {
            &&& after == (Asteroid { is_alive: false, ..*self })
            &&& if self.size <= 1 {
                grown == pending
            } else {
                &&& grown.len() == pending.len() + self.size
                &&& grown.take(pending.len() as int) == pending
                &&& forall|i: int|
                    pending.len() <= i < grown.len() ==> self.has_fragment(
                        #[trigger] grown[i],
                        compass,
                        offset,
                        i - pending.len(),
                    )
            }
        }
    }

    /// What destroying `self` makes of it and of the pending fragments,
    /// whichever way the first fragment leaves.
    pub open spec fn destroyed(
        &self,
        pending: Seq<Asteroid>,
        compass: &Compass,
        after: Asteroid,
        grown: Seq<Asteroid>,
    ) -> bool {
        exists|offset: int| 0 <= offset < TURN && #[trigger] self.shattered(pending, compass, offset, after, grown)
    }

    /// The fragments behind `pending` in `grown` stand on the circle of
    /// radius `size * MIN_RADIUS` round the centre, a fifth of a turn from
    /// one to the next, the first along `offset`.
    pub open spec fn ringed_by(
        &self,
        pending: Seq<Asteroid>,
        compass: &Compass,
        offset: int,
        grown: Seq<Asteroid>,
    ) -> bool {
        forall|i: int|
            pending.len() <= i < grown.len() ==> (#[trigger] grown[i]).position == self.position.plus_spec(
                compass@[wrap(offset + (i - pending.len()) * FRAGMENT_STEP)].scaled_spec(
                    self.size * MIN_RADIUS,
                ),
            )
    }

    /// An asteroid with every part given; `velocity` is in points per
    /// second.
    pub fn with_spin(position: Vec2, velocity: Vec2, size: u8, spin: i64) -> (r: Asteroid)
        requires
            position.in_world(),
            velocity.within(MAX_MOVE_SPEED as int),
            1 <= size <= MAX_ASTEROID_SIZE,
            -MAX_ROTATION_SPEED <= spin < MAX_ROTATION_SPEED,
        ensures
            r == (Asteroid { position, velocity, angle: 0, rotation_speed: spin, size, is_alive: true }),
            r.wf(),
    {
        Asteroid { position, velocity, angle: 0, rotation_speed: spin, size, is_alive: true }
    }

    /// A fresh asteroid of some size from 1 to 4 and some spin, moving at
    /// full speed along the unit vector `heading`.
    pub fn new(position: Vec2, heading: Vec2, dice: &Dice) -> (r: Asteroid)
        requires
            position.in_world(),
            heading.is_unit(),
        ensures
            1 <= r.size < MAX_ASTEROID_SIZE,
            -MAX_ROTATION_SPEED <= r.rotation_speed < MAX_ROTATION_SPEED,
            r == (Asteroid {
                position,
                velocity: heading.scaled_spec(MAX_MOVE_SPEED as int),
                angle: 0,
                rotation_speed: r.rotation_speed,
                size: r.size,
                is_alive: true,
            }),
            r.wf(),
    {
        let spin: i64 = dice.between(-MAX_ROTATION_SPEED, MAX_ROTATION_SPEED);
        let size: i64 = dice.between(1, 5);
        Self::with_spin(position, heading.scaled(MAX_MOVE_SPEED), size as u8, spin)
    }

    /// An asteroid of the given size and velocity, with some spin.
    pub fn new_smaller(position: Vec2, velocity: Vec2, size: u8, dice: &Dice) -> (r: Asteroid)
        requires
            position.in_world(),
            velocity.within(MAX_MOVE_SPEED as int),
            1 <= size <= MAX_ASTEROID_SIZE,
        ensures
            -MAX_ROTATION_SPEED <= r.rotation_speed < MAX_ROTATION_SPEED,
            r == (Asteroid {
                position,
                velocity,
                angle: 0,
                rotation_speed: r.rotation_speed,
                size,
                is_alive: true,
            }),
            r.wf(),
    {
        let spin: i64 = dice.between(-MAX_ROTATION_SPEED, MAX_ROTATION_SPEED);
        Self::with_spin(position, velocity, size, spin)
    }

    pub fn update(&mut self, dt: u32)
        requires
            old(self).wf(),
        ensures
            *final(self) == old(self).updated(dt),
            final(self).wf(),
    {
        self.position = self.position.translated(self.velocity, dt);
        self.angle = steer(self.angle, false, self.rotation_speed, dt);
    }

    pub fn is_alive(&self) -> (r: bool)
        ensures
            r == self.is_alive,
    {
        self.is_alive
    }

    pub fn position(&self) -> (r: Vec2)
        ensures
            r == self.position,
    {
        self.position
    }

    pub fn size(&self) -> (r: u8)
        ensures
            r == self.size,
    {
        self.size
    }

    pub fn radius(&self) -> (r: i64)
        ensures
            r == self.radius_spec(),
            0 <= r <= 255 * MIN_RADIUS,
    {
        self.size as i64 * MIN_RADIUS
    }

    pub fn collision(&self, other: &Asteroid) -> (r: bool)
        requires
            self.wf(),
            other.wf(),
        ensures
            r == self.collision_spec(other),
    {
        self.position.reaches(other.position, self.radius() + other.radius())
    }

    /// Fragment `k` of this asteroid, for a first fragment along `offset`.
    pub fn fragment_at(&self, compass: &Compass, offset: i64, k: u8, spin: i64) -> (r: Asteroid)
        requires
            self.wf(),
            compass.wf(),
            self.size > 1,
            k < self.size,
            0 <= offset < TURN,
            -MAX_ROTATION_SPEED <= spin < MAX_ROTATION_SPEED,
        ensures
            r == self.fragment(compass, offset as int, k as int, spin as int),
            r.wf(),
    {
        let angle: i64 = wrap_angle(offset + k as i64 * FRAGMENT_STEP);
        assert(angle == Self::fragment_angle(offset as int, k as int));
        let outward: Vec2 = compass.unit(angle);
        assert(outward == compass@[Self::fragment_angle(offset as int, k as int)]);
        let position: Vec2 = self.position.plus(outward.scaled(self.size as i64 * MIN_RADIUS));
        Self::with_spin(position, outward.scaled(MAX_MOVE_SPEED), self.size - 1, spin)
    }

    /// Destroys the asteroid, with the first fragment leaving along
    /// `offset`. A dead asteroid stays as it is. A living one dies, and if
    /// it is larger than size 1 it leaves as many fragments as its size in
    /// `new_asteroids`, each one size smaller.
    pub fn destroy_along(
        &mut self,
        new_asteroids: &mut Vec<Asteroid>,
        compass: &Compass,
        offset: i64,
        dice: &Dice,
    )
        requires
            old(self).wf(),
            compass.wf(),
            0 <= offset < TURN,
        ensures
            old(self).shattered(
                old(new_asteroids)@,
                compass,
                offset as int,
                *final(self),
                final(new_asteroids)@,
            ),
            *final(self) == (Asteroid { is_alive: false, ..*old(self) }),
            extends(old(new_asteroids)@, final(new_asteroids)@),
            final(new_asteroids)@.len() == old(new_asteroids)@.len() + old(self).fragments_spec(),
            final(self).wf(),
            all_sound(old(new_asteroids)@) ==> all_sound(final(new_asteroids)@),
    {
        if !self.is_alive {
            assert(new_asteroids@.take(new_asteroids@.len() as int) =~= new_asteroids@);
            return ;
        }
        self.is_alive = false;
        if self.size == 1 {
            assert(new_asteroids@.take(new_asteroids@.len() as int) =~= new_asteroids@);
            return ;
        }
        let ghost pending = new_asteroids@;
        let ghost parent = *old(self);
        let count: u8 = self.size;
        let mut k: u8 = 0;
        while k < count
            invariant
                compass.wf(),
                0 <= offset < TURN,
                parent.wf(),
                parent.size == count,
                count > 1,
                *self == (Asteroid { is_alive: false, ..parent }),
                k <= count,
                new_asteroids@.len() == pending.len() + k,
                new_asteroids@.take(pending.len() as int) == pending,
                forall|i: int|
                    pending.len() <= i < new_asteroids@.len() ==> parent.has_fragment(
                        #[trigger] new_asteroids@[i],
                        compass,
                        offset as int,
                        i - pending.len(),
                    ),
                all_sound(pending) ==> all_sound(new_asteroids@),
            decreases count - k,
        {
            let spin: i64 = dice.between(-MAX_ROTATION_SPEED, MAX_ROTATION_SPEED);
            let child: Asteroid = self.fragment_at(compass, offset, k, spin);
            let ghost so_far = new_asteroids@;
            new_asteroids.push(child);
            proof {
                assert(new_asteroids@.take(pending.len() as int) =~= so_far.take(pending.len() as int));
                assert(forall|i: int| 0 <= i < so_far.len() ==> #[trigger] new_asteroids@[i] == so_far[i]);
                assert(self.fragment(compass, offset as int, k as int, spin as int) == parent.fragment(
                    compass,
                    offset as int,
                    k as int,
                    spin as int,
                ));
            }
            k += 1;
        }
    }

    /// Destroys the asteroid, with the first fragment leaving in some
    /// direction.
    pub fn destroy(&mut self, new_asteroids: &mut Vec<Asteroid>, compass: &Compass, dice: &Dice)
        requires
            old(self).wf(),
            compass.wf(),
        ensures
            old(self).destroyed(old(new_asteroids)@, compass, *final(self), final(new_asteroids)@),
            *final(self) == (Asteroid { is_alive: false, ..*old(self) }),
            extends(old(new_asteroids)@, final(new_asteroids)@),
            final(new_asteroids)@.len() == old(new_asteroids)@.len() + old(self).fragments_spec(),
            final(self).wf(),
            all_sound(old(new_asteroids)@) ==> all_sound(final(new_asteroids)@),
    {
        let offset: i64 = dice.angle();
        self.destroy_along(new_asteroids, compass, offset, dice);
    }

    /// Takes the asteroid out of the battle without fragments.
    pub fn despawn(&mut self)
        ensures
            *final(self) == (Asteroid { is_alive: false, ..*old(self) }),
    {
        self.is_alive = false;
    }
}

impl Mortal for Asteroid {
    open spec fn sound(&self) -> bool {
        self.wf()
    }

    open spec fn lives(&self) -> bool {
        self.is_alive
    }

    fn still_lives(&self) -> (r: bool) {
        self.is_alive
    }
}

/// Every asteroid after `dt` milliseconds.
pub open spec fn all_updated(asteroids: Seq<Asteroid>, dt: u32) -> Seq<Asteroid> {
    Seq::new(asteroids.len(), |i: int| asteroids[i].updated(dt))
}

/// Moves every asteroid on by `dt` milliseconds.
pub fn update_all(asteroids: &mut Vec<Asteroid>, dt: u32)
    requires
        all_sound(old(asteroids)@),
    ensures
        final(asteroids)@ == all_updated(old(asteroids)@, dt),
        all_sound(final(asteroids)@),
{
    let ghost before = asteroids@;
    let mut i: usize = 0;
    while i < asteroids.len()
        invariant
            all_sound(before),
            asteroids@.len() == before.len(),
            i <= asteroids@.len(),
            forall|k: int| 0 <= k < i ==> #[trigger] asteroids@[k] == before[k].updated(dt),
            forall|k: int| 0 <= k < i ==> (#[trigger] asteroids@[k]).wf(),
            forall|k: int| i <= k < before.len() ==> #[trigger] asteroids@[k] == before[k],
        decreases asteroids@.len() - i,
    {
        let mut asteroid: Asteroid = asteroids[i];
        asteroid.update(dt);
        asteroids.set(i, asteroid);
        i += 1;
    }
    assert(asteroids@ =~= all_updated(before, dt));
}

/// The asteroids as they were, but that some of them may have died.
pub open spec fn faded(before: Seq<Asteroid>, after: Seq<Asteroid>) -> bool {
    &&& after.len() == before.len()
    &&& forall|k: int|
        0 <= k < before.len() ==> #[trigger] after[k] == (Asteroid {
            is_alive: before[k].is_alive && after[k].is_alive,
            ..before[k]
        })
}

/// Destroys the asteroid and marks the place with a burst of its size.
pub fn strike(
    asteroid: &mut Asteroid,
    new_asteroids: &mut Vec<Asteroid>,
    explosions: &mut Explosions,
    compass: &Compass,
    dice: &Dice,
)
    requires
        old(asteroid).wf(),
        compass.wf(),
    ensures
        old(asteroid).destroyed(old(new_asteroids)@, compass, *final(asteroid), final(new_asteroids)@),
        *final(asteroid) == (Asteroid { is_alive: false, ..*old(asteroid) }),
        extends(old(new_asteroids)@, final(new_asteroids)@),
        final(new_asteroids)@.len() == old(new_asteroids)@.len() + old(asteroid).fragments_spec(),
        Explosions::burst(
            old(explosions).particles@,
            old(asteroid).position,
            old(asteroid).size,
            final(explosions).particles@,
        ),
        all_sound(old(new_asteroids)@) ==> all_sound(final(new_asteroids)@),
        old(explosions).wf() ==> final(explosions).wf(),
{
    asteroid.destroy(new_asteroids, compass, dice);
    explosions.explode(asteroid.position(), asteroid.size(), dice);
}

/// The asteroids stand in the order of their distance from `from`, the
/// nearest first.
pub open spec fn sorted_by_distance(asteroids: Seq<Asteroid>, from: Vec2) -> bool {
    forall|i: int, j: int|
        0 <= i < j < asteroids.len() ==> from.distance_squared_spec((#[trigger] asteroids[i]).position)
            <= from.distance_squared_spec((#[trigger] asteroids[j]).position)
}

/// `after` holds the asteroids of `before` in another order: asteroid `i`
/// of `after` stood at `order[i]` in `before`, and asteroids that are as
/// far from `from` as each other stand as they stood.
pub open spec fn reordered(before: Seq<Asteroid>, after: Seq<Asteroid>, from: Vec2, order: Seq<int>) -> bool {
    &&& order.len() == before.len()
    &&& after.len() == before.len()
    &&& forall|i: int| 0 <= i < order.len() ==> 0 <= #[trigger] order[i] < before.len() && after[i] == before[order[i]]
    &&& forall|i: int, j: int| 0 <= i < j < order.len() ==> #[trigger] order[i] != #[trigger] order[j]
    &&& forall|i: int, j: int|
        0 <= i < j < order.len() && from.distance_squared_spec(after[i].position) == from.distance_squared_spec(
            after[j].position,
        ) ==> #[trigger] order[i] < #[trigger] order[j]
}

/// `after` holds the asteroids of `before` in the order of their distance
/// from `from`, the nearest first, and those that are as far as each
/// other as they stood.
pub open spec fn stably_sorted(before: Seq<Asteroid>, after: Seq<Asteroid>, from: Vec2) -> bool {
    &&& sorted_by_distance(after, from)
    &&& after.to_multiset() == before.to_multiset()
    &&& exists|order: Seq<int>| #[trigger] reordered(before, after, from, order)
}

fn swap_with_previous(asteroids: &mut Vec<Asteroid>, j: usize)
    requires
        0 < j < old(asteroids)@.len(),
    ensures
        final(asteroids)@ == old(asteroids)@.update(j - 1, old(asteroids)@[j as int]).update(
            j as int,
            old(asteroids)@[j - 1],
        ),
        final(asteroids)@.to_multiset() == old(asteroids)@.to_multiset(),
{
    let ghost before = asteroids@;
    let first: Asteroid = asteroids[j - 1];
    let second: Asteroid = asteroids[j];
    asteroids.set(j - 1, second);
    asteroids.set(j, first);
    proof {
        broadcast use vstd::multiset::group_multiset_axioms;

        let half = before.update(j - 1, second);
        vstd::seq_lib::to_multiset_update(before, j - 1, second);
        vstd::seq_lib::to_multiset_update(half, j as int, first);
        before.to_multiset_ensures();
        assert(before[j - 1] == first && before.contains(first));
        assert(before[j as int] == second && before.contains(second));
        assert(half[j as int] == second);
        assert(asteroids@ == half.update(j as int, first));
        assert(asteroids@.to_multiset() =~= before.to_multiset());
    }
}

/// Puts the asteroids in the order of their distance from `from`, the
/// nearest first.
pub fn sort_by_distance(asteroids: &mut Vec<Asteroid>, from: Vec2)
    requires
        all_sound(old(asteroids)@),
        from.in_world(),
    ensures
        stably_sorted(old(asteroids)@, final(asteroids)@, from),
        final(asteroids)@.len() == old(asteroids)@.len(),
        all_sound(final(asteroids)@),
{
    let ghost before = asteroids@;
    let ghost mut order: Seq<int> = Seq::new(before.len(), |k: int| k);
    let n: usize = asteroids.len();
    let mut i: usize = 1;
    while i < n
        invariant
            reordered(before, asteroids@, from, order),
            from.in_world(),
            asteroids@.len() == n,
            1 <= i,
            all_sound(asteroids@),
            asteroids@.to_multiset() == before.to_multiset(),
            forall|a: int, b: int|
                0 <= a < b < i && b < n ==> from.distance_squared_spec((#[trigger] asteroids@[a]).position)
                    <= from.distance_squared_spec((#[trigger] asteroids@[b]).position),
        decreases n - i,
    {
        let mut j: usize = i;
        while j > 0 && from.distance_squared(asteroids[j - 1].position()) > from.distance_squared(
            asteroids[j].position(),
        )
            invariant
                reordered(before, asteroids@, from, order),
                from.in_world(),
                asteroids@.len() == n,
                j <= i < n,
                all_sound(asteroids@),
                asteroids@.to_multiset() == before.to_multiset(),
                forall|a: int, b: int|
                    0 <= a < b <= i && a != j && b != j ==> from.distance_squared_spec(
                        (#[trigger] asteroids@[a]).position,
                    ) <= from.distance_squared_spec((#[trigger] asteroids@[b]).position),
                forall|b: int|
                    j < b <= i ==> from.distance_squared_spec(asteroids@[j as int].position)
                        <= from.distance_squared_spec((#[trigger] asteroids@[b]).position),
            decreases j,
        {
            swap_with_previous(asteroids, j);
            proof {
                order = order.update(j - 1, order[j as int]).update(j as int, order[j - 1]);
            }
            j -= 1;
        }
        i += 1;
    }
}

/// Asteroid `i` is the living asteroid nearest to `from`, and the first of
/// those that are as near.
pub open spec fn is_nearest(asteroids: Seq<Asteroid>, from: Vec2, i: int) -> bool {
    &&& 0 <= i < asteroids.len()
    &&& asteroids[i].is_alive
    &&& forall|j: int|
        0 <= j < asteroids.len() && (#[trigger] asteroids[j]).is_alive ==> from.distance_squared_spec(
            asteroids[i].position,
        ) <= from.distance_squared_spec(asteroids[j].position)
    &&& forall|j: int|
        0 <= j < i && (#[trigger] asteroids[j]).is_alive ==> from.distance_squared_spec(asteroids[i].position)
            < from.distance_squared_spec(asteroids[j].position)
}

pub open spec fn none_alive(asteroids: Seq<Asteroid>) -> bool {
    forall|j: int| 0 <= j < asteroids.len() ==> !(#[trigger] asteroids[j]).is_alive
}

/// The living asteroid nearest to `from`, if any lives.
pub fn nearest_living(asteroids: &Vec<Asteroid>, from: Vec2) -> (r: Option<usize>)
    requires
        all_sound(asteroids@),
        from.in_world(),
    ensures
        match r {
            Some(i) => is_nearest(asteroids@, from, i as int),
            None => none_alive(asteroids@),
        },
{
    let mut best: Option<usize> = None;
    let mut best_distance: i64 = 0;
    let mut j: usize = 0;
    while j < asteroids.len()
        invariant
            all_sound(asteroids@),
            from.in_world(),
            j <= asteroids@.len(),
            match best {
                Some(i) => is_nearest(asteroids@.take(j as int), from, i as int) && best_distance
                    == from.distance_squared_spec(asteroids@[i as int].position),
                None => none_alive(asteroids@.take(j as int)),
            },
        decreases asteroids@.len() - j,
    {
        let candidate: Asteroid = asteroids[j];
        let ghost seen = asteroids@.take(j as int);
        let ghost more = asteroids@.take(j + 1);
        proof {
            assert(forall|k: int| 0 <= k < j ==> #[trigger] more[k] == seen[k]);
            assert(more[j as int] == candidate);
        }
        if candidate.is_alive() {
            let distance: i64 = from.distance_squared(candidate.position());
            match best {
                Some(_) => {
                    if distance < best_distance {
                        best = Some(j);
                        best_distance = distance;
                    }
                },
                None => {
                    best = Some(j);
                    best_distance = distance;
                },
            }
        }
        j += 1;
    }
    assert(asteroids@.take(j as int) =~= asteroids@);
    best
}

/// A living asteroid larger than size 1 leaves exactly as many fragments
/// as its size, each one size smaller and alive, and what was pending
/// before stays in front of them.
pub proof fn law_fragments_of_large(
    before: Asteroid,
    pending: Seq<Asteroid>,
    compass: &Compass,
    after: Asteroid,
    grown: Seq<Asteroid>,
)
    requires
        before.destroyed(pending, compass, after, grown),
        before.is_alive,
        before.size > 1,
    ensures
        FRAGMENT_STEP * MAX_ASTEROID_SIZE == TURN,
        !after.is_alive,
        grown.len() == pending.len() + before.size,
        grown.take(pending.len() as int) == pending,
        forall|i: int|
            pending.len() <= i < grown.len() ==> {
                &&& (#[trigger] grown[i]).size == before.size - 1
                &&& grown[i].is_alive
            },
        exists|offset: int|
            0 <= offset < TURN && #[trigger] before.ringed_by(pending, compass, offset, grown),
{
    let offset = choose|offset: int|
        0 <= offset < TURN && #[trigger] before.shattered(pending, compass, offset, after, grown);
    assert forall|i: int| pending.len() <= i < grown.len() implies {
        &&& (#[trigger] grown[i]).size == before.size - 1
        &&& grown[i].is_alive
        &&& grown[i].position == before.position.plus_spec(
            compass@[wrap(offset + (i - pending.len()) * FRAGMENT_STEP)].scaled_spec(
                before.size * MIN_RADIUS,
            ),
        )
    } by {
        assert(before.has_fragment(grown[i], compass, offset, i - pending.len()));
    }
    assert(before.ringed_by(pending, compass, offset, grown));
}

/// A living asteroid of size 1 dies and leaves no fragment.
pub proof fn law_smallest_leaves_nothing(
    before: Asteroid,
    pending: Seq<Asteroid>,
    compass: &Compass,
    after: Asteroid,
    grown: Seq<Asteroid>,
)
    requires
        before.destroyed(pending, compass, after, grown),
        before.is_alive,
        before.size == 1,
    ensures
        !after.is_alive,
        grown == pending,
{
}

/// Destroying an asteroid a second time changes neither the asteroid nor
/// the pending fragments: fragments come only once.
pub proof fn law_destroy_twice(
    before: Asteroid,
    pending: Seq<Asteroid>,
    compass: &Compass,
    once: Asteroid,
    grown: Seq<Asteroid>,
    twice: Asteroid,
    regrown: Seq<Asteroid>,
)
    requires
        before.destroyed(pending, compass, once, grown),
        once.destroyed(grown, compass, twice, regrown),
    ensures
        !once.is_alive,
        twice == once,
        regrown == grown,
{
}

} // verus!
