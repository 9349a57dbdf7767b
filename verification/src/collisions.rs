//! The collisions of a frame: who touches whom, and what becomes of both.

use vstd::prelude::*;

use crate::asteroid::{faded, strike, Asteroid};
use crate::bullet::Bullet;
use crate::drone::Drone;
use crate::explosions::Explosions;
use crate::game::Event;
use crate::geometry::{count_within, lemma_count_within_step, Compass, Vec2};
use crate::lifecycle::{
    all_sound, extends, lemma_extends_push, lemma_extends_self, lemma_extends_twice, living,
};
use crate::mine::Mine;
use crate::random::Dice;
use crate::rocket::Rocket;
use crate::rockets::{places, strikes, struck_by_any, Rockets};
use crate::ship::Ship;

verus! {

/// The power of the burst that a destroyed drone leaves.
pub const DRONE_EXPLOSION_POWER: u8 = 4;

/// An asteroid this far from the ship leaves the battle.
pub const ASTEROID_DESPAWN_DISTANCE: i64 = 10_000_000;

/// The power of the burst of a mine that goes off.
pub const MINE_EXPLOSION_POWER: u8 = 8;

/// Whether the bullet touches the asteroid.
pub open spec fn touches(bullet: Bullet, asteroid: Asteroid) -> bool {
    bullet.collision_spec(asteroid.position, asteroid.radius_spec())
}

/// Whether the bullet touches any of the asteroids.
pub open spec fn bullet_struck(bullet: Bullet, asteroids: Seq<Asteroid>) -> bool {
    exists|k: int| 0 <= k < asteroids.len() && touches(bullet, #[trigger] asteroids[k])
}

/// How many fragments the asteroids leave that die between `before` and
/// `after`.
pub open spec fn fragments_left(before: Seq<Asteroid>, after: Seq<Asteroid>) -> int
    decreases before.len(),
{
    if before.len() == 0 || after.len() != before.len() {
        0
    } else {
        fragments_left(before.drop_last(), after.drop_last()) + if !after.last().is_alive {
            before.last().fragments_spec()
        } else {
            0
        }
    }
}

/// The sizes of those of the first `n` asteroids that the bullet touches,
/// added up.
pub open spec fn power_of_shot(bullet: Bullet, asteroids: Seq<Asteroid>, n: int) -> int
    decreases n,
{
    if n <= 0 {
        0
    } else {
        power_of_shot(bullet, asteroids, n - 1) + if n - 1 < asteroids.len() && touches(
            bullet,
            asteroids[n - 1],
        ) {
            asteroids[n - 1].size as int
        } else {
            0
        }
    }
}

/// The sizes of the asteroids that the first `n` bullets touch, added up:
/// an asteroid counts once for each bullet that touches it.
pub open spec fn power_of_shots(bullets: Seq<Bullet>, asteroids: Seq<Asteroid>, n: int) -> int
    decreases n,
{
    if n <= 0 {
        0
    } else {
        power_of_shots(bullets, asteroids, n - 1) + if n - 1 < bullets.len() {
            power_of_shot(bullets[n - 1], asteroids, asteroids.len() as int)
        } else {
            0
        }
    }
}

/// Asteroids that have not changed have left no fragments.
pub proof fn lemma_no_fragments_yet(asteroids: Seq<Asteroid>)
    ensures
        fragments_left(asteroids, asteroids) == 0,
    decreases asteroids.len(),
{
    if asteroids.len() > 0 {
        lemma_no_fragments_yet(asteroids.drop_last());
    }
}

/// When asteroid `a` dies, the fragments left grow by its own, unless it
/// was dead already.
pub proof fn lemma_fragments_of_one_more(before: Seq<Asteroid>, after: Seq<Asteroid>, a: int, dead: Asteroid)
    requires
        0 <= a < before.len(),
        after.len() == before.len(),
        !dead.is_alive,
    ensures
        fragments_left(before, after.update(a, dead)) == fragments_left(before, after) + if after[a].is_alive {
            before[a].fragments_spec()
        } else {
            0
        },
    decreases before.len(),
{
    let changed = after.update(a, dead);
    if a == before.len() - 1 {
        assert(changed.drop_last() =~= after.drop_last());
    } else {
        assert(changed.drop_last() =~= after.drop_last().update(a, dead));
        assert(changed.last() == after.last());
        lemma_fragments_of_one_more(before.drop_last(), after.drop_last(), a, dead);
    }
}

/// The fragments left on the way from `before` to `after` are those left
/// up to any state between and those left from there on.
pub proof fn lemma_fragments_chain(before: Seq<Asteroid>, between: Seq<Asteroid>, after: Seq<Asteroid>)
    requires
        faded(before, between),
        faded(between, after),
    ensures
        fragments_left(before, between) + fragments_left(between, after) == fragments_left(before, after),
        faded(before, after),
    decreases before.len(),
{
    if before.len() > 0 {
        let n = before.len() - 1;
        assert(between[n] == (Asteroid { is_alive: before[n].is_alive && between[n].is_alive, ..before[n] }));
        assert(after[n] == (Asteroid { is_alive: between[n].is_alive && after[n].is_alive, ..between[n] }));
        assert forall|k: int| 0 <= k < n implies #[trigger] between.drop_last()[k] == (Asteroid {
            is_alive: before.drop_last()[k].is_alive && between.drop_last()[k].is_alive,
            ..before.drop_last()[k]
        }) by {
            assert(between[k] == (Asteroid { is_alive: before[k].is_alive && between[k].is_alive, ..before[k] }));
        }
        assert forall|k: int| 0 <= k < n implies #[trigger] after.drop_last()[k] == (Asteroid {
            is_alive: between.drop_last()[k].is_alive && after.drop_last()[k].is_alive,
            ..between.drop_last()[k]
        }) by {
            assert(after[k] == (Asteroid { is_alive: between[k].is_alive && after[k].is_alive, ..between[k] }));
        }
        lemma_fragments_chain(before.drop_last(), between.drop_last(), after.drop_last());
    }
    assert forall|k: int| 0 <= k < before.len() implies #[trigger] after[k] == (Asteroid {
        is_alive: before[k].is_alive && after[k].is_alive,
        ..before[k]
    }) by {
        assert(between[k] == (Asteroid { is_alive: before[k].is_alive && between[k].is_alive, ..before[k] }));
        assert(after[k] == (Asteroid { is_alive: between[k].is_alive && after[k].is_alive, ..between[k] }));
    }
}

/// Asteroids that have died touch each other where they did alive, with
/// the power that they had.
pub proof fn lemma_same_place_power(before: Seq<Asteroid>, after: Seq<Asteroid>, i: int, n: int)
    requires
        faded(before, after),
        0 <= i < before.len(),
    ensures
        power_of_bumps(after, i, n) == power_of_bumps(before, i, n),
    decreases n,
{
    if n > 0 {
        lemma_same_place_power(before, after, i, n - 1);
        if n - 1 < before.len() {
            assert(after[n - 1].position == before[n - 1].position && after[n - 1].size == before[n - 1].size);
            assert(after[i].position == before[i].position && after[i].size == before[i].size);
        }
    }
}

/// None of the bullets touches any of the asteroids.
pub open spec fn none_struck(bullets: Seq<Bullet>, asteroids: Seq<Asteroid>) -> bool {
    forall|b: int| 0 <= b < bullets.len() ==> !bullet_struck(#[trigger] bullets[b], asteroids)
}

/// Whether any of the bullets touches the asteroid.
pub open spec fn asteroid_shot(asteroid: Asteroid, bullets: Seq<Bullet>) -> bool {
    exists|k: int| 0 <= k < bullets.len() && touches(#[trigger] bullets[k], asteroid)
}

/// The bullets after they have met the asteroids: those that touch one
/// are spent.
pub open spec fn all_spent(bullets: Seq<Bullet>, asteroids: Seq<Asteroid>) -> Seq<Bullet> {
    Seq::new(
        bullets.len(),
        |b: int|
            if bullet_struck(bullets[b], asteroids) {
                bullets[b].destroyed()
            } else {
                bullets[b]
            },
    )
}

/// The asteroids after they have met the bullets: those that a bullet
/// touches are dead.
pub open spec fn all_shot(asteroids: Seq<Asteroid>, bullets: Seq<Bullet>) -> Seq<Asteroid> {
    Seq::new(
        asteroids.len(),
        |a: int|
            Asteroid { is_alive: asteroids[a].is_alive && !asteroid_shot(asteroids[a], bullets), ..asteroids[a] },
    )
}

/// Whether asteroid `i` touches one of the first `n` asteroids other than
/// itself.
pub open spec fn bumps_any(asteroids: Seq<Asteroid>, i: int, n: int) -> bool {
    exists|j: int| 0 <= j < n && j < asteroids.len() && j != i && asteroids[i].collision_spec(&#[trigger] asteroids[j])
}

/// The asteroids after asteroid `i` has met the others: it is dead if it
/// touches any of them, and so is each that it touches.
pub open spec fn all_bumped(asteroids: Seq<Asteroid>, i: int) -> Seq<Asteroid> {
    Seq::new(
        asteroids.len(),
        |k: int|
            Asteroid {
                is_alive: asteroids[k].is_alive && !(if k == i {
                    bumps_any(asteroids, i, asteroids.len() as int)
                } else {
                    asteroids[i].collision_spec(&asteroids[k])
                }),
                ..asteroids[k]
            },
    )
}

/// Where the drones are.
pub open spec fn drone_places(drones: Seq<Drone>) -> Seq<Vec2> {
    Seq::new(drones.len(), |k: int| drones[k].position)
}

/// How many of the drones the asteroid touches.
pub open spec fn rams(asteroid: Asteroid, drones: Seq<Drone>) -> int {
    count_within(asteroid.position, asteroid.radius_spec() + crate::drone::HALF_SIZE, drone_places(drones))
}

/// Where the mines lie.
pub open spec fn mine_places(mines: Seq<Mine>) -> Seq<Vec2> {
    Seq::new(mines.len(), |k: int| mines[k].position)
}

/// How many of the mines the asteroid touches.
pub open spec fn trips(asteroid: Asteroid, mines: Seq<Mine>) -> int {
    count_within(asteroid.position, asteroid.radius_spec() + crate::mine::RADIUS, mine_places(mines))
}

/// The sizes of asteroid `i` and of each of the first `n` asteroids that
/// it touches, added up once for each such touch.
pub open spec fn power_of_bumps(asteroids: Seq<Asteroid>, i: int, n: int) -> int
    decreases n,
{
    if n <= 0 {
        0
    } else {
        power_of_bumps(asteroids, i, n - 1) + if n - 1 != i && n - 1 < asteroids.len()
            && asteroids[i].collision_spec(&asteroids[n - 1]) {
            asteroids[i].size + asteroids[n - 1].size
        } else {
            0
        }
    }
}

/// Whether the asteroid touches any of the drones.
pub open spec fn rams_any(asteroid: Asteroid, drones: Seq<Drone>) -> bool {
    exists|k: int| 0 <= k < drones.len() && (#[trigger] drones[k]).asteroid_collision_spec(&asteroid)
}

/// The drones after the asteroid has passed among them.
pub open spec fn all_rammed(drones: Seq<Drone>, asteroid: Asteroid) -> Seq<Drone> {
    Seq::new(
        drones.len(),
        |k: int|
            if drones[k].asteroid_collision_spec(&asteroid) {
                drones[k].destroyed()
            } else {
                drones[k]
            },
    )
}

/// Whether the asteroid touches any of the mines.
pub open spec fn trips_any(asteroid: Asteroid, mines: Seq<Mine>) -> bool {
    exists|k: int| 0 <= k < mines.len() && (#[trigger] mines[k]).asteroid_collision_spec(&asteroid)
}

/// The mines after the asteroid has passed among them.
pub open spec fn all_tripped(mines: Seq<Mine>, asteroid: Asteroid) -> Seq<Mine> {
    Seq::new(
        mines.len(),
        |k: int|
            Mine { is_alive: mines[k].is_alive && !mines[k].asteroid_collision_spec(&asteroid), ..mines[k] },
    )
}

/// Whether drone `i` touches one of the first `n` drones other than
/// itself.
pub open spec fn crashes_any(drones: Seq<Drone>, i: int, n: int) -> bool {
    exists|j: int|
        0 <= j < n && j < drones.len() && j != i && drones[i].drone_collision_spec((#[trigger] drones[j]).position)
}

/// The drones after each has met every other.
pub open spec fn all_crashed(drones: Seq<Drone>) -> Seq<Drone> {
    Seq::new(
        drones.len(),
        |i: int|
            if crashes_any(drones, i, drones.len() as int) {
                drones[i].destroyed()
            } else {
                drones[i]
            },
    )
}

/// Whether one of the first `n` asteroids other than asteroid `k` touches
/// asteroid `k`.
pub open spec fn bumped_by_any(asteroids: Seq<Asteroid>, k: int, n: int) -> bool {
    exists|a: int|
        0 <= a < n && a < asteroids.len() && a != k && (#[trigger] asteroids[a]).collision_spec(&asteroids[k])
}

/// Whether the asteroid has drifted out of the battle.
pub open spec fn far_off(asteroid: Asteroid, ship: Vec2) -> bool {
    !asteroid.position.inside_spec(ship, ASTEROID_DESPAWN_DISTANCE as int)
}

/// Whether asteroid `k` comes to its end in the frame's collisions: it
/// touches another asteroid, a rocket, a drone or a mine, or it has
/// drifted out of the battle.
pub open spec fn doomed(
    asteroids: Seq<Asteroid>,
    k: int,
    ship: Vec2,
    rockets: Seq<Rocket>,
    drones: Seq<Drone>,
    mines: Seq<Mine>,
) -> bool {
    ||| bumps_any(asteroids, k, asteroids.len() as int)
    ||| struck_by_any(asteroids[k], rockets)
    ||| rams_any(asteroids[k], drones)
    ||| far_off(asteroids[k], ship)
    ||| trips_any(asteroids[k], mines)
}

/// None of the first `n` asteroids touches another asteroid, a rocket, a
/// drone or a mine.
pub open spec fn none_met(
    asteroids: Seq<Asteroid>,
    rockets: Seq<Rocket>,
    drones: Seq<Drone>,
    mines: Seq<Mine>,
    n: int,
) -> bool {
    forall|k: int|
        0 <= k < n && k < asteroids.len() ==> {
            &&& !bumps_any(asteroids, k, asteroids.len() as int)
            &&& !struck_by_any(#[trigger] asteroids[k], rockets)
            &&& !rams_any(asteroids[k], drones)
            &&& !trips_any(asteroids[k], mines)
        }
}

/// Whether asteroid `k` leaves the battle for having drifted too far
/// from the ship: it has, and nothing has touched it before it is taken
/// out.
pub open spec fn drifts_off(
    asteroids: Seq<Asteroid>,
    k: int,
    ship: Vec2,
    rockets: Seq<Rocket>,
    drones: Seq<Drone>,
) -> bool {
    &&& !bumped_by_any(asteroids, k, k)
    &&& !bumps_any(asteroids, k, asteroids.len() as int)
    &&& !struck_by_any(asteroids[k], rockets)
    &&& !rams_any(asteroids[k], drones)
    &&& far_off(asteroids[k], ship)
}

/// The fragments that those of the first `n` asteroids which drift off
/// would have left, had they been destroyed.
pub open spec fn fragments_lost(
    asteroids: Seq<Asteroid>,
    ship: Vec2,
    rockets: Seq<Rocket>,
    drones: Seq<Drone>,
    n: int,
) -> int
    decreases n,
{
    if n <= 0 {
        0
    } else {
        fragments_lost(asteroids, ship, rockets, drones, n - 1) + if n - 1 < asteroids.len() && drifts_off(
            asteroids,
            n - 1,
            ship,
            rockets,
            drones,
        ) {
            asteroids[n - 1].fragments_spec()
        } else {
            0
        }
    }
}

/// The particles that the touches of asteroid `k` throw up: twenty for
/// each point of power, where every touch of another asteroid has the
/// power of both sizes, every touch of a rocket that of the asteroid's
/// size, and every touch of a drone or a mine that of the asteroid's size
/// and of the drone's or the mine's own burst.
pub open spec fn sparks_of(
    asteroids: Seq<Asteroid>,
    k: int,
    rockets: Seq<Rocket>,
    drones: Seq<Drone>,
    mines: Seq<Mine>,
) -> int {
    crate::explosions::PARTICLES_PER_POWER_POINT * power_of_bumps(asteroids, k, asteroids.len() as int) + strikes(
        rockets,
        asteroids[k],
    ) * (asteroids[k].size * crate::explosions::PARTICLES_PER_POWER_POINT) + rams(asteroids[k], drones) * ((
        asteroids[k].size + DRONE_EXPLOSION_POWER) * crate::explosions::PARTICLES_PER_POWER_POINT) + trips(
        asteroids[k],
        mines,
    ) * ((asteroids[k].size + MINE_EXPLOSION_POWER) * crate::explosions::PARTICLES_PER_POWER_POINT)
}

/// The particles that the touches of the first `n` asteroids throw up.
pub open spec fn sparks_of_pass(
    asteroids: Seq<Asteroid>,
    rockets: Seq<Rocket>,
    drones: Seq<Drone>,
    mines: Seq<Mine>,
    n: int,
) -> int
    decreases n,
{
    if n <= 0 {
        0
    } else {
        sparks_of_pass(asteroids, rockets, drones, mines, n - 1) + if n - 1 < asteroids.len() {
            sparks_of(asteroids, n - 1, rockets, drones, mines)
        } else {
            0
        }
    }
}

/// How many events the first `n` asteroids give rise to: one for each
/// that has drifted too far, and one for each mine that any of them
/// touches.
pub open spec fn reports_of_pass(asteroids: Seq<Asteroid>, ship: Vec2, mines: Seq<Mine>, n: int) -> int
    decreases n,
{
    if n <= 0 {
        0
    } else {
        reports_of_pass(asteroids, ship, mines, n - 1) + if n - 1 < asteroids.len() {
            trips(asteroids[n - 1], mines) + if far_off(asteroids[n - 1], ship) {
                1int
            } else {
                0int
            }
        } else {
            0
        }
    }
}

/// The asteroids after the frame's collisions: the doomed are dead, and
/// so is each that another asteroid touches.
pub open spec fn all_met(
    asteroids: Seq<Asteroid>,
    ship: Vec2,
    rockets: Seq<Rocket>,
    drones: Seq<Drone>,
    mines: Seq<Mine>,
) -> Seq<Asteroid> {
    Seq::new(
        asteroids.len(),
        |k: int|
            Asteroid {
                is_alive: asteroids[k].is_alive && !bumped_by_any(asteroids, k, asteroids.len() as int)
                    && !doomed(asteroids, k, ship, rockets, drones, mines),
                ..asteroids[k]
            },
    )
}

/// Whether any of the first `n` asteroids touches the rocket.
pub open spec fn rocket_hit(rocket: Rocket, asteroids: Seq<Asteroid>, n: int) -> bool {
    exists|k: int| 0 <= k < n && k < asteroids.len() && rocket.asteroid_collision_spec(&#[trigger] asteroids[k])
}

/// Whether any of the first `n` asteroids touches the drone.
pub open spec fn drone_hit(drone: Drone, asteroids: Seq<Asteroid>, n: int) -> bool {
    exists|k: int| 0 <= k < n && k < asteroids.len() && drone.asteroid_collision_spec(&#[trigger] asteroids[k])
}

/// Whether any of the first `n` asteroids touches the mine.
pub open spec fn mine_hit(mine: Mine, asteroids: Seq<Asteroid>, n: int) -> bool {
    exists|k: int| 0 <= k < n && k < asteroids.len() && mine.asteroid_collision_spec(&#[trigger] asteroids[k])
}

/// The rockets after the first `n` asteroids have passed among them.
pub open spec fn rockets_met(rockets: Seq<Rocket>, asteroids: Seq<Asteroid>, n: int) -> Seq<Rocket> {
    Seq::new(
        rockets.len(),
        |r: int| Rocket { is_alive: rockets[r].is_alive && !rocket_hit(rockets[r], asteroids, n), ..rockets[r] },
    )
}

/// The drones after the first `n` asteroids have passed among them.
pub open spec fn drones_met(drones: Seq<Drone>, asteroids: Seq<Asteroid>, n: int) -> Seq<Drone> {
    Seq::new(
        drones.len(),
        |d: int|
            if drone_hit(drones[d], asteroids, n) {
                drones[d].destroyed()
            } else {
                drones[d]
            },
    )
}

/// The mines after the first `n` asteroids have passed among them.
pub open spec fn mines_met(mines: Seq<Mine>, asteroids: Seq<Asteroid>, n: int) -> Seq<Mine> {
    Seq::new(
        mines.len(),
        |m: int| Mine { is_alive: mines[m].is_alive && !mine_hit(mines[m], asteroids, n), ..mines[m] },
    )
}

/// Whether the ship touches one of the first `n` asteroids.
pub open spec fn ship_hit(ship: &Ship, asteroids: Seq<Asteroid>, n: int) -> bool {
    exists|k: int| 0 <= k < n && k < asteroids.len() && ship.asteroid_collision_spec(&#[trigger] asteroids[k])
}

/// Whether the ship touches any of the asteroids.
pub open spec fn ship_struck(ship: &Ship, asteroids: Seq<Asteroid>) -> bool {
    exists|k: int| 0 <= k < asteroids.len() && ship.asteroid_collision_spec(&#[trigger] asteroids[k])
}

/// Lets every bullet meet every asteroid: a bullet that touches an
/// asteroid is spent, and the asteroid is destroyed with a burst of its
/// size.
pub fn collide_bullets(
    bullets: &mut Vec<Bullet>,
    asteroids: &mut Vec<Asteroid>,
    new_asteroids: &mut Vec<Asteroid>,
    explosions: &mut Explosions,
    compass: &Compass,
    dice: &Dice,
)
    requires
        all_sound(old(bullets)@),
        all_sound(old(asteroids)@),
        all_sound(old(new_asteroids)@),
        old(explosions).wf(),
        compass.wf(),
    ensures
        final(bullets)@ == all_spent(old(bullets)@, old(asteroids)@),
        final(asteroids)@ == all_shot(old(asteroids)@, old(bullets)@),
        extends(old(new_asteroids)@, final(new_asteroids)@),
        extends(old(explosions).particles@, final(explosions).particles@),
        none_struck(old(bullets)@, old(asteroids)@) ==> final(new_asteroids)@ == old(new_asteroids)@ && final(explosions).particles@ == old(explosions).particles@,
        final(new_asteroids)@.len() == old(new_asteroids)@.len() + fragments_left(
            old(asteroids)@,
            final(asteroids)@,
        ),
        final(explosions).particles@.len() == old(explosions).particles@.len()
            + crate::explosions::PARTICLES_PER_POWER_POINT * power_of_shots(
            old(bullets)@,
            old(asteroids)@,
            old(bullets)@.len() as int,
        ),
        all_sound(final(bullets)@),
        all_sound(final(asteroids)@),
        all_sound(final(new_asteroids)@),
        final(explosions).wf(),
{
    let ghost shots = bullets@;
    let ghost rocks = asteroids@;
    let ghost pending = new_asteroids@;
    let ghost sparks = explosions.particles@;
    assert(pending.take(pending.len() as int) =~= pending);
    assert(sparks.take(sparks.len() as int) =~= sparks);
    proof {
        lemma_no_fragments_yet(rocks);
    }
    let mut b: usize = 0;
    while b < bullets.len()
        invariant
            new_asteroids@.len() == pending.len() + fragments_left(rocks, asteroids@),
            explosions.particles@.len() == sparks.len() + 20 * power_of_shots(shots, rocks, b as int),
            compass.wf(),
            all_sound(shots),
            all_sound(rocks),
            bullets@.len() == shots.len(),
            asteroids@.len() == rocks.len(),
            b <= shots.len(),
            faded(rocks, asteroids@),
            forall|k: int|
                0 <= k < b ==> #[trigger] bullets@[k] == (if bullet_struck(shots[k], rocks) {
                    shots[k].destroyed()
                } else {
                    shots[k]
                }),
            forall|k: int| b <= k < shots.len() ==> #[trigger] bullets@[k] == shots[k],
            forall|a: int|
                0 <= a < rocks.len() ==> ((#[trigger] asteroids@[a]).is_alive <==> rocks[a].is_alive
                    && !asteroid_shot(rocks[a], shots.take(b as int))),
            none_struck(shots.take(b as int), rocks) ==> new_asteroids@ == pending && explosions.particles@
                == sparks,
            extends(pending, new_asteroids@),
            extends(sparks, explosions.particles@),
            all_sound(asteroids@),
            all_sound(new_asteroids@),
            explosions.wf(),
        decreases shots.len() - b,
    {
        let mut bullet: Bullet = bullets[b];
        let ghost flying = bullet;
        let mut a: usize = 0;
        while a < asteroids.len()
            invariant
                new_asteroids@.len() == pending.len() + fragments_left(rocks, asteroids@),
                explosions.particles@.len() == sparks.len() + 20 * (power_of_shots(shots, rocks, b as int)
                    + power_of_shot(flying, rocks, a as int)),
                compass.wf(),
                all_sound(shots),
                all_sound(rocks),
                bullets@.len() == shots.len(),
                asteroids@.len() == rocks.len(),
                b < shots.len(),
                flying == shots[b as int],
                a <= rocks.len(),
                faded(rocks, asteroids@),
                bullet == (if bullet_struck(flying, rocks.take(a as int)) {
                    flying.destroyed()
                } else {
                    flying
                }),
                forall|k: int|
                    0 <= k < a ==> ((#[trigger] asteroids@[k]).is_alive <==> rocks[k].is_alive && !asteroid_shot(
                        rocks[k],
                        shots.take(b + 1),
                    )),
                forall|k: int|
                    a <= k < rocks.len() ==> ((#[trigger] asteroids@[k]).is_alive <==> rocks[k].is_alive
                        && !asteroid_shot(rocks[k], shots.take(b as int))),
                none_struck(shots.take(b as int), rocks) && !bullet_struck(flying, rocks.take(a as int))
                    ==> new_asteroids@ == pending && explosions.particles@ == sparks,
                extends(pending, new_asteroids@),
                extends(sparks, explosions.particles@),
                all_sound(asteroids@),
                all_sound(new_asteroids@),
                explosions.wf(),
            decreases rocks.len() - a,
        {
            let mut asteroid: Asteroid = asteroids[a];
            let ghost earlier = shots.take(b as int);
            let ghost now = shots.take(b + 1);
            proof {
                assert(asteroid.position == rocks[a as int].position);
                assert(asteroid.size == rocks[a as int].size);
                assert(forall|k: int| 0 <= k < b ==> #[trigger] now[k] == earlier[k]);
                assert(now[b as int] == flying);
                let ghost seen = rocks.take(a as int);
                let ghost more = rocks.take(a + 1);
                assert(forall|k: int| 0 <= k < a ==> #[trigger] more[k] == seen[k]);
                assert(more[a as int] == rocks[a as int]);
                assert(flying.position == bullet.position);
            }
            if bullet.collision(asteroid.position(), asteroid.radius()) {
                let ghost waiting = new_asteroids@;
                let ghost burning = explosions.particles@;
                let ghost standing = asteroids@;
                bullet.destroy();
                strike(&mut asteroid, new_asteroids, explosions, compass, dice);
                asteroids.set(a, asteroid);
                proof {
                    lemma_fragments_of_one_more(rocks, standing, a as int, asteroid);
                    assert(standing[a as int].is_alive ==> rocks[a as int].is_alive);
                    assert(standing[a as int].size == rocks[a as int].size);
                    assert(new_asteroids@.take(pending.len() as int) =~= waiting.take(pending.len() as int));
                    assert(explosions.particles@.take(sparks.len() as int) =~= burning.take(
                        sparks.len() as int,
                    ));
                    assert(touches(flying, rocks[a as int]));
                    assert(touches(now[b as int], rocks[a as int]));
                    assert(touches(flying, rocks.take(a + 1)[a as int]));
                }
            } else {
                proof {
                    assert(!touches(flying, rocks[a as int]));
                }
            }
            a += 1;
        }
        bullets.set(b, bullet);
        proof {
            assert(rocks.take(a as int) =~= rocks);
            let ghost earlier = shots.take(b as int);
            let ghost now = shots.take(b + 1);
            assert(forall|k: int| 0 <= k < b ==> #[trigger] now[k] == earlier[k]);
            assert(now[b as int] == flying);
            if none_struck(now, rocks) {
                assert(!bullet_struck(now[b as int], rocks));
                assert forall|k: int| 0 <= k < earlier.len() implies !bullet_struck(
                    #[trigger] earlier[k],
                    rocks,
                ) by {
                    assert(now[k] == earlier[k]);
                }
            }
        }
        b += 1;
    }
    proof {
        assert(shots.take(b as int) =~= shots);
        assert(bullets@ =~= all_spent(shots, rocks));
        assert(asteroids@ =~= all_shot(rocks, shots));
    }
}

/// Lets asteroid `i` meet every other asteroid: where two touch, both
/// are destroyed, each with a burst of its size.
pub fn collide_with_others(
    asteroids: &mut Vec<Asteroid>,
    i: usize,
    new_asteroids: &mut Vec<Asteroid>,
    explosions: &mut Explosions,
    compass: &Compass,
    dice: &Dice,
)
    requires
        i < old(asteroids)@.len(),
        all_sound(old(asteroids)@),
        all_sound(old(new_asteroids)@),
        old(explosions).wf(),
        compass.wf(),
    ensures
        final(asteroids)@ == all_bumped(old(asteroids)@, i as int),
        extends(old(new_asteroids)@, final(new_asteroids)@),
        extends(old(explosions).particles@, final(explosions).particles@),
        !bumps_any(old(asteroids)@, i as int, old(asteroids)@.len() as int) ==> final(new_asteroids)@ == old(new_asteroids)@ && final(explosions).particles@ == old(explosions).particles@,
        final(new_asteroids)@.len() == old(new_asteroids)@.len() + fragments_left(
            old(asteroids)@,
            final(asteroids)@,
        ),
        final(explosions).particles@.len() == old(explosions).particles@.len()
            + crate::explosions::PARTICLES_PER_POWER_POINT * power_of_bumps(
            old(asteroids)@,
            i as int,
            old(asteroids)@.len() as int,
        ),
        all_sound(final(asteroids)@),
        all_sound(final(new_asteroids)@),
        final(explosions).wf(),
{
    let ghost rocks = asteroids@;
    let ghost pending = new_asteroids@;
    let ghost sparks = explosions.particles@;
    assert(pending.take(pending.len() as int) =~= pending);
    assert(sparks.take(sparks.len() as int) =~= sparks);
    proof {
        lemma_no_fragments_yet(rocks);
    }
    let mut j: usize = 0;
    while j < asteroids.len()
        invariant
            compass.wf(),
            all_sound(rocks),
            asteroids@.len() == rocks.len(),
            i < rocks.len(),
            j <= rocks.len(),
            faded(rocks, asteroids@),
            asteroids@[i as int].is_alive <==> rocks[i as int].is_alive && !bumps_any(rocks, i as int, j as int),
            forall|k: int|
                0 <= k < j && k != i ==> ((#[trigger] asteroids@[k]).is_alive <==> rocks[k].is_alive
                    && !rocks[i as int].collision_spec(&rocks[k])),
            forall|k: int| j <= k < rocks.len() && k != i ==> #[trigger] asteroids@[k] == rocks[k],
            !bumps_any(rocks, i as int, j as int) ==> new_asteroids@ == pending && explosions.particles@
                == sparks,
            new_asteroids@.len() == pending.len() + fragments_left(rocks, asteroids@),
            explosions.particles@.len() == sparks.len() + 20 * power_of_bumps(rocks, i as int, j as int),
            extends(pending, new_asteroids@),
            extends(sparks, explosions.particles@),
            all_sound(asteroids@),
            all_sound(new_asteroids@),
            explosions.wf(),
        decreases rocks.len() - j,
    {
        if i != j {
            let mut first: Asteroid = asteroids[i];
            let mut second: Asteroid = asteroids[j];
            proof {
                assert(first.position == rocks[i as int].position && first.size == rocks[i as int].size);
                assert(second.position == rocks[j as int].position && second.size == rocks[j as int].size);
            }
            if first.collision(&second) {
                let ghost waiting = new_asteroids@;
                let ghost burning = explosions.particles@;
                let ghost standing = asteroids@;
                first.destroy(new_asteroids, compass, dice);
                second.destroy(new_asteroids, compass, dice);
                explosions.explode(first.position(), first.size(), dice);
                explosions.explode(second.position(), second.size(), dice);
                asteroids.set(i, first);
                asteroids.set(j, second);
                proof {
                    lemma_fragments_of_one_more(rocks, standing, i as int, first);
                    lemma_fragments_of_one_more(rocks, standing.update(i as int, first), j as int, second);
                    assert(standing[i as int].is_alive ==> rocks[i as int].is_alive);
                    assert(standing[j as int].is_alive ==> rocks[j as int].is_alive);
                    assert(new_asteroids@.take(pending.len() as int) =~= waiting.take(pending.len() as int));
                    assert(explosions.particles@.take(sparks.len() as int) =~= burning.take(
                        sparks.len() as int,
                    ));
                    assert(rocks[i as int].collision_spec(&rocks[j as int]));
                }
            } else {
                proof {
                    assert(!rocks[i as int].collision_spec(&rocks[j as int]));
                }
            }
        }
        j += 1;
    }
    proof {
        assert(asteroids@ =~= all_bumped(rocks, i as int));
    }
}

/// Lets an asteroid pass among the drones: every drone that it touches is
/// destroyed with a burst of its own, and each such touch destroys the
/// asteroid with a burst of its size.
pub fn collide_with_drones(
    asteroid: &mut Asteroid,
    drones: &mut Vec<Drone>,
    new_asteroids: &mut Vec<Asteroid>,
    explosions: &mut Explosions,
    compass: &Compass,
    dice: &Dice,
)
    requires
        old(asteroid).wf(),
        all_sound(old(drones)@),
        all_sound(old(new_asteroids)@),
        old(explosions).wf(),
        compass.wf(),
    ensures
        final(drones)@ == all_rammed(old(drones)@, *old(asteroid)),
        *final(asteroid) == (Asteroid {
            is_alive: old(asteroid).is_alive && !rams_any(*old(asteroid), old(drones)@),
            ..*old(asteroid)
        }),
        if rams_any(*old(asteroid), old(drones)@) {
            &&& old(asteroid).destroyed(old(new_asteroids)@, compass, *final(asteroid), final(new_asteroids)@)
            &&& final(new_asteroids)@.len() == old(new_asteroids)@.len() + old(asteroid).fragments_spec()
        } else {
            &&& final(new_asteroids)@ == old(new_asteroids)@
            &&& final(explosions).particles@ == old(explosions).particles@
        },
        final(explosions).particles@.len() == old(explosions).particles@.len() + rams(
            *old(asteroid),
            old(drones)@,
        ) * ((old(asteroid).size + DRONE_EXPLOSION_POWER) * crate::explosions::PARTICLES_PER_POWER_POINT),
        extends(old(new_asteroids)@, final(new_asteroids)@),
        extends(old(explosions).particles@, final(explosions).particles@),
        all_sound(final(drones)@),
        all_sound(final(new_asteroids)@),
        final(explosions).wf(),
{
    let ghost rock = *asteroid;
    let ghost escorts = drones@;
    let ghost pending = new_asteroids@;
    let ghost sparks = explosions.particles@;
    let ghost per: int = (rock.size + DRONE_EXPLOSION_POWER) * crate::explosions::PARTICLES_PER_POWER_POINT;
    let ghost mut hits: int = 0;
    assert(pending.take(pending.len() as int) =~= pending);
    assert(sparks.take(sparks.len() as int) =~= sparks);
    assert(drone_places(escorts).take(0) =~= Seq::<Vec2>::empty());
    let mut j: usize = 0;
    while j < drones.len()
        invariant
            compass.wf(),
            rock.wf(),
            all_sound(escorts),
            drones@.len() == escorts.len(),
            j <= escorts.len(),
            *asteroid == (Asteroid {
                is_alive: rock.is_alive && !rams_any(rock, escorts.take(j as int)),
                ..rock
            }),
            if rams_any(rock, escorts.take(j as int)) {
                &&& rock.destroyed(pending, compass, *asteroid, new_asteroids@)
                &&& new_asteroids@.len() == pending.len() + rock.fragments_spec()
            } else {
                &&& new_asteroids@ == pending
                &&& explosions.particles@ == sparks
            },
            hits == count_within(
                rock.position,
                rock.radius_spec() + crate::drone::HALF_SIZE,
                drone_places(escorts).take(j as int),
            ),
            per == (rock.size + DRONE_EXPLOSION_POWER) * crate::explosions::PARTICLES_PER_POWER_POINT,
            explosions.particles@.len() == sparks.len() + hits * per,
            forall|k: int| 0 <= k < j ==> #[trigger] drones@[k] == all_rammed(escorts, rock)[k],
            forall|k: int| j <= k < escorts.len() ==> #[trigger] drones@[k] == escorts[k],
            extends(pending, new_asteroids@),
            extends(sparks, explosions.particles@),
            all_sound(drones@),
            all_sound(new_asteroids@),
            explosions.wf(),
        decreases escorts.len() - j,
    {
        let mut drone: Drone = drones[j];
        proof {
            let ghost seen = escorts.take(j as int);
            let ghost more = escorts.take(j + 1);
            assert(forall|k: int| 0 <= k < j ==> #[trigger] more[k] == seen[k]);
            assert(more[j as int] == escorts[j as int]);
            lemma_count_within_step(
                rock.position,
                rock.radius_spec() + crate::drone::HALF_SIZE,
                drone_places(escorts),
                j as int,
            );
            assert(drone_places(escorts)[j as int] == escorts[j as int].position);
        }
        if drone.asteroid_collision(asteroid) {
            let ghost waiting = new_asteroids@;
            let ghost burning = explosions.particles@;
            strike(asteroid, new_asteroids, explosions, compass, dice);
            let ghost smoking = explosions.particles@;
            explosions.explode(drone.position(), DRONE_EXPLOSION_POWER, dice);
            drone.destroy();
            drones.set(j, drone);
            proof {
                assert(new_asteroids@.take(pending.len() as int) =~= waiting.take(pending.len() as int));
                assert(smoking.take(sparks.len() as int) =~= burning.take(sparks.len() as int));
                assert(explosions.particles@.take(sparks.len() as int) =~= smoking.take(
                    sparks.len() as int,
                ));
                assert(escorts.take(j + 1)[j as int].asteroid_collision_spec(&rock));
                assert((hits + 1) * per == hits * per + per) by (nonlinear_arith);
                assert(per == rock.size * 20 + 80);
                hits = hits + 1;
            }
        }
        j += 1;
    }
    proof {
        assert(escorts.take(j as int) =~= escorts);
        assert(drone_places(escorts).take(j as int) =~= drone_places(escorts));
        assert(drones@ =~= all_rammed(escorts, rock));
    }
}

/// Lets an asteroid pass among the mines: every mine that it touches goes
/// off with a burst of its own, and each such touch destroys the asteroid
/// with a burst of its size.
pub fn collide_with_mines(
    asteroid: &mut Asteroid,
    mines: &mut Vec<Mine>,
    new_asteroids: &mut Vec<Asteroid>,
    explosions: &mut Explosions,
    events: &mut Vec<Event>,
    compass: &Compass,
    dice: &Dice,
)
    requires
        old(asteroid).wf(),
        all_sound(old(mines)@),
        all_sound(old(new_asteroids)@),
        old(explosions).wf(),
        compass.wf(),
    ensures
        final(mines)@ == all_tripped(old(mines)@, *old(asteroid)),
        *final(asteroid) == (Asteroid {
            is_alive: old(asteroid).is_alive && !trips_any(*old(asteroid), old(mines)@),
            ..*old(asteroid)
        }),
        extends(old(events)@, final(events)@),
        final(events)@.len() == old(events)@.len() + trips(*old(asteroid), old(mines)@),
        if trips_any(*old(asteroid), old(mines)@) {
            &&& old(asteroid).destroyed(old(new_asteroids)@, compass, *final(asteroid), final(new_asteroids)@)
            &&& final(new_asteroids)@.len() == old(new_asteroids)@.len() + old(asteroid).fragments_spec()
        } else {
            &&& final(events)@ == old(events)@
            &&& final(new_asteroids)@ == old(new_asteroids)@
            &&& final(explosions).particles@ == old(explosions).particles@
        },
        final(explosions).particles@.len() == old(explosions).particles@.len() + trips(
            *old(asteroid),
            old(mines)@,
        ) * ((old(asteroid).size + MINE_EXPLOSION_POWER) * crate::explosions::PARTICLES_PER_POWER_POINT),
        extends(old(new_asteroids)@, final(new_asteroids)@),
        extends(old(explosions).particles@, final(explosions).particles@),
        all_sound(final(mines)@),
        all_sound(final(new_asteroids)@),
        final(explosions).wf(),
{
    let ghost rock = *asteroid;
    let ghost field = mines@;
    let ghost pending = new_asteroids@;
    let ghost sparks = explosions.particles@;
    let ghost reported = events@;
    let ghost per: int = (rock.size + MINE_EXPLOSION_POWER) * crate::explosions::PARTICLES_PER_POWER_POINT;
    let ghost mut hits: int = 0;
    assert(pending.take(pending.len() as int) =~= pending);
    assert(sparks.take(sparks.len() as int) =~= sparks);
    assert(mine_places(field).take(0) =~= Seq::<Vec2>::empty());
    proof {
        lemma_extends_self(reported);
    }
    let mut j: usize = 0;
    while j < mines.len()
        invariant
            extends(reported, events@),
            events@.len() == reported.len() + hits,
            if trips_any(rock, field.take(j as int)) {
                &&& rock.destroyed(pending, compass, *asteroid, new_asteroids@)
                &&& new_asteroids@.len() == pending.len() + rock.fragments_spec()
            } else {
                &&& events@ == reported
                &&& new_asteroids@ == pending
                &&& explosions.particles@ == sparks
            },
            hits == count_within(
                rock.position,
                rock.radius_spec() + crate::mine::RADIUS,
                mine_places(field).take(j as int),
            ),
            per == (rock.size + MINE_EXPLOSION_POWER) * crate::explosions::PARTICLES_PER_POWER_POINT,
            explosions.particles@.len() == sparks.len() + hits * per,
            compass.wf(),
            rock.wf(),
            all_sound(field),
            mines@.len() == field.len(),
            j <= field.len(),
            *asteroid == (Asteroid {
                is_alive: rock.is_alive && !trips_any(rock, field.take(j as int)),
                ..rock
            }),
            forall|k: int| 0 <= k < j ==> #[trigger] mines@[k] == all_tripped(field, rock)[k],
            forall|k: int| j <= k < field.len() ==> #[trigger] mines@[k] == field[k],
            extends(pending, new_asteroids@),
            extends(sparks, explosions.particles@),
            all_sound(mines@),
            all_sound(new_asteroids@),
            explosions.wf(),
        decreases field.len() - j,
    {
        let mut mine: Mine = mines[j];
        proof {
            let ghost seen = field.take(j as int);
            let ghost more = field.take(j + 1);
            assert(forall|k: int| 0 <= k < j ==> #[trigger] more[k] == seen[k]);
            assert(more[j as int] == field[j as int]);
            lemma_count_within_step(
                rock.position,
                rock.radius_spec() + crate::mine::RADIUS,
                mine_places(field),
                j as int,
            );
            assert(mine_places(field)[j as int] == field[j as int].position);
        }
        if mine.asteroid_collision(asteroid) {
            let ghost waiting = new_asteroids@;
            let ghost burning = explosions.particles@;
            strike(asteroid, new_asteroids, explosions, compass, dice);
            let ghost smoking = explosions.particles@;
            explosions.explode(mine.position(), MINE_EXPLOSION_POWER, dice);
            mine.destroy();
            mines.set(j, mine);
            proof {
                lemma_extends_push(reported, events@, Event::MineExploded(mine.position));
            }
            events.push(Event::MineExploded(mine.position()));
            proof {
                assert(new_asteroids@.take(pending.len() as int) =~= waiting.take(pending.len() as int));
                assert(smoking.take(sparks.len() as int) =~= burning.take(sparks.len() as int));
                assert(explosions.particles@.take(sparks.len() as int) =~= smoking.take(
                    sparks.len() as int,
                ));
                assert(field.take(j + 1)[j as int].asteroid_collision_spec(&rock));
                assert((hits + 1) * per == hits * per + per) by (nonlinear_arith);
                hits = hits + 1;
            }
        }
        j += 1;
    }
    proof {
        assert(field.take(j as int) =~= field);
        assert(mine_places(field).take(j as int) =~= mine_places(field));
        assert(mines@ =~= all_tripped(field, rock));
    }
}

proof fn lemma_bumped_step(rocks: Seq<Asteroid>, k: int, i: int)
    requires
        0 <= i < rocks.len(),
    ensures
        bumped_by_any(rocks, k, i + 1) == (bumped_by_any(rocks, k, i) || (i != k && rocks[i].collision_spec(
            &rocks[k],
        ))),
{
    if bumped_by_any(rocks, k, i + 1) {
        let a = choose|a: int|
            0 <= a < i + 1 && a < rocks.len() && a != k && (#[trigger] rocks[a]).collision_spec(&rocks[k]);
        if a < i {
            assert(bumped_by_any(rocks, k, i));
        }
    }
    if bumped_by_any(rocks, k, i) {
        let a = choose|a: int|
            0 <= a < i && a < rocks.len() && a != k && (#[trigger] rocks[a]).collision_spec(&rocks[k]);
        assert(0 <= a < i + 1 && rocks[a].collision_spec(&rocks[k]));
    }
    if i != k && rocks[i].collision_spec(&rocks[k]) {
        assert(0 <= i < i + 1 && rocks[i].collision_spec(&rocks[k]));
    }
}

proof fn lemma_same_place_bumps(before: Seq<Asteroid>, after: Seq<Asteroid>, i: int)
    requires
        faded(before, after),
        0 <= i < before.len(),
    ensures
        bumps_any(after, i, after.len() as int) == bumps_any(before, i, before.len() as int),
        forall|k: int|
            0 <= k < before.len() ==> after[i].collision_spec(&#[trigger] after[k]) == before[i].collision_spec(
                &before[k],
            ),
{
    assert forall|k: int| 0 <= k < before.len() implies after[i].collision_spec(&#[trigger] after[k])
        == before[i].collision_spec(&before[k]) by {
        assert(after[k].position == before[k].position && after[k].size == before[k].size);
        assert(after[i].position == before[i].position && after[i].size == before[i].size);
    }
    if bumps_any(after, i, after.len() as int) {
        let j = choose|j: int|
            0 <= j < after.len() && j < after.len() && j != i && after[i].collision_spec(&#[trigger] after[j]);
        assert(before[i].collision_spec(&before[j]));
    }
    if bumps_any(before, i, before.len() as int) {
        let j = choose|j: int|
            0 <= j < before.len() && j < before.len() && j != i && before[i].collision_spec(
                &#[trigger] before[j],
            );
        assert(after[i].collision_spec(&after[j]));
    }
}

proof fn lemma_same_place_struck(x: Asteroid, y: Asteroid, flying: Seq<Rocket>, swarm: Seq<Rocket>)
    requires
        x.position == y.position,
        x.size == y.size,
        flying.len() == swarm.len(),
        forall|r: int| 0 <= r < swarm.len() ==> (#[trigger] flying[r]).position == swarm[r].position,
    ensures
        struck_by_any(x, flying) == struck_by_any(y, swarm),
{
    if struck_by_any(x, flying) {
        let r = choose|r: int| 0 <= r < flying.len() && (#[trigger] flying[r]).asteroid_collision_spec(&x);
        assert(swarm[r].asteroid_collision_spec(&y));
    }
    if struck_by_any(y, swarm) {
        let r = choose|r: int| 0 <= r < swarm.len() && (#[trigger] swarm[r]).asteroid_collision_spec(&y);
        assert(flying[r].asteroid_collision_spec(&x));
    }
}

proof fn lemma_same_place_rams(x: Asteroid, y: Asteroid, hovering: Seq<Drone>, escorts: Seq<Drone>)
    requires
        x.position == y.position,
        x.size == y.size,
        hovering.len() == escorts.len(),
        forall|d: int| 0 <= d < escorts.len() ==> (#[trigger] hovering[d]).position == escorts[d].position,
    ensures
        rams_any(x, hovering) == rams_any(y, escorts),
{
    if rams_any(x, hovering) {
        let d = choose|d: int| 0 <= d < hovering.len() && (#[trigger] hovering[d]).asteroid_collision_spec(&x);
        assert(escorts[d].asteroid_collision_spec(&y));
    }
    if rams_any(y, escorts) {
        let d = choose|d: int| 0 <= d < escorts.len() && (#[trigger] escorts[d]).asteroid_collision_spec(&y);
        assert(hovering[d].asteroid_collision_spec(&x));
    }
}

proof fn lemma_same_place_trips(x: Asteroid, y: Asteroid, lying: Seq<Mine>, field: Seq<Mine>)
    requires
        x.position == y.position,
        x.size == y.size,
        lying.len() == field.len(),
        forall|m: int| 0 <= m < field.len() ==> (#[trigger] lying[m]).position == field[m].position,
    ensures
        trips_any(x, lying) == trips_any(y, field),
{
    if trips_any(x, lying) {
        let m = choose|m: int| 0 <= m < lying.len() && (#[trigger] lying[m]).asteroid_collision_spec(&x);
        assert(field[m].asteroid_collision_spec(&y));
    }
    if trips_any(y, field) {
        let m = choose|m: int| 0 <= m < field.len() && (#[trigger] field[m]).asteroid_collision_spec(&y);
        assert(lying[m].asteroid_collision_spec(&x));
    }
}

/// Asteroids that touch nothing still touch nothing when some of them
/// have died.
pub proof fn lemma_quiet_after_shots(
    rocks: Seq<Asteroid>,
    shot: Seq<Asteroid>,
    rockets: Seq<Rocket>,
    drones: Seq<Drone>,
    mines: Seq<Mine>,
)
    requires
        faded(rocks, shot),
        none_met(rocks, rockets, drones, mines, rocks.len() as int),
    ensures
        none_met(shot, rockets, drones, mines, shot.len() as int),
{
    assert forall|k: int| 0 <= k < shot.len() implies {
        &&& !bumps_any(shot, k, shot.len() as int)
        &&& !struck_by_any(#[trigger] shot[k], rockets)
        &&& !rams_any(shot[k], drones)
        &&& !trips_any(shot[k], mines)
    } by {
        assert(!struck_by_any(rocks[k], rockets));
        lemma_same_place_bumps(rocks, shot, k);
        lemma_same_place_struck(shot[k], rocks[k], rockets, rockets);
        lemma_same_place_rams(shot[k], rocks[k], drones, drones);
        lemma_same_place_trips(shot[k], rocks[k], mines, mines);
    }
}

/// The ship touches asteroids that have died where it touched them alive.
pub proof fn lemma_same_place_ship(ship: &Ship, shot: Seq<Asteroid>, rocks: Seq<Asteroid>)
    requires
        faded(rocks, shot),
    ensures
        ship_struck(ship, shot) == ship_struck(ship, rocks),
{
    if ship_struck(ship, shot) {
        let k = choose|k: int| 0 <= k < shot.len() && ship.asteroid_collision_spec(&#[trigger] shot[k]);
        assert(ship.asteroid_collision_spec(&rocks[k]));
    }
    if ship_struck(ship, rocks) {
        let k = choose|k: int| 0 <= k < rocks.len() && ship.asteroid_collision_spec(&#[trigger] rocks[k]);
        assert(ship.asteroid_collision_spec(&shot[k]));
    }
}

/// Rockets, drones and mines touch asteroids that have died where they
/// touched them alive.
pub proof fn lemma_same_place_met(shot: Seq<Asteroid>, rocks: Seq<Asteroid>)
    requires
        faded(rocks, shot),
    ensures
        forall|r: Rocket| rocket_hit(r, shot, shot.len() as int) == rocket_hit(r, rocks, rocks.len() as int),
        forall|d: Drone| drone_hit(d, shot, shot.len() as int) == drone_hit(d, rocks, rocks.len() as int),
        forall|m: Mine| mine_hit(m, shot, shot.len() as int) == mine_hit(m, rocks, rocks.len() as int),
{
    assert forall|r: Rocket| rocket_hit(r, shot, shot.len() as int) == rocket_hit(
        r,
        rocks,
        rocks.len() as int,
    ) by {
        if rocket_hit(r, shot, shot.len() as int) {
            let k = choose|k: int|
                0 <= k < shot.len() && k < shot.len() && r.asteroid_collision_spec(&#[trigger] shot[k]);
            assert(r.asteroid_collision_spec(&rocks[k]));
        }
        if rocket_hit(r, rocks, rocks.len() as int) {
            let k = choose|k: int|
                0 <= k < rocks.len() && k < rocks.len() && r.asteroid_collision_spec(&#[trigger] rocks[k]);
            assert(r.asteroid_collision_spec(&shot[k]));
        }
    }
    assert forall|d: Drone| drone_hit(d, shot, shot.len() as int) == drone_hit(d, rocks, rocks.len() as int) by {
        if drone_hit(d, shot, shot.len() as int) {
            let k = choose|k: int|
                0 <= k < shot.len() && k < shot.len() && d.asteroid_collision_spec(&#[trigger] shot[k]);
            assert(d.asteroid_collision_spec(&rocks[k]));
        }
        if drone_hit(d, rocks, rocks.len() as int) {
            let k = choose|k: int|
                0 <= k < rocks.len() && k < rocks.len() && d.asteroid_collision_spec(&#[trigger] rocks[k]);
            assert(d.asteroid_collision_spec(&shot[k]));
        }
    }
    assert forall|m: Mine| mine_hit(m, shot, shot.len() as int) == mine_hit(m, rocks, rocks.len() as int) by {
        if mine_hit(m, shot, shot.len() as int) {
            let k = choose|k: int|
                0 <= k < shot.len() && k < shot.len() && m.asteroid_collision_spec(&#[trigger] shot[k]);
            assert(m.asteroid_collision_spec(&rocks[k]));
        }
        if mine_hit(m, rocks, rocks.len() as int) {
            let k = choose|k: int|
                0 <= k < rocks.len() && k < rocks.len() && m.asteroid_collision_spec(&#[trigger] rocks[k]);
            assert(m.asteroid_collision_spec(&shot[k]));
        }
    }
}

/// Lets every asteroid meet the other asteroids, the ship, the rockets,
/// the drones and the mines, and takes out those that have drifted too
/// far from the ship. Says whether the ship was touched.
pub fn collide_asteroids(
    asteroids: &mut Vec<Asteroid>,
    ship: &Ship,
    rockets: &mut Rockets,
    drones: &mut Vec<Drone>,
    mines: &mut Vec<Mine>,
    new_asteroids: &mut Vec<Asteroid>,
    explosions: &mut Explosions,
    events: &mut Vec<Event>,
    compass: &Compass,
    dice: &Dice,
) -> (struck: bool)
    requires
        all_sound(old(asteroids)@),
        ship.wf(),
        old(rockets).wf(),
        all_sound(old(drones)@),
        all_sound(old(mines)@),
        all_sound(old(new_asteroids)@),
        old(explosions).wf(),
        compass.wf(),
    ensures
        struck == ship_struck(ship, old(asteroids)@),
        final(asteroids)@ == all_met(
            old(asteroids)@,
            ship.position,
            old(rockets).rockets@,
            old(drones)@,
            old(mines)@,
        ),
        final(rockets).rockets@ == rockets_met(
            old(rockets).rockets@,
            old(asteroids)@,
            old(asteroids)@.len() as int,
        ),
        final(rockets).particles == old(rockets).particles,
        final(drones)@ == drones_met(old(drones)@, old(asteroids)@, old(asteroids)@.len() as int),
        final(mines)@ == mines_met(old(mines)@, old(asteroids)@, old(asteroids)@.len() as int),
        extends(old(events)@, final(events)@),
        extends(old(new_asteroids)@, final(new_asteroids)@),
        extends(old(explosions).particles@, final(explosions).particles@),
        none_met(
            old(asteroids)@,
            old(rockets).rockets@,
            old(drones)@,
            old(mines)@,
            old(asteroids)@.len() as int,
        ) ==> final(new_asteroids)@ == old(new_asteroids)@ && final(explosions).particles@ == old(explosions).particles@,
        final(new_asteroids)@.len() == old(new_asteroids)@.len() + fragments_left(
            old(asteroids)@,
            final(asteroids)@,
        ) - fragments_lost(
            old(asteroids)@,
            ship.position,
            old(rockets).rockets@,
            old(drones)@,
            old(asteroids)@.len() as int,
        ),
        final(explosions).particles@.len() == old(explosions).particles@.len() + sparks_of_pass(
            old(asteroids)@,
            old(rockets).rockets@,
            old(drones)@,
            old(mines)@,
            old(asteroids)@.len() as int,
        ),
        final(events)@.len() == old(events)@.len() + reports_of_pass(
            old(asteroids)@,
            ship.position,
            old(mines)@,
            old(asteroids)@.len() as int,
        ),
        all_sound(final(asteroids)@),
        final(rockets).wf(),
        all_sound(final(drones)@),
        all_sound(final(mines)@),
        all_sound(final(new_asteroids)@),
        final(explosions).wf(),
{
    let ghost rocks = asteroids@;
    let ghost swarm = rockets.rockets@;
    let ghost escorts = drones@;
    let ghost field = mines@;
    let ghost pending = new_asteroids@;
    let ghost sparks = explosions.particles@;
    assert(pending.take(pending.len() as int) =~= pending);
    assert(sparks.take(sparks.len() as int) =~= sparks);
    let ghost reported = events@;
    proof {
        lemma_extends_self(reported);
        lemma_no_fragments_yet(rocks);
    }
    let mut struck: bool = false;
    let mut i: usize = 0;
    while i < asteroids.len()
        invariant
            extends(reported, events@),
            none_met(rocks, swarm, escorts, field, i as int) ==> new_asteroids@ == pending
                && explosions.particles@ == sparks,
            faded(rocks, asteroids@),
            new_asteroids@.len() == pending.len() + fragments_left(rocks, asteroids@) - fragments_lost(
                rocks,
                ship.position,
                swarm,
                escorts,
                i as int,
            ),
            explosions.particles@.len() == sparks.len() + sparks_of_pass(rocks, swarm, escorts, field, i as int),
            events@.len() == reported.len() + reports_of_pass(rocks, ship.position, field, i as int),
            compass.wf(),
            ship.wf(),
            all_sound(rocks),
            all_sound(swarm),
            all_sound(escorts),
            all_sound(field),
            asteroids@.len() == rocks.len(),
            i <= rocks.len(),
            struck == ship_hit(ship, rocks, i as int),
            forall|k: int|
                0 <= k < rocks.len() ==> #[trigger] asteroids@[k] == (Asteroid {
                    is_alive: rocks[k].is_alive && !bumped_by_any(rocks, k, i as int) && !(k < i && doomed(
                        rocks,
                        k,
                        ship.position,
                        swarm,
                        escorts,
                        field,
                    )),
                    ..rocks[k]
                }),
            rockets.rockets@ == rockets_met(swarm, rocks, i as int),
            rockets.particles == old(rockets).particles,
            drones@ == drones_met(escorts, rocks, i as int),
            mines@ == mines_met(field, rocks, i as int),
            extends(pending, new_asteroids@),
            extends(sparks, explosions.particles@),
            all_sound(asteroids@),
            rockets.wf(),
            all_sound(drones@),
            all_sound(mines@),
            all_sound(new_asteroids@),
            explosions.wf(),
        decreases rocks.len() - i,
    {
        let ghost entering = asteroids@;
        let ghost waiting = new_asteroids@;
        let ghost burning = explosions.particles@;
        let ghost flying = rockets.rockets@;
        let ghost hovering = drones@;
        let ghost lying = mines@;
        collide_with_others(asteroids, i, new_asteroids, explosions, compass, dice);
        let ghost bumped = asteroids@;
        let mut asteroid: Asteroid = asteroids[i];
        if ship.asteroid_collision(&asteroid) {
            struck = true;
        }
        rockets.asteroid_collision(&mut asteroid, new_asteroids, explosions, compass, dice);
        collide_with_drones(&mut asteroid, drones, new_asteroids, explosions, compass, dice);
        if !asteroid.position().inside(ship.position(), ASTEROID_DESPAWN_DISTANCE) {
            asteroid.despawn();
            proof {
                lemma_extends_push(reported, events@, Event::AsteroidDespawned(asteroid.position));
            }
            events.push(Event::AsteroidDespawned(asteroid.position()));
        }
        let ghost noted = events@;
        collide_with_mines(&mut asteroid, mines, new_asteroids, explosions, events, compass, dice);
        asteroids.set(i, asteroid);
        proof {
            lemma_extends_twice(reported, noted, events@);
            let me = rocks[i as int];
            assert(faded(rocks, entering));
            lemma_same_place_bumps(rocks, entering, i as int);
            assert(forall|d: int|
                0 <= d < escorts.len() ==> (#[trigger] hovering[d]).position == escorts[d].position);
            assert(forall|m: int| 0 <= m < field.len() ==> (#[trigger] lying[m]).position == field[m].position);
            assert(new_asteroids@.take(pending.len() as int) =~= waiting.take(pending.len() as int));
            assert(explosions.particles@.take(sparks.len() as int) =~= burning.take(sparks.len() as int));
            assert(forall|r: int| 0 <= r < swarm.len() ==> (#[trigger] flying[r]).position == swarm[r].position);
            let before_rockets = bumped[i as int];
            lemma_same_place_struck(before_rockets, me, flying, swarm);
            let before_drones = Asteroid {
                is_alive: before_rockets.is_alive && !struck_by_any(before_rockets, flying),
                ..before_rockets
            };
            lemma_same_place_rams(before_drones, me, hovering, escorts);
            let before_mines = Asteroid {
                is_alive: before_drones.is_alive && !rams_any(before_drones, hovering) && !far_off(
                    me,
                    ship.position,
                ),
                ..before_drones
            };
            lemma_same_place_trips(before_mines, me, lying, field);
            if none_met(rocks, swarm, escorts, field, i + 1) {
                assert(!struck_by_any(rocks[i as int], swarm));
                assert(none_met(rocks, swarm, escorts, field, i as int));
            }
            lemma_fragments_chain(rocks, entering, bumped);
            lemma_same_place_power(rocks, entering, i as int, rocks.len() as int);
            assert(places(flying) =~= places(swarm));
            assert(drone_places(hovering) =~= drone_places(escorts));
            assert(mine_places(lying) =~= mine_places(field));
            if asteroid.is_alive {
                assert(asteroid == bumped[i as int]);
                assert(bumped.update(i as int, asteroid) =~= bumped);
            } else {
                lemma_fragments_of_one_more(rocks, bumped, i as int, asteroid);
            }
            assert(bumped[i as int].is_alive ==> rocks[i as int].is_alive);
            assert(bumped[i as int].size == rocks[i as int].size);
            assert forall|k: int| 0 <= k < rocks.len() implies #[trigger] asteroids@[k] == (Asteroid {
                is_alive: rocks[k].is_alive && !bumped_by_any(rocks, k, i + 1) && !(k < i + 1 && doomed(
                    rocks,
                    k,
                    ship.position,
                    swarm,
                    escorts,
                    field,
                )),
                ..rocks[k]
            }) by {
                lemma_bumped_step(rocks, k, i as int);
                if k != i {
                    assert(asteroids@[k] == bumped[k]);
                    assert(entering[i as int].collision_spec(&entering[k]) == me.collision_spec(&rocks[k]));
                }
            }
            assert(rockets.rockets@ =~= rockets_met(swarm, rocks, i + 1));
            assert(drones@ =~= drones_met(escorts, rocks, i + 1));
            assert(mines@ =~= mines_met(field, rocks, i + 1));
        }
        i += 1;
    }
    proof {
        assert(asteroids@ =~= all_met(rocks, ship.position, swarm, escorts, field));
    }
    struck
}

/// Lets every drone meet every other: a drone that touches another is
/// destroyed.
pub fn collide_drones(drones: &mut Vec<Drone>)
    requires
        all_sound(old(drones)@),
    ensures
        final(drones)@ == all_crashed(old(drones)@),
        all_sound(final(drones)@),
{
    let ghost escorts = drones@;
    let mut i: usize = 0;
    while i < drones.len()
        invariant
            all_sound(escorts),
            all_sound(drones@),
            drones@.len() == escorts.len(),
            i <= escorts.len(),
            forall|k: int| 0 <= k < escorts.len() ==> (#[trigger] drones@[k]).position == escorts[k].position,
            forall|k: int| 0 <= k < i ==> #[trigger] drones@[k] == all_crashed(escorts)[k],
            forall|k: int| i <= k < escorts.len() ==> #[trigger] drones@[k] == escorts[k],
        decreases escorts.len() - i,
    {
        let mut drone: Drone = drones[i];
        let mut j: usize = 0;
        while j < drones.len()
            invariant
                all_sound(escorts),
                all_sound(drones@),
                drones@.len() == escorts.len(),
                i < escorts.len(),
                j <= escorts.len(),
                drone.wf(),
                forall|k: int|
                    0 <= k < escorts.len() ==> (#[trigger] drones@[k]).position == escorts[k].position,
                drone == (if crashes_any(escorts, i as int, j as int) {
                    escorts[i as int].destroyed()
                } else {
                    escorts[i as int]
                }),
            decreases escorts.len() - j,
        {
            if i != j {
                let position: Vec2 = drones[j].position();
                proof {
                    assert(position == escorts[j as int].position);
                    assert(drone.position == escorts[i as int].position);
                }
                let hit: bool = drone.drone_collision(position);
                proof {
                    assert(hit == escorts[i as int].drone_collision_spec(escorts[j as int].position));
                }
            }
            j += 1;
        }
        drones.set(i, drone);
        i += 1;
    }
    proof {
        assert(drones@ =~= all_crashed(escorts));
    }
}

/// Throws up a burst for every drone that has no charge left.
pub fn explode_dead_drones(
    drones: &Vec<Drone>,
    explosions: &mut Explosions,
    events: &mut Vec<Event>,
    dice: &Dice,
)
    requires
        all_sound(drones@),
        old(explosions).wf(),
    ensures
        extends(old(events)@, final(events)@),
        final(events)@.len() == old(events)@.len() + (drones@.len() - living(drones@).len()),
        extends(old(explosions).particles@, final(explosions).particles@),
        final(explosions).particles@.len() == old(explosions).particles@.len() + (drones@.len() - living(
            drones@,
        ).len()) * (DRONE_EXPLOSION_POWER * crate::explosions::PARTICLES_PER_POWER_POINT),
        final(explosions).wf(),
{
    let ghost sparks = explosions.particles@;
    let ghost alive = |d: Drone| crate::lifecycle::Mortal::lives(&d);
    assert(sparks.take(sparks.len() as int) =~= sparks);
    proof {
        assert(drones@.take(0) =~= Seq::<Drone>::empty());
        drones@.take(0).lemma_filter_len(alive);
    }
    let ghost reported = events@;
    proof {
        lemma_extends_self(reported);
    }
    let mut i: usize = 0;
    while i < drones.len()
        invariant
            extends(reported, events@),
            events@.len() == reported.len() + (i - drones@.take(i as int).filter(alive).len()),
            all_sound(drones@),
            i <= drones@.len(),
            alive == (|d: Drone| crate::lifecycle::Mortal::lives(&d)),
            extends(sparks, explosions.particles@),
            explosions.particles@.len() == sparks.len() + (i - drones@.take(i as int).filter(alive).len()) * 80,
            drones@.take(i as int).filter(alive).len() <= i,
            explosions.wf(),
        decreases drones@.len() - i,
    {
        proof {
            assert(drones@.take(i + 1) =~= drones@.take(i as int).push(drones@[i as int]));
            drones@.take(i as int).lemma_filter_push(drones@[i as int], alive);
        }
        if !drones[i].is_alive() {
            let ghost burning = explosions.particles@;
            explosions.explode(drones[i].position(), DRONE_EXPLOSION_POWER, dice);
            proof {
                lemma_extends_push(reported, events@, Event::DroneDestroyed(drones@[i as int].position));
            }
            events.push(Event::DroneDestroyed(drones[i].position()));
            proof {
                assert(explosions.particles@.take(sparks.len() as int) =~= burning.take(
                    sparks.len() as int,
                ));
            }
        }
        i += 1;
    }
    proof {
        assert(drones@.take(i as int) =~= drones@);
    }
}

/// Moves the pending fragments in among the asteroids, the last first.
pub fn merge_new_asteroids(asteroids: &mut Vec<Asteroid>, new_asteroids: &mut Vec<Asteroid>)
    requires
        all_sound(old(asteroids)@),
        all_sound(old(new_asteroids)@),
    ensures
        final(asteroids)@ == old(asteroids)@ + old(new_asteroids)@.reverse(),
        final(new_asteroids)@.len() == 0,
        all_sound(final(asteroids)@),
{
    let ghost rocks = asteroids@;
    let ghost pending = new_asteroids@;
    while new_asteroids.len() > 0
        invariant
            all_sound(asteroids@),
            all_sound(new_asteroids@),
            new_asteroids@.len() <= pending.len(),
            new_asteroids@ == pending.take(new_asteroids@.len() as int),
            asteroids@.len() == rocks.len() + (pending.len() - new_asteroids@.len()),
            forall|k: int| 0 <= k < rocks.len() ==> #[trigger] asteroids@[k] == rocks[k],
            forall|k: int|
                rocks.len() <= k < asteroids@.len() ==> #[trigger] asteroids@[k] == pending[pending.len() - 1
                    - (k - rocks.len())],
        decreases new_asteroids@.len(),
    {
        let ghost left = new_asteroids@;
        let fragment: Option<Asteroid> = new_asteroids.pop();
        match fragment {
            Some(asteroid) => {
                asteroids.push(asteroid);
                proof {
                    assert(new_asteroids@ =~= pending.take(new_asteroids@.len() as int));
                    assert(asteroid == left[left.len() - 1]);
                }
            },
            None => {},
        }
    }
    proof {
        assert(asteroids@ =~= rocks + pending.reverse());
    }
}

} // verus!
