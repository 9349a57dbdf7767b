//! Bullets: they fly straight and live for a second.

use vstd::prelude::*;

use crate::geometry::{wrap, wrap_angle, Compass, Vec2, TURN, WORLD};
use crate::lifecycle::{all_sound, Mortal};

verus! {

/// Points per second.
pub const SPEED: i64 = 1_000_000;

pub const RADIUS: i64 = 2_000;

/// Milliseconds that a bullet lives.
pub const LIFETIME: i64 = 1_000;

#[derive(Clone, Copy, Debug, PartialEq, Eq, Structural)]
pub struct Bullet {
    pub position: Vec2,
    pub angle: i64,
    pub life: i64,
}

impl Bullet {
    pub open spec fn wf(&self) -> bool {
        &&& self.position.in_world()
        &&& 0 <= self.angle < TURN
        &&& -(u32::MAX as int) <= self.life <= LIFETIME
    }

    pub open spec fn alive_spec(&self) -> bool {
        self.life > 0
    }

    /// The bullet after `dt` milliseconds: it has moved along its angle, and
    /// what life it had left has run down.
    pub open spec fn updated(&self, compass: &Compass, dt: u32) -> Bullet {
        Bullet {
            position: self.position.translated_spec(
                compass@[self.angle as int].scaled_spec(SPEED as int),
                dt as int,
            ),
            angle: self.angle,
            life: if self.life > 0 {
                (self.life - dt) as i64
            } else {
                self.life
            },
        }
    }

    /// The bullet with its life taken.
    pub open spec fn destroyed(&self) -> Bullet {
        Bullet { life: -1i64, ..*self }
    }

    pub open spec fn collision_spec(&self, position: Vec2, radius: int) -> bool {
        position.reaches_spec(self.position, RADIUS + radius)
    }

    pub fn new(position: Vec2, angle: i64) -> (r: Bullet)
        requires
            position.in_world(),
        ensures
            r == (Bullet { position, angle: wrap(angle as int) as i64, life: LIFETIME }),
            r.wf(),
            r.alive_spec(),
    {
        Bullet { position, angle: wrap_angle(angle), life: LIFETIME }
    }

    pub fn update(&mut self, dt: u32, compass: &Compass)
        requires
            old(self).wf(),
            compass.wf(),
        ensures
            *final(self) == old(self).updated(compass, dt),
            final(self).wf(),
    {
        let velocity: Vec2 = compass.unit(self.angle).scaled(SPEED);
        self.position = self.position.translated(velocity, dt);
        if self.life > 0 {
            self.life = self.life - dt as i64;
        }
    }

    /// A bullet lives while it has life left.
    pub fn alive(&self) -> (r: bool)
        ensures
            r == (self.life > 0),
            r == self.alive_spec(),
    {
        self.life > 0
    }

    /// Whether the bullet touches a disc of the given centre and radius.
    pub fn collision(&self, position: Vec2, radius: i64) -> (r: bool)
        requires
            self.wf(),
            position.in_world(),
            0 <= radius <= WORLD - RADIUS,
        ensures
            r == self.collision_spec(position, radius as int),
    {
        position.reaches(self.position, RADIUS + radius)
    }

    /// Ends the bullet at once.
    pub fn destroy(&mut self)
        ensures
            *final(self) == old(self).destroyed(),
            !final(self).alive_spec(),
            old(self).wf() ==> final(self).wf(),
    {
        self.life = -1;
    }
}

impl Mortal for Bullet {
    open spec fn sound(&self) -> bool {
        self.wf()
    }

    open spec fn lives(&self) -> bool {
        self.alive_spec()
    }

    fn still_lives(&self) -> (r: bool) {
        self.alive()
    }
}

/// Every bullet after `dt` milliseconds.
pub open spec fn all_updated(bullets: Seq<Bullet>, compass: &Compass, dt: u32) -> Seq<Bullet> {
    Seq::new(bullets.len(), |i: int| bullets[i].updated(compass, dt))
}

/// Moves every bullet on by `dt` milliseconds.
pub fn update_all(bullets: &mut Vec<Bullet>, dt: u32, compass: &Compass)
    requires
        all_sound(old(bullets)@),
        compass.wf(),
    ensures
        final(bullets)@ == all_updated(old(bullets)@, compass, dt),
        all_sound(final(bullets)@),
{
    let ghost before = bullets@;
    let mut i: usize = 0;
    while i < bullets.len()
        invariant
            compass.wf(),
            all_sound(before),
            bullets@.len() == before.len(),
            i <= bullets@.len(),
            forall|k: int| 0 <= k < i ==> #[trigger] bullets@[k] == before[k].updated(compass, dt),
            forall|k: int| 0 <= k < i ==> (#[trigger] bullets@[k]).wf(),
            forall|k: int| i <= k < before.len() ==> #[trigger] bullets@[k] == before[k],
        decreases bullets@.len() - i,
    {
        let mut bullet: Bullet = bullets[i];
        bullet.update(dt, compass);
        bullets.set(i, bullet);
        i += 1;
    }
    assert(bullets@ =~= all_updated(before, compass, dt));
}

/// A bullet that has no life left never has any again, however long it
/// flies on.
pub proof fn law_dead_bullet_stays_dead(bullet: Bullet, compass: &Compass, dt: u32)
    requires
        !bullet.alive_spec(),
    ensures
        !bullet.updated(compass, dt).alive_spec(),
{
}

} // verus!
