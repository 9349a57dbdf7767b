//! Mines: they lie where they were laid until an asteroid touches them.

use vstd::prelude::*;

use crate::asteroid::Asteroid;
use crate::geometry::Vec2;
use crate::lifecycle::Mortal;

verus! {

pub const RADIUS: i64 = 15_000;

#[derive(Clone, Copy, Debug, PartialEq, Eq, Structural)]
pub struct Mine {
    pub position: Vec2,
    pub is_alive: bool,
}

impl Mine {
    pub open spec fn wf(&self) -> bool {
        self.position.in_world()
    }

    /// The asteroid's centre is no farther away than its radius and the
    /// mine's.
    pub open spec fn asteroid_collision_spec(&self, asteroid: &Asteroid) -> bool {
        asteroid.position.reaches_spec(self.position, asteroid.radius_spec() + RADIUS)
    }

    pub fn new(position: Vec2) -> (r: Mine)
        ensures
            r == (Mine { position, is_alive: true }),
    {
        Mine { position, is_alive: true }
    }

    pub fn asteroid_collision(&self, asteroid: &Asteroid) -> (r: bool)
        requires
            self.wf(),
            asteroid.wf(),
        ensures
            r == self.asteroid_collision_spec(asteroid),
    {
        asteroid.position().reaches(self.position, asteroid.radius() + RADIUS)
    }

    pub fn is_alive(&self) -> (r: bool)
        ensures
            r == self.is_alive,
    {
        self.is_alive
    }

    pub fn destroy(&mut self)
        ensures
            *final(self) == (Mine { is_alive: false, ..*old(self) }),
    {
        self.is_alive = false;
    }

    pub fn position(&self) -> (r: Vec2)
        ensures
            r == self.position,
    {
        self.position
    }
}

impl Mortal for Mine {
    open spec fn sound(&self) -> bool {
        self.wf()
    }

    open spec fn lives(&self) -> bool {
        self.is_alive
    }

    fn still_lives(&self) -> (r: bool) {
        self.is_alive
    }
}

} // verus!
