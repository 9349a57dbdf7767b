//! Points, directions and angles on the integer grid of the world.

use vstd::prelude::*;

verus! {

/// Points in one world unit; also the length that a unit vector is scaled to.
pub const UNIT: i64 = 1000;

/// Angle steps in a full turn. One step is close to a milliradian, and a
/// fifth, a quarter and a half of a turn are whole numbers of steps.
pub const TURN: i64 = 6280;

/// Angle steps in half a turn.
pub const HALF_TURN: i64 = 3140;

/// Coordinates stay within this distance of the origin on either axis.
pub const WORLD: i64 = 1_000_000_000;

/// No body moves faster than this, in points per second.
pub const SPEED_LIMIT: i64 = 2_000_000;

/// Division that rounds toward zero, for a positive divisor.
pub open spec fn quot(a: int, b: int) -> int {
    if a >= 0 {
        a / b
    } else {
        -((-a) / b)
    }
}

/// The value nearest to `v` in the range from `lo` to `hi`.
pub open spec fn clamp(v: int, lo: int, hi: int) -> int {
    if v < lo {
        lo
    } else if v > hi {
        hi
    } else {
        v
    }
}

/// The angle in `[0, TURN)` that points the same way as `angle`.
pub open spec fn wrap(angle: int) -> int {
    angle % (TURN as int)
}

/// Divides by a positive number and rounds toward zero.
pub fn div_toward_zero(a: i64, b: i64) -> (r: i64)
    requires
        b > 0,
        a > i64::MIN,
    ensures
        r == quot(a as int, b as int),
{
    if a >= 0 {
        a / b
    } else {
        -((-a) / b)
    }
}

/// Holds `v` between `lo` and `hi`.
pub fn clamp_to(v: i64, lo: i64, hi: i64) -> (r: i64)
    requires
        lo <= hi,
    ensures
        r == clamp(v as int, lo as int, hi as int),
        lo <= r <= hi,
{
    if v < lo {
        lo
    } else if v > hi {
        hi
    } else {
        v
    }
}

/// Brings an angle into the one full turn from zero.
pub fn wrap_angle(angle: i64) -> (r: i64)
    ensures
        r == wrap(angle as int),
        0 <= r < TURN,
{
    if angle >= 0 {
        angle % TURN
    } else {
        let below: i64 = -(angle + 1);
        TURN - 1 - below % TURN
    }
}

/// A point of the world, a displacement or a velocity.
#[derive(Clone, Copy, Debug, PartialEq, Eq, Structural)]
pub struct Vec2 {
    pub x: i64,
    pub y: i64,
}

impl Vec2 {
    /// Both coordinates lie within `limit` of zero.
    pub open spec fn within(self, limit: int) -> bool {
        -limit <= self.x <= limit && -limit <= self.y <= limit
    }

    /// The point lies inside the world.
    pub open spec fn in_world(self) -> bool {
        self.within(WORLD as int)
    }

    /// No longer than a unit vector along either axis.
    pub open spec fn is_unit(self) -> bool {
        self.within(UNIT as int)
    }

    /// A velocity that no body exceeds.
    pub open spec fn is_velocity(self) -> bool {
        self.within(SPEED_LIMIT as int)
    }

    /// The square of the distance between the two points.
    pub open spec fn distance_squared_spec(self, other: Vec2) -> int {
        (self.x - other.x) * (self.x - other.x) + (self.y - other.y) * (self.y - other.y)
    }

    /// Whether `other` lies no farther than `reach` from `self`.
    pub open spec fn reaches_spec(self, other: Vec2, reach: int) -> bool {
        self.distance_squared_spec(other) <= reach * reach
    }

    /// Whether `other` lies nearer than `reach` to `self`.
    pub open spec fn inside_spec(self, other: Vec2, reach: int) -> bool {
        self.distance_squared_spec(other) < reach * reach
    }

    /// The vector stretched from unit length to `length`.
    pub open spec fn scaled_spec(self, length: int) -> Vec2 {
        Vec2 {
            x: quot(self.x * length, UNIT as int) as i64,
            y: quot(self.y * length, UNIT as int) as i64,
        }
    }

    /// The sum of the two, held inside the world.
    pub open spec fn plus_spec(self, step: Vec2) -> Vec2 {
        Vec2 {
            x: clamp(self.x + step.x, -WORLD as int, WORLD as int) as i64,
            y: clamp(self.y + step.y, -WORLD as int, WORLD as int) as i64,
        }
    }

    /// The displacement from `other` to `self`.
    pub open spec fn minus_spec(self, other: Vec2) -> Vec2 {
        Vec2 { x: (self.x - other.x) as i64, y: (self.y - other.y) as i64 }
    }

    /// Where a body at `self` is after `dt` milliseconds at `velocity`
    /// (points per second), held inside the world.
    pub open spec fn translated_spec(self, velocity: Vec2, dt: int) -> Vec2 {
        Vec2 {
            x: clamp(self.x + quot(velocity.x * dt, 1000), -WORLD as int, WORLD as int) as i64,
            y: clamp(self.y + quot(velocity.y * dt, 1000), -WORLD as int, WORLD as int) as i64,
        }
    }

    /// The cross product: positive where `other` lies on the side of
    /// growing angles.
    pub open spec fn cross_spec(self, other: Vec2) -> int {
        self.x * other.y - self.y * other.x
    }

    /// The dot product: how far `other` reaches along `self`.
    pub open spec fn dot_spec(self, other: Vec2) -> int {
        self.x * other.x + self.y * other.y
    }

    /// How far `v` leans off the line of `self`, to either side.
    pub open spec fn lean_spec(self, v: Vec2) -> int {
        if self.cross_spec(v) < 0 {
            -self.cross_spec(v)
        } else {
            self.cross_spec(v)
        }
    }

    /// Whether the unit vector `self` points more nearly along `v` than the
    /// unit vector `other`: it points forward along `v` and the other
    /// backward; or both point the same way and `v` leans less off its
    /// line, or as much while it reaches farther along `v`.
    pub open spec fn nearer_along(self, other: Vec2, v: Vec2) -> bool {
        if (self.dot_spec(v) >= 0) != (other.dot_spec(v) >= 0) {
            self.dot_spec(v) >= 0
        } else if self.lean_spec(v) != other.lean_spec(v) {
            self.lean_spec(v) < other.lean_spec(v)
        } else {
            self.dot_spec(v) > other.dot_spec(v)
        }
    }

    /// Whether the signed angle from `self` to `other` is positive: `other`
    /// lies on the side of growing angles, or straight behind.
    pub open spec fn angle_positive_spec(self, other: Vec2) -> bool {
        self.cross_spec(other) > 0 || (self.cross_spec(other) == 0 && self.dot_spec(other) < 0)
    }

    pub fn new(x: i64, y: i64) -> (r: Vec2)
        ensures
            r.x == x,
            r.y == y,
    {
        Vec2 { x, y }
    }

    pub fn distance_squared(self, other: Vec2) -> (r: i64)
        requires
            self.in_world(),
            other.in_world(),
        ensures
            r == self.distance_squared_spec(other),
            0 <= r <= 8_000_000_000_000_000_000,
    {
        let dx: i64 = self.x - other.x;
        let dy: i64 = self.y - other.y;
        assert(0 <= dx * dx <= 4_000_000_000_000_000_000) by (nonlinear_arith)
            requires
                -2_000_000_000 <= dx <= 2_000_000_000,
        ;
        assert(0 <= dy * dy <= 4_000_000_000_000_000_000) by (nonlinear_arith)
            requires
                -2_000_000_000 <= dy <= 2_000_000_000,
        ;
        dx * dx + dy * dy
    }

    pub fn reaches(self, other: Vec2, reach: i64) -> (r: bool)
        requires
            self.in_world(),
            other.in_world(),
            0 <= reach <= WORLD,
        ensures
            r == self.reaches_spec(other, reach as int),
    {
        assert(0 <= reach * reach <= 1_000_000_000_000_000_000) by (nonlinear_arith)
            requires
                0 <= reach <= 1_000_000_000,
        ;
        self.distance_squared(other) <= reach * reach
    }

    pub fn inside(self, other: Vec2, reach: i64) -> (r: bool)
        requires
            self.in_world(),
            other.in_world(),
            0 <= reach <= WORLD,
        ensures
            r == self.inside_spec(other, reach as int),
    {
        assert(0 <= reach * reach <= 1_000_000_000_000_000_000) by (nonlinear_arith)
            requires
                0 <= reach <= 1_000_000_000,
        ;
        self.distance_squared(other) < reach * reach
    }

    pub fn scaled(self, length: i64) -> (r: Vec2)
        requires
            self.is_unit(),
            0 <= length <= WORLD,
        ensures
            r == self.scaled_spec(length as int),
            r.within(length as int),
    {
        assert(-1000 * length <= self.x * length <= 1000 * length) by (nonlinear_arith)
            requires
                -1000 <= self.x <= 1000,
                0 <= length,
        ;
        assert(-1000 * length <= self.y * length <= 1000 * length) by (nonlinear_arith)
            requires
                -1000 <= self.y <= 1000,
                0 <= length,
        ;
        Vec2 {
            x: div_toward_zero(self.x * length, UNIT),
            y: div_toward_zero(self.y * length, UNIT),
        }
    }

    pub fn plus(self, step: Vec2) -> (r: Vec2)
        requires
            self.in_world(),
            step.in_world(),
        ensures
            r == self.plus_spec(step),
            r.in_world(),
    {
        Vec2 {
            x: clamp_to(self.x + step.x, -WORLD, WORLD),
            y: clamp_to(self.y + step.y, -WORLD, WORLD),
        }
    }

    pub fn minus(self, other: Vec2) -> (r: Vec2)
        requires
            self.in_world(),
            other.in_world(),
        ensures
            r == self.minus_spec(other),
            r.within(2 * WORLD),
    {
        Vec2 { x: self.x - other.x, y: self.y - other.y }
    }

    pub fn translated(self, velocity: Vec2, dt: u32) -> (r: Vec2)
        requires
            self.in_world(),
            velocity.is_velocity(),
        ensures
            r == self.translated_spec(velocity, dt as int),
            r.in_world(),
    {
        let ms: i64 = dt as i64;
        assert(-2_000_000 * ms <= velocity.x * ms <= 2_000_000 * ms) by (nonlinear_arith)
            requires
                -2_000_000 <= velocity.x <= 2_000_000,
                0 <= ms,
        ;
        assert(-2_000_000 * ms <= velocity.y * ms <= 2_000_000 * ms) by (nonlinear_arith)
            requires
                -2_000_000 <= velocity.y <= 2_000_000,
                0 <= ms,
        ;
        let sx: i64 = div_toward_zero(velocity.x * ms, 1000);
        let sy: i64 = div_toward_zero(velocity.y * ms, 1000);
        Vec2 {
            x: clamp_to(self.x + sx, -WORLD, WORLD),
            y: clamp_to(self.y + sy, -WORLD, WORLD),
        }
    }

    pub fn dot(self, v: Vec2) -> (r: i64)
        requires
            self.is_unit(),
            v.within(2 * WORLD),
        ensures
            r == self.dot_spec(v),
            -4_000_000_000_000 <= r <= 4_000_000_000_000,
    {
        assert(-2_000_000_000_000 <= self.x * v.x <= 2_000_000_000_000) by (nonlinear_arith)
            requires
                -1000 <= self.x <= 1000,
                -2_000_000_000 <= v.x <= 2_000_000_000,
        ;
        assert(-2_000_000_000_000 <= self.y * v.y <= 2_000_000_000_000) by (nonlinear_arith)
            requires
                -1000 <= self.y <= 1000,
                -2_000_000_000 <= v.y <= 2_000_000_000,
        ;
        self.x * v.x + self.y * v.y
    }

    pub fn cross(self, v: Vec2) -> (r: i64)
        requires
            self.is_unit(),
            v.within(2 * WORLD),
        ensures
            r == self.cross_spec(v),
            -4_000_000_000_000 <= r <= 4_000_000_000_000,
    {
        assert(-2_000_000_000_000 <= self.x * v.y <= 2_000_000_000_000) by (nonlinear_arith)
            requires
                -1000 <= self.x <= 1000,
                -2_000_000_000 <= v.y <= 2_000_000_000,
        ;
        assert(-2_000_000_000_000 <= self.y * v.x <= 2_000_000_000_000) by (nonlinear_arith)
            requires
                -1000 <= self.y <= 1000,
                -2_000_000_000 <= v.x <= 2_000_000_000,
        ;
        self.x * v.y - self.y * v.x
    }

    pub fn is_nearer_along(self, other: Vec2, v: Vec2) -> (r: bool)
        requires
            self.is_unit(),
            other.is_unit(),
            v.within(2 * WORLD),
        ensures
            r == self.nearer_along(other, v),
    {
        let mine: i64 = self.dot(v);
        let theirs: i64 = other.dot(v);
        if (mine >= 0) != (theirs >= 0) {
            return mine >= 0;
        }
        let my_cross: i64 = self.cross(v);
        let their_cross: i64 = other.cross(v);
        let my_lean: i64 = if my_cross < 0 {
            -my_cross
        } else {
            my_cross
        };
        let their_lean: i64 = if their_cross < 0 {
            -their_cross
        } else {
            their_cross
        };
        if my_lean != their_lean {
            my_lean < their_lean
        } else {
            mine > theirs
        }
    }

    pub fn angle_positive(self, other: Vec2) -> (r: bool)
        requires
            self.is_unit(),
            other.within(2 * WORLD),
        ensures
            r == self.angle_positive_spec(other),
    {
        let cross: i64 = self.cross(other);
        cross > 0 || (cross == 0 && self.dot(other) < 0)
    }
}

/// How many of the places lie within `reach` of `center`.
pub open spec fn count_within(center: Vec2, reach: int, places: Seq<Vec2>) -> int
    decreases places.len(),
{
    if places.len() == 0 {
        0
    } else {
        count_within(center, reach, places.drop_last()) + if center.reaches_spec(places.last(), reach) {
            1int
        } else {
            0int
        }
    }
}

/// Counting one place more adds one if that place lies within reach.
pub proof fn lemma_count_within_step(center: Vec2, reach: int, places: Seq<Vec2>, i: int)
    requires
        0 <= i < places.len(),
    ensures
        count_within(center, reach, places.take(i + 1)) == count_within(center, reach, places.take(i))
            + if center.reaches_spec(places[i], reach) {
            1int
        } else {
            0int
        },
        count_within(center, reach, places.take(i)) >= 0,
    decreases i,
{
    assert(places.take(i + 1).drop_last() =~= places.take(i));
    assert(places.take(i + 1).last() == places[i]);
    if i > 0 {
        lemma_count_within_step(center, reach, places, i - 1);
    }
}

/// The angle after turning for `dt` milliseconds at `rate` steps per second:
/// against the angle's growth where `positive` holds, with it otherwise.
pub open spec fn steered(angle: int, positive: bool, rate: int, dt: int) -> int {
    if positive {
        wrap(angle - quot(rate * dt, 1000))
    } else {
        wrap(angle + quot(rate * dt, 1000))
    }
}

/// Turns `angle` for `dt` milliseconds at `rate` steps per second.
pub fn steer(angle: i64, positive: bool, rate: i64, dt: u32) -> (r: i64)
    requires
        0 <= angle < TURN,
        -1_000_000 <= rate <= 1_000_000,
    ensures
        r == steered(angle as int, positive, rate as int, dt as int),
        0 <= r < TURN,
{
    let ms: i64 = dt as i64;
    assert(-1_000_000 * ms <= rate * ms <= 1_000_000 * ms) by (nonlinear_arith)
        requires
            -1_000_000 <= rate <= 1_000_000,
            0 <= ms,
    ;
    let turn: i64 = div_toward_zero(rate * ms, 1000);
    if positive {
        wrap_angle(angle - turn)
    } else {
        wrap_angle(angle + turn)
    }
}

/// The unit vector of every angle, scaled to `UNIT`: entry `a` points along
/// angle `a`.
pub struct Compass {
    table: Vec<Vec2>,
}

impl View for Compass {
    type V = Seq<Vec2>;

    closed spec fn view(&self) -> Seq<Vec2> {
        self.table@
    }
}

impl Compass {
    /// A table that has one entry for each angle, none longer than a unit.
    pub open spec fn valid_table(table: Seq<Vec2>) -> bool {
        table.len() == TURN && forall|i: int| 0 <= i < table.len() ==> (#[trigger] table[i]).is_unit()
    }

    pub open spec fn wf(&self) -> bool {
        Self::valid_table(self@)
    }

    /// Takes the table if it is valid.
    pub fn new(table: Vec<Vec2>) -> (r: Option<Compass>)
        ensures
            r.is_some() == Self::valid_table(table@),
            r matches Some(c) ==> c@ == table@ && c.wf(),
    {
        if table.len() != 6280 {
            return None;
        }
        let mut i: usize = 0;
        while i < table.len()
            invariant
                i <= table.len(),
                forall|k: int| 0 <= k < i ==> (#[trigger] table@[k]).is_unit(),
            decreases table.len() - i,
        {
            let v: Vec2 = table[i];
            if v.x < -UNIT || v.x > UNIT || v.y < -UNIT || v.y > UNIT {
                assert(!table@[i as int].is_unit());
                return None;
            }
            i += 1;
        }
        Some(Compass { table })
    }

    /// The unit vector along `angle`.
    pub fn unit(&self, angle: i64) -> (r: Vec2)
        requires
            self.wf(),
            0 <= angle < TURN,
        ensures
            r == self@[angle as int],
            r.is_unit(),
    {
        self.table[angle as usize]
    }

    /// `angle` is the first angle whose unit vector points most nearly
    /// along `v`: no other points more nearly along it, and every one
    /// before it less nearly.
    pub open spec fn is_bearing(&self, v: Vec2, angle: int) -> bool {
        &&& 0 <= angle < TURN
        &&& forall|a: int| 0 <= a < TURN ==> !(#[trigger] self@[a]).nearer_along(self@[angle], v)
        &&& forall|a: int| 0 <= a < angle ==> self@[angle].nearer_along(#[trigger] self@[a], v)
    }

    /// The angle that points most nearly along `v`.
    pub fn bearing(&self, v: Vec2) -> (r: i64)
        requires
            self.wf(),
            v.within(2 * WORLD),
        ensures
            self.is_bearing(v, r as int),
    {
        let mut best: i64 = 0;
        let mut best_unit: Vec2 = self.unit(0);
        let mut a: i64 = 1;
        while a < TURN
            invariant
                self.wf(),
                v.within(2 * WORLD),
                1 <= a <= TURN,
                0 <= best < a,
                best_unit == self@[best as int],
                forall|k: int| 0 <= k < a ==> !(#[trigger] self@[k]).nearer_along(best_unit, v),
                forall|k: int| 0 <= k < best ==> best_unit.nearer_along(#[trigger] self@[k], v),
            decreases TURN - a,
        {
            let unit: Vec2 = self.unit(a);
            if unit.is_nearer_along(best_unit, v) {
                best = a;
                best_unit = unit;
            }
            a += 1;
        }
        best
    }
}

} // verus!
