//! Points and poses in fixed-point coordinates.
//!
//! Positions, velocities and angles are `i64` counts of millionths. Sums and
//! differences of positions and velocities stop at the ends of the `i64`
//! range; headings are kept modulo a full turn.

use crate::random::drawn_around_zero;
use crate::random::drawn_from;
use crate::random::uniform_around_zero;
use crate::random::uniform_between;
use rand::rngs::StdRng;
use std::ops::Range;
use vstd::prelude::*;
use vstd::std_specs::ops::AddSpecImpl;
use vstd::std_specs::ops::DivSpecImpl;
use vstd::std_specs::ops::SubSpecImpl;

verus! {

/// One map unit, and one radian.
pub const UNIT: i64 = 1_000_000;

/// A full turn, 2π radians, rounded down to the millionth.
pub const FULL_TURN: i64 = 6_283_185;

/// The value in `i64` nearest to `v`.
pub open spec fn saturate(v: int) -> i64 {
    if v < i64::MIN {
        i64::MIN
    } else if v > i64::MAX {
        i64::MAX
    } else {
        v as i64
    }
}

/// The heading in `[0, FULL_TURN)` that differs from `a` by whole turns.
pub open spec fn wrap_angle(a: int) -> i64 {
    (a % (FULL_TURN as int)) as i64
}

/// `a / n` rounded toward zero, for a positive `n`.
pub open spec fn quotient_toward_zero(a: int, n: int) -> int {
    if a >= 0 {
        a / n
    } else {
        -((-a) / n)
    }
}

/// The largest `r` with `r * r <= n`.
pub open spec fn is_floor_sqrt(n: int, r: int) -> bool {
    0 <= r && r * r <= n && n < (r + 1) * (r + 1)
}

/// The floor of the square root of `n`.
pub open spec fn floor_sqrt(n: int) -> int {
    choose|r: int| is_floor_sqrt(n, r)
}

/// At most one number is the floor of the square root of `n`.
pub proof fn lemma_floor_sqrt_unique(n: int, r: int, s: int)
    requires
        is_floor_sqrt(n, r),
        is_floor_sqrt(n, s),
    ensures
        r == s,
{
    if r < s {
        assert((r + 1) * (r + 1) <= s * s) by (nonlinear_arith)
            requires
                0 <= r,
                r + 1 <= s,
        ;
    } else if s < r {
        assert((s + 1) * (s + 1) <= r * r) by (nonlinear_arith)
            requires
                0 <= s,
                s + 1 <= r,
        ;
    }
}

/// A product is no larger than the product of the bounds of its factors.
pub proof fn lemma_product_bound(a: int, b: int, m: int, n: int)
    by (nonlinear_arith)
    requires
        -m <= a <= m,
        -n <= b <= n,
    ensures
        -(m * n) <= a * b <= m * n,
{
}

/// The `i64` nearest to `v`.
pub fn saturated(v: i128) -> (r: i64)
    ensures
        r == saturate(v as int),
{
    if v < i64::MIN as i128 {
        i64::MIN
    } else if v > i64::MAX as i128 {
        i64::MAX
    } else {
        v as i64
    }
}

/// The canonical heading of the angle `a`.
pub fn wrapped(a: i128) -> (r: i64)
    ensures
        r == wrap_angle(a as int),
        0 <= r < FULL_TURN,
{
    let turn: i128 = FULL_TURN as i128;
    if a >= 0 {
        (a % turn) as i64
    } else {
        let back: i128 = (-(a + 1)) % turn;
        assert(a as int % turn as int == turn - 1 - back) by {
            let k: int = -(a as int + 1);
            let q: int = k / (turn as int);
            assert(k == q * turn + back) by {
                vstd::arithmetic::div_mod::lemma_fundamental_div_mod(k, turn as int);
            }
            assert(a as int == (-q - 1) * turn + (turn - 1 - back)) by (nonlinear_arith)
                requires
                    k == -(a as int + 1),
                    k == q * turn + back,
            ;
            vstd::arithmetic::div_mod::lemma_fundamental_div_mod_converse(
                a as int,
                turn as int,
                -q - 1,
                turn - 1 - back,
            );
        }
        (turn - 1 - back) as i64
    }
}

/// `a / n` rounded toward zero.
pub fn quotient(a: i128, n: i128) -> (r: i128)
    requires
        n > 0,
    ensures
        r == quotient_toward_zero(a as int, n as int),
{
    if a >= 0 {
        a / n
    } else {
        let size: u128 = (-(a + 1)) as u128 + 1;
        let parts: u128 = size / (n as u128);
        if parts > i128::MAX as u128 {
            a
        } else {
            -(parts as i128)
        }
    }
}

/// The floor of the square root of `n`.
pub fn integer_sqrt(n: u128) -> (r: u64)
    ensures
        is_floor_sqrt(n as int, r as int),
        r as int == floor_sqrt(n as int),
{
    let mut low: u128 = 0;
    let mut high: u128 = 0x1_0000_0000_0000_0000;
    assert(0x1_0000_0000_0000_0000int * 0x1_0000_0000_0000_0000int
        == 0x1_0000_0000_0000_0000_0000_0000_0000_0000int) by (nonlinear_arith);
    while high - low > 1
        invariant
            low < high <= 0x1_0000_0000_0000_0000,
            low * low <= n,
            n < high * high,
        decreases high - low,
    {
        let mid: u128 = low + (high - low) / 2;
        assert(mid * mid < 0x1_0000_0000_0000_0000_0000_0000_0000_0000int) by (nonlinear_arith)
            requires
                0 <= mid < 0x1_0000_0000_0000_0000int,
        ;
        if mid * mid <= n {
            low = mid;
        } else {
            high = mid;
        }
    }
    proof {
        assert(is_floor_sqrt(n as int, low as int));
        lemma_floor_sqrt_unique(n as int, low as int, floor_sqrt(n as int));
    }
    low as u64
}

/// A position, a displacement or a velocity on the map.
#[derive(Clone, Copy, Debug, PartialEq, Eq, Structural)]
pub struct Point {
    pub x: i64,
    pub y: i64,
}

impl Point {
    /// The componentwise sum, each component held within `i64`.
    pub open spec fn spec_plus(self, other: Point) -> Point {
        Point { x: saturate(self.x + other.x), y: saturate(self.y + other.y) }
    }

    /// The componentwise difference, each component held within `i64`.
    pub open spec fn spec_minus(self, other: Point) -> Point {
        Point { x: saturate(self.x - other.x), y: saturate(self.y - other.y) }
    }

    /// Each component divided by `n`, rounded toward zero.
    pub open spec fn spec_over(self, n: i64) -> Point {
        Point {
            x: quotient_toward_zero(self.x as int, n as int) as i64,
            y: quotient_toward_zero(self.y as int, n as int) as i64,
        }
    }

    /// The squared length of the vector.
    pub open spec fn spec_mag_squared(self) -> int {
        self.x * self.x + self.y * self.y
    }

    /// The length of the vector, rounded down.
    pub open spec fn spec_mag(self) -> int {
        floor_sqrt(self.spec_mag_squared())
    }

    /// The length of the difference to `other`, rounded down.
    pub open spec fn spec_dist(self, other: Point) -> int {
        self.spec_minus(other).spec_mag()
    }

    /// The point of the rectangle from `lower` to `upper` nearest to this one.
    pub open spec fn spec_clamp(self, lower: Point, upper: Point) -> Point {
        Point {
            x: clamp_scalar(self.x, lower.x, upper.x),
            y: clamp_scalar(self.y, lower.y, upper.y),
        }
    }

    /// The squared length of the vector.
    pub fn mag_squared(self) -> (r: u128)
        ensures
            r == self.spec_mag_squared(),
            r <= 0x8000_0000_0000_0000_0000_0000_0000_0000,
    {
        let x: i128 = self.x as i128;
        let y: i128 = self.y as i128;
        assert(0 <= x * x <= 0x4000_0000_0000_0000_0000_0000_0000_0000) by (nonlinear_arith)
            requires
                -0x8000_0000_0000_0000 <= x <= 0x8000_0000_0000_0000,
        ;
        assert(0 <= y * y <= 0x4000_0000_0000_0000_0000_0000_0000_0000) by (nonlinear_arith)
            requires
                -0x8000_0000_0000_0000 <= y <= 0x8000_0000_0000_0000,
        ;
        (x * x) as u128 + (y * y) as u128
    }

    /// The length of the vector, rounded down.
    pub fn mag(self) -> (r: u64)
        ensures
            r == self.spec_mag(),
    {
        integer_sqrt(self.mag_squared())
    }

    /// The length of the difference to `other`, rounded down.
    pub fn dist(self, other: Point) -> (r: u64)
        ensures
            r == self.spec_dist(other),
    {
        (self - other).mag()
    }

    /// The point of the rectangle from `lower` to `upper` nearest to this one.
    pub fn clamp(self, lower: Point, upper: Point) -> (r: Point)
        ensures
            r == self.spec_clamp(lower, upper),
    {
        Point {
            x: clamped(self.x, lower.x, upper.x),
            y: clamped(self.y, lower.y, upper.y),
        }
    }
}

/// `v` moved into `[lower, upper]`; `lower` where the interval is empty.
pub open spec fn clamp_scalar(v: i64, lower: i64, upper: i64) -> i64 {
    if v > upper && upper >= lower {
        upper
    } else if v < lower || upper < lower {
        lower
    } else {
        v
    }
}

/// `v` moved into `[lower, upper]`; `lower` where the interval is empty.
pub fn clamped(v: i64, lower: i64, upper: i64) -> (r: i64)
    ensures
        r == clamp_scalar(v, lower, upper),
{
    if v > upper && upper >= lower {
        upper
    } else if v < lower || upper < lower {
        lower
    } else {
        v
    }
}

impl core::ops::Add for Point {
    type Output = Point;

    fn add(self, other: Point) -> (r: Point) {
        Point {
            x: saturated(self.x as i128 + other.x as i128),
            y: saturated(self.y as i128 + other.y as i128),
        }
    }
}

impl AddSpecImpl for Point {
    open spec fn obeys_add_spec() -> bool {
        true
    }

    open spec fn add_req(self, other: Point) -> bool {
        true
    }

    open spec fn add_spec(self, other: Point) -> Point {
        self.spec_plus(other)
    }
}

impl core::ops::Sub for Point {
    type Output = Point;

    fn sub(self, other: Point) -> (r: Point) {
        Point {
            x: saturated(self.x as i128 - other.x as i128),
            y: saturated(self.y as i128 - other.y as i128),
        }
    }
}

impl SubSpecImpl for Point {
    open spec fn obeys_sub_spec() -> bool {
        true
    }

    open spec fn sub_req(self, other: Point) -> bool {
        true
    }

    open spec fn sub_spec(self, other: Point) -> Point {
        self.spec_minus(other)
    }
}

impl core::ops::Div<i64> for Point {
    type Output = Point;

    fn div(self, n: i64) -> (r: Point) {
        Point {
            x: quotient(self.x as i128, n as i128) as i64,
            y: quotient(self.y as i128, n as i128) as i64,
        }
    }
}

impl DivSpecImpl<i64> for Point {
    open spec fn obeys_div_spec() -> bool {
        true
    }

    open spec fn div_req(self, n: i64) -> bool {
        n > 0
    }

    open spec fn div_spec(self, n: i64) -> Point {
        self.spec_over(n)
    }
}

/// How much a quantity changes over `time` at the given `rate`: their
/// product, rounded toward zero. A `time` of `UNIT` is one unit of time.
pub open spec fn change_over(rate: i64, time: i64) -> int {
    quotient_toward_zero(rate * time, UNIT as int)
}

/// How much a quantity changes over `time` at the given `rate`.
pub fn changed_over(rate: i64, time: i64) -> (r: i128)
    ensures
        r == change_over(rate, time),
        -0x4000_0000_0000_0000_0000_0000_0000_0000 <= r <= 0x4000_0000_0000_0000_0000_0000_0000_0000,
{
    proof {
        lemma_product_bound(rate as int, time as int, 0x8000_0000_0000_0000, 0x8000_0000_0000_0000);
        let product = rate * time;
        if product >= 0 {
            assert(0 <= product / 1_000_000 <= product);
        } else {
            assert(0 <= (-product) / 1_000_000 <= -product);
        }
    }
    quotient(rate as i128 * time as i128, UNIT as i128)
}

/// A heading and a position on the map.
#[derive(Clone, Copy, Debug, PartialEq, Eq, Structural)]
pub struct Pose {
    /// The heading, canonically in `[0, FULL_TURN)`.
    pub angle: i64,
    pub position: Point,
}

impl Pose {
    /// Headings add modulo a full turn, positions componentwise.
    pub open spec fn spec_plus(self, other: Pose) -> Pose {
        Pose {
            angle: wrap_angle(self.angle + other.angle),
            position: self.position.spec_plus(other.position),
        }
    }

    /// Headings subtract modulo a full turn, positions componentwise.
    pub open spec fn spec_minus(self, other: Pose) -> Pose {
        Pose {
            angle: wrap_angle(self.angle - other.angle),
            position: self.position.spec_minus(other.position),
        }
    }

    /// Every component divided by `n`, rounded toward zero.
    pub open spec fn spec_over(self, n: i64) -> Pose {
        Pose {
            angle: quotient_toward_zero(self.angle as int, n as int) as i64,
            position: self.position.spec_over(n),
        }
    }

    /// A pose drawn uniformly, each component from its own range.
    pub fn random(
        angle_range: Range<i64>,
        x_range: Range<i64>,
        y_range: Range<i64>,
        rng: &mut StdRng,
    ) -> (r: Pose)
        ensures
            drawn_from(r.angle, angle_range.start, angle_range.end),
            drawn_from(r.position.x, x_range.start, x_range.end),
            drawn_from(r.position.y, y_range.start, y_range.end),
    {
        let angle = uniform_between(rng, angle_range.start, angle_range.end);
        let x = uniform_between(rng, x_range.start, x_range.end);
        let y = uniform_between(rng, y_range.start, y_range.end);
        Pose { angle, position: Point { x, y } }
    }
}

impl Default for Pose {
    /// The origin, heading along the x axis.
    fn default() -> (r: Pose)
        ensures
            r == (Pose { angle: 0, position: Point { x: 0, y: 0 } }),
    {
        Pose { angle: 0, position: Point { x: 0, y: 0 } }
    }
}

impl core::ops::Add for Pose {
    type Output = Pose;

    fn add(self, other: Pose) -> (r: Pose) {
        Pose {
            angle: wrapped(self.angle as i128 + other.angle as i128),
            position: self.position + other.position,
        }
    }
}

impl AddSpecImpl for Pose {
    open spec fn obeys_add_spec() -> bool {
        true
    }

    open spec fn add_req(self, other: Pose) -> bool {
        true
    }

    open spec fn add_spec(self, other: Pose) -> Pose {
        self.spec_plus(other)
    }
}

impl core::ops::Sub for Pose {
    type Output = Pose;

    fn sub(self, other: Pose) -> (r: Pose) {
        Pose {
            angle: wrapped(self.angle as i128 - other.angle as i128),
            position: self.position - other.position,
        }
    }
}

impl SubSpecImpl for Pose {
    open spec fn obeys_sub_spec() -> bool {
        true
    }

    open spec fn sub_req(self, other: Pose) -> bool {
        true
    }

    open spec fn sub_spec(self, other: Pose) -> Pose {
        self.spec_minus(other)
    }
}

impl core::ops::Div<i64> for Pose {
    type Output = Pose;

    fn div(self, n: i64) -> (r: Pose) {
        Pose {
            angle: quotient(self.angle as i128, n as i128) as i64,
            position: self.position / n,
        }
    }
}

impl DivSpecImpl<i64> for Pose {
    open spec fn obeys_div_spec() -> bool {
        true
    }

    open spec fn div_req(self, n: i64) -> bool {
        n > 0
    }

    open spec fn div_spec(self, n: i64) -> Pose {
        self.spec_over(n)
    }
}

/// A pose together with its rates of change: angular and linear velocity.
#[derive(Clone, Copy, Debug, PartialEq, Eq, Structural)]
pub struct NewPose {
    /// The heading, canonically in `[0, FULL_TURN)`.
    pub angle: i64,
    pub position: Point,
    pub vel_angle: i64,
    pub velocity: Point,
}

impl NewPose {
    /// The heading and position alone.
    pub open spec fn spec_pose(self) -> Pose {
        Pose { angle: self.angle, position: self.position }
    }

    /// Headings add modulo a full turn, everything else componentwise.
    pub open spec fn spec_plus(self, other: NewPose) -> NewPose {
        NewPose {
            angle: wrap_angle(self.angle + other.angle),
            position: self.position.spec_plus(other.position),
            vel_angle: saturate(self.vel_angle + other.vel_angle),
            velocity: self.velocity.spec_plus(other.velocity),
        }
    }

    /// Headings subtract modulo a full turn, everything else componentwise.
    pub open spec fn spec_minus(self, other: NewPose) -> NewPose {
        NewPose {
            angle: wrap_angle(self.angle - other.angle),
            position: self.position.spec_minus(other.position),
            vel_angle: saturate(self.vel_angle - other.vel_angle),
            velocity: self.velocity.spec_minus(other.velocity),
        }
    }

    /// Every component divided by `n`, rounded toward zero.
    pub open spec fn spec_over(self, n: i64) -> NewPose {
        NewPose {
            angle: quotient_toward_zero(self.angle as int, n as int) as i64,
            position: self.position.spec_over(n),
            vel_angle: quotient_toward_zero(self.vel_angle as int, n as int) as i64,
            velocity: self.velocity.spec_over(n),
        }
    }

    /// The position clipped to the rectangle from `bounds.start` to
    /// `bounds.end`; a velocity component is zero exactly where its position
    /// component was moved by the clipping.
    pub open spec fn spec_clamp_control_update(self, bounds: Range<Point>) -> NewPose {
        let position = self.position.spec_clamp(bounds.start, bounds.end);
        NewPose {
            angle: self.angle,
            position,
            vel_angle: self.vel_angle,
            velocity: Point {
                x: if position.x == self.position.x {
                    self.velocity.x
                } else {
                    0
                },
                y: if position.y == self.position.y {
                    self.velocity.y
                } else {
                    0
                },
            },
        }
    }

    /// Where the pose is after `time`, moving at its velocities while
    /// `acceleration` changes them: the heading turns by the angular velocity
    /// and wraps, the position moves by the velocity, and the velocities grow
    /// by the acceleration; each change is the rate times `time`, rounded
    /// toward zero. The position moves at the velocity from before the step.
    pub open spec fn spec_advance(self, time: i64, acceleration: Pose) -> NewPose {
        NewPose {
            angle: wrap_angle(self.angle + change_over(self.vel_angle, time)),
            position: Point {
                x: saturate(self.position.x + change_over(self.velocity.x, time)),
                y: saturate(self.position.y + change_over(self.velocity.y, time)),
            },
            vel_angle: saturate(self.vel_angle + change_over(acceleration.angle, time)),
            velocity: Point {
                x: saturate(self.velocity.x + change_over(acceleration.position.x, time)),
                y: saturate(self.velocity.y + change_over(acceleration.position.y, time)),
            },
        }
    }

    /// Whether every component may come out of a symmetric draw whose
    /// half-widths are the components of `spread`.
    pub open spec fn drawn_within(self, spread: NewPose) -> bool {
        &&& drawn_around_zero(self.angle, spread.angle)
        &&& drawn_around_zero(self.position.x, spread.position.x)
        &&& drawn_around_zero(self.position.y, spread.position.y)
        &&& drawn_around_zero(self.vel_angle, spread.vel_angle)
        &&& drawn_around_zero(self.velocity.x, spread.velocity.x)
        &&& drawn_around_zero(self.velocity.y, spread.velocity.y)
    }

    /// The heading and position alone.
    pub fn pose(self) -> (r: Pose)
        ensures
            r == self.spec_pose(),
    {
        Pose { angle: self.angle, position: self.position }
    }

    /// Stops the pose at the walls of the rectangle from `bounds.start` to
    /// `bounds.end`: the position is clipped to it, and where a component was
    /// clipped the velocity along that axis becomes zero.
    pub fn clamp_control_update(self, bounds: Range<Point>) -> (r: NewPose)
        ensures
            r == self.spec_clamp_control_update(bounds),
    {
        let position = self.position.clamp(bounds.start, bounds.end);
        let mut velocity = self.velocity;
        if position.x != self.position.x {
            velocity.x = 0;
        }
        if position.y != self.position.y {
            velocity.y = 0;
        }
        NewPose { angle: self.angle, position, vel_angle: self.vel_angle, velocity }
    }

    /// Where the pose is after `time`, moving at its velocities while
    /// `acceleration` changes them.
    pub fn advance(self, time: i64, acceleration: Pose) -> (r: NewPose)
        ensures
            r == self.spec_advance(time, acceleration),
    {
        NewPose {
            angle: wrapped(self.angle as i128 + changed_over(self.vel_angle, time)),
            position: Point {
                x: saturated(self.position.x as i128 + changed_over(self.velocity.x, time)),
                y: saturated(self.position.y as i128 + changed_over(self.velocity.y, time)),
            },
            vel_angle: saturated(self.vel_angle as i128 + changed_over(acceleration.angle, time)),
            velocity: Point {
                x: saturated(
                    self.velocity.x as i128 + changed_over(acceleration.position.x, time),
                ),
                y: saturated(
                    self.velocity.y as i128 + changed_over(acceleration.position.y, time),
                ),
            },
        }
    }

    /// A pose drawn uniformly, each component from its own range.
    pub fn random(
        angle_range: Range<i64>,
        x_range: Range<i64>,
        y_range: Range<i64>,
        vel_angle_range: Range<i64>,
        x_vel_range: Range<i64>,
        y_vel_range: Range<i64>,
        rng: &mut StdRng,
    ) -> (r: NewPose)
        ensures
            drawn_from(r.angle, angle_range.start, angle_range.end),
            drawn_from(r.position.x, x_range.start, x_range.end),
            drawn_from(r.position.y, y_range.start, y_range.end),
            drawn_from(r.vel_angle, vel_angle_range.start, vel_angle_range.end),
            drawn_from(r.velocity.x, x_vel_range.start, x_vel_range.end),
            drawn_from(r.velocity.y, y_vel_range.start, y_vel_range.end),
    {
        let angle = uniform_between(rng, angle_range.start, angle_range.end);
        let x = uniform_between(rng, x_range.start, x_range.end);
        let y = uniform_between(rng, y_range.start, y_range.end);
        let vel_angle = uniform_between(rng, vel_angle_range.start, vel_angle_range.end);
        let vx = uniform_between(rng, x_vel_range.start, x_vel_range.end);
        let vy = uniform_between(rng, y_vel_range.start, y_vel_range.end);
        NewPose {
            angle,
            position: Point { x, y },
            vel_angle,
            velocity: Point { x: vx, y: vy },
        }
    }

    /// A pose drawn uniformly around zero, each component no farther from it
    /// than the same component of `range`.
    pub fn random_from_range(range: NewPose, rng: &mut StdRng) -> (r: NewPose)
        ensures
            r.drawn_within(range),
    {
        let angle = uniform_around_zero(rng, range.angle);
        let x = uniform_around_zero(rng, range.position.x);
        let y = uniform_around_zero(rng, range.position.y);
        let vel_angle = uniform_around_zero(rng, range.vel_angle);
        let vx = uniform_around_zero(rng, range.velocity.x);
        let vy = uniform_around_zero(rng, range.velocity.y);
        NewPose {
            angle,
            position: Point { x, y },
            vel_angle,
            velocity: Point { x: vx, y: vy },
        }
    }
}

impl Default for NewPose {
    /// At rest at the origin, heading along the x axis.
    fn default() -> (r: NewPose)
        ensures
            r == (NewPose {
                angle: 0,
                position: Point { x: 0, y: 0 },
                vel_angle: 0,
                velocity: Point { x: 0, y: 0 },
            }),
    {
        NewPose {
            angle: 0,
            position: Point { x: 0, y: 0 },
            vel_angle: 0,
            velocity: Point { x: 0, y: 0 },
        }
    }
}

impl core::ops::Add for NewPose {
    type Output = NewPose;

    fn add(self, other: NewPose) -> (r: NewPose) {
        NewPose {
            angle: wrapped(self.angle as i128 + other.angle as i128),
            position: self.position + other.position,
            vel_angle: saturated(self.vel_angle as i128 + other.vel_angle as i128),
            velocity: self.velocity + other.velocity,
        }
    }
}

impl AddSpecImpl for NewPose {
    open spec fn obeys_add_spec() -> bool {
        true
    }

    open spec fn add_req(self, other: NewPose) -> bool {
        true
    }

    open spec fn add_spec(self, other: NewPose) -> NewPose {
        self.spec_plus(other)
    }
}

impl core::ops::Add<Pose> for NewPose {
    type Output = Pose;

    /// Where something mounted at `other`, relative to this pose, stands.
    fn add(self, other: Pose) -> (r: Pose) {
        self.pose() + other
    }
}

impl AddSpecImpl<Pose> for NewPose {
    open spec fn obeys_add_spec() -> bool {
        true
    }

    open spec fn add_req(self, other: Pose) -> bool {
        true
    }

    open spec fn add_spec(self, other: Pose) -> Pose {
        self.spec_pose().spec_plus(other)
    }
}

impl core::ops::Sub for NewPose {
    type Output = NewPose;

    fn sub(self, other: NewPose) -> (r: NewPose) {
        NewPose {
            angle: wrapped(self.angle as i128 - other.angle as i128),
            position: self.position - other.position,
            vel_angle: saturated(self.vel_angle as i128 - other.vel_angle as i128),
            velocity: self.velocity - other.velocity,
        }
    }
}

impl SubSpecImpl for NewPose {
    open spec fn obeys_sub_spec() -> bool {
        true
    }

    open spec fn sub_req(self, other: NewPose) -> bool {
        true
    }

    open spec fn sub_spec(self, other: NewPose) -> NewPose {
        self.spec_minus(other)
    }
}

impl core::ops::Div<i64> for NewPose {
    type Output = NewPose;

    fn div(self, n: i64) -> (r: NewPose) {
        NewPose {
            angle: quotient(self.angle as i128, n as i128) as i64,
            position: self.position / n,
            vel_angle: quotient(self.vel_angle as i128, n as i128) as i64,
            velocity: self.velocity / n,
        }
    }
}

impl DivSpecImpl<i64> for NewPose {
    open spec fn obeys_div_spec() -> bool {
        true
    }

    open spec fn div_req(self, n: i64) -> bool {
        n > 0
    }

    open spec fn div_spec(self, n: i64) -> NewPose {
        self.spec_over(n)
    }
}

/// Adding a pose and taking it away again gives back the position, and the
/// heading up to whole turns, as long as the sum of the positions stays within
/// the `i64` range.
pub proof fn lemma_pose_round_trip(a: Pose, b: Pose)
    requires
        i64::MIN <= a.position.x + b.position.x <= i64::MAX,
        i64::MIN <= a.position.y + b.position.y <= i64::MAX,
    ensures
        a.spec_plus(b).spec_minus(b).position == a.position,
        a.spec_plus(b).spec_minus(b).angle == wrap_angle(a.angle as int),
        0 <= a.angle < FULL_TURN ==> a.spec_plus(b).spec_minus(b) == a,
{
    let turn: int = FULL_TURN as int;
    let sum: int = a.angle + b.angle;
    let there: int = wrap_angle(sum) as int;
    assert(there == sum % turn);
    assert((there - b.angle) % turn == (a.angle as int) % turn) by {
        vstd::arithmetic::div_mod::lemma_fundamental_div_mod(sum, turn);
        let q: int = sum / turn;
        assert(there - b.angle == a.angle + (-q) * turn) by (nonlinear_arith)
            requires
                sum == turn * q + there,
                sum == a.angle + b.angle,
        ;
        vstd::arithmetic::div_mod::lemma_mod_multiples_vanish(-q, a.angle as int, turn);
    }
    if 0 <= a.angle < FULL_TURN {
        vstd::arithmetic::div_mod::lemma_small_mod(a.angle as nat, turn as nat);
    }
}

/// Stopping a pose at the walls twice changes nothing that stopping it once
/// has not changed.
pub proof fn lemma_clamp_control_update_idempotent(p: NewPose, bounds: Range<Point>)
    ensures
        p.spec_clamp_control_update(bounds).spec_clamp_control_update(bounds)
            == p.spec_clamp_control_update(bounds),
{
}

/// A pose inside the rectangle or on its boundary is left as it is, velocity
/// included: only a position strictly outside is stopped.
pub proof fn lemma_clamp_keeps_pose_within_bounds(p: NewPose, bounds: Range<Point>)
    requires
        bounds.start.x <= p.position.x <= bounds.end.x,
        bounds.start.y <= p.position.y <= bounds.end.y,
    ensures
        p.spec_clamp_control_update(bounds) == p,
{
}

/// Along an axis on which the position lies strictly outside the rectangle,
/// the pose is brought to the nearer wall and its velocity is zero.
pub proof fn lemma_clamp_stops_pose_outside_bounds(p: NewPose, bounds: Range<Point>)
    requires
        bounds.start.x <= bounds.end.x,
        p.position.x < bounds.start.x || p.position.x > bounds.end.x,
    ensures
        p.spec_clamp_control_update(bounds).velocity.x == 0,
        p.position.x < bounds.start.x ==> p.spec_clamp_control_update(bounds).position.x
            == bounds.start.x,
        p.position.x > bounds.end.x ==> p.spec_clamp_control_update(bounds).position.x
            == bounds.end.x,
{
}

} // verus!
