//! Where a particle starts: a point, a disc or a rectangle, sampled in fixed point.
use vstd::prelude::*;
use crate::sampling::{
    float_needs_draw, float_sample, lemma_sample_float_in_range, sample_float,
};

verus! {

/// The region a burst spawns from, in thousandths of a pixel.
#[derive(Clone, Copy, Debug)]
pub enum BurstSource {
    Point(i32, i32),
    Circle { center: (i32, i32), radius: i32 },
    Rectangle { min: (i32, i32), max: (i32, i32) },
}

/// Half a turn in milliradians.
pub const HALF_TURN: i64 = 3142;

/// A quarter turn in milliradians.
pub const QUARTER_TURN: i64 = 1571;

/// Upper end of the angle range a disc position is drawn from (a full turn,
/// truncated to milliradians).
pub const FULL_TURN: i32 = 6283;

/// The square of the unit length of a direction (1000 thousandths).
pub const UNIT_SQUARED: i64 = 1000000;

pub open spec fn abs(v: int) -> int {
    if v >= 0 {
        v
    } else {
        -v
    }
}

/// Bhaskara's rational approximation of the sine on `[0, half turn]`, in thousandths.
pub open spec fn half_sine(x: int) -> int {
    let u = x * (HALF_TURN - x);
    (16000 * u) / (5 * HALF_TURN * HALF_TURN - 4 * u)
}

/// Approximate sine of an angle in `[0, full turn)`, in thousandths.
pub open spec fn sine(x: int) -> int {
    if x < HALF_TURN {
        half_sine(x)
    } else {
        -half_sine(x - HALF_TURN)
    }
}

/// Approximate cosine, as the sine a quarter turn further on.
pub open spec fn cosine(x: int) -> int {
    let y = x + QUARTER_TURN;
    sine(if y < 2 * HALF_TURN { y } else { y - 2 * HALF_TURN })
}

pub open spec fn toward_zero(v: int) -> int {
    if v > 0 {
        v - 1
    } else if v < 0 {
        v + 1
    } else {
        0
    }
}

/// Shortens the larger component of `(c, s)` one thousandth at a time until the
/// vector is no longer than the unit.
pub open spec fn normalized(c: int, s: int) -> (int, int)
    decreases abs(c) + abs(s),
{
    if c * c + s * s <= UNIT_SQUARED {
        (c, s)
    } else if abs(c) >= abs(s) {
        if c == 0 {
            (c, s)
        } else {
            normalized(toward_zero(c), s)
        }
    } else {
        normalized(c, toward_zero(s))
    }
}

/// The unit direction (cosine, sine) of an angle in milliradians, in thousandths.
pub open spec fn direction(angle: int) -> (int, int) {
    normalized(cosine(angle), sine(angle))
}

/// `dist * c / 1000`, rounded toward zero.
pub open spec fn scaled(dist: int, c: int) -> int {
    if c >= 0 {
        (dist * c) / 1000
    } else {
        -((dist * (-c)) / 1000)
    }
}

/// The offset `dist * (cos angle, sin angle)`.
pub open spec fn polar_offset(angle: int, dist: int) -> (int, int) {
    (scaled(dist, direction(angle).0), scaled(dist, direction(angle).1))
}

/// The position drawn from `source` with the draws `d0` and `d1`: a point stays
/// put; a disc takes an angle from `d0` and a distance from `d1` (uniform in the
/// radius, not in the area); a rectangle takes x from `d0` and y from `d1`. The
/// direction of a disc position is `direction`, an integer approximation of
/// (cos, sin) that is never longer than the unit, not the exact trigonometry.
pub open spec fn position_of(source: BurstSource, d0: u32, d1: u32) -> (int, int) {
    match source {
        BurstSource::Point(x, y) => (x as int, y as int),
        BurstSource::Circle { center, radius } => {
            let angle = float_sample(0, FULL_TURN as int, d0);
            let dist = float_sample(0, radius as int, d1);
            let off = polar_offset(angle, dist);
            (center.0 + off.0, center.1 + off.1)
        },
        BurstSource::Rectangle { min, max } => (
            float_sample(min.0 as int, max.0 as int, d0),
            float_sample(min.1 as int, max.1 as int, d1),
        ),
    }
}

/// Which of the two position samples of `source` take a draw: none for a point,
/// and none for a sample whose span is below a thousandth.
pub open spec fn position_needs(source: BurstSource) -> (bool, bool) {
    match source {
        BurstSource::Point(..) => (false, false),
        BurstSource::Circle { radius, .. } => (
            float_needs_draw(0, FULL_TURN as int),
            float_needs_draw(0, radius as int),
        ),
        BurstSource::Rectangle { min, max } => (
            float_needs_draw(min.0 as int, max.0 as int),
            float_needs_draw(min.1 as int, max.1 as int),
        ),
    }
}

proof fn lemma_half_sine_bounds(x: int)
    requires
        0 <= x <= HALF_TURN,
    ensures
        0 <= x * (HALF_TURN - x),
        4 * (x * (HALF_TURN - x)) <= HALF_TURN * HALF_TURN,
        0 <= half_sine(x) <= 1000,
{
    let u = x * (HALF_TURN - x);
    assert(0 <= u) by (nonlinear_arith)
        requires
            0 <= x <= HALF_TURN,
            u == x * (HALF_TURN - x),
    ;
    assert(4 * u <= HALF_TURN * HALF_TURN) by (nonlinear_arith)
        requires
            u == x * (HALF_TURN - x),
    {
        assert((HALF_TURN - 2 * x) * (HALF_TURN - 2 * x) >= 0);
    }
    let num = 16000 * u;
    let den = 5 * HALF_TURN * HALF_TURN - 4 * u;
    assert(0 <= num / den <= 1000) by (nonlinear_arith)
        requires
            0 <= num <= 1000 * den,
            den > 0,
    ;
}

fn half_sine_exec(x: i64) -> (r: i64)
    requires
        0 <= x <= HALF_TURN,
    ensures
        r == half_sine(x as int),
        0 <= r <= 1000,
{
    proof {
        lemma_half_sine_bounds(x as int);
    }
    let u = x * (HALF_TURN - x);
    (16000 * u) / (5 * HALF_TURN * HALF_TURN - 4 * u)
}

fn sine_exec(x: i64) -> (r: i64)
    requires
        0 <= x < 2 * HALF_TURN,
    ensures
        r == sine(x as int),
        -1000 <= r <= 1000,
{
    if x < HALF_TURN {
        half_sine_exec(x)
    } else {
        -half_sine_exec(x - HALF_TURN)
    }
}

fn length_squared(c: i64, s: i64) -> (r: i64)
    requires
        -1000 <= c <= 1000,
        -1000 <= s <= 1000,
    ensures
        r == c * c + s * s,
{
    proof {
        assert(0 <= c * c <= 1000000 && 0 <= s * s <= 1000000) by (nonlinear_arith)
            requires
                -1000 <= c <= 1000,
                -1000 <= s <= 1000,
        ;
    }
    c * c + s * s
}

/// The unit direction of an angle in milliradians: never longer than the unit.
pub fn unit_direction(angle: i64) -> (r: (i64, i64))
    requires
        0 <= angle < 2 * HALF_TURN,
    ensures
        (r.0 as int, r.1 as int) == direction(angle as int),
        r.0 * r.0 + r.1 * r.1 <= UNIT_SQUARED,
        -1000 <= r.0 <= 1000,
        -1000 <= r.1 <= 1000,
{
    let y = angle + QUARTER_TURN;
    let c0 = sine_exec(if y < 2 * HALF_TURN { y } else { y - 2 * HALF_TURN });
    let s0 = sine_exec(angle);
    let mut c = c0;
    let mut s = s0;
    while length_squared(c, s) > UNIT_SQUARED
        invariant
            -1000 <= c <= 1000,
            -1000 <= s <= 1000,
            normalized(c as int, s as int) == normalized(c0 as int, s0 as int),
        decreases abs(c as int) + abs(s as int),
    {
        let ac: i64 = if c >= 0 { c } else { -c };
        let as_: i64 = if s >= 0 { s } else { -s };
        if ac >= as_ {
            c = if c > 0 { c - 1 } else { c + 1 };
        } else {
            s = if s > 0 { s - 1 } else { s + 1 };
        }
    }
    proof {
        assert(-1000 <= c <= 1000 && c * c <= 1000000) by (nonlinear_arith)
            requires
                -1000 <= c <= 1000,
        ;
    }
    (c, s)
}

/// `dist * c / 1000`, rounded toward zero.
fn scale(dist: i64, c: i64) -> (r: i64)
    requires
        0 <= dist <= u32::MAX,
        -1000 <= c <= 1000,
    ensures
        r == scaled(dist as int, c as int),
{
    proof {
        assert(0 <= dist * (if c >= 0 { c as int } else { -c }) <= 1000 * u32::MAX) by (nonlinear_arith)
            requires
                0 <= dist <= u32::MAX,
                -1000 <= c <= 1000,
        ;
    }
    if c >= 0 {
        (dist * c) / 1000
    } else {
        -((dist * (-c)) / 1000)
    }
}

/// The position drawn from `source` with the draws `d0` and `d1`.
pub fn spawn_position(source: &BurstSource, d0: u32, d1: u32) -> (r: (i64, i64))
    ensures
        (r.0 as int, r.1 as int) == position_of(*source, d0, d1),
{
    match source {
        BurstSource::Point(x, y) => (*x as i64, *y as i64),
        BurstSource::Circle { center, radius } => {
            let angle = sample_float(0, FULL_TURN, d0);
            let dist = sample_float(0, *radius, d1);
            let dir = unit_direction(angle);
            let dx = scale(dist, dir.0);
            let dy = scale(dist, dir.1);
            proof {
                assert(-(u32::MAX as int) <= dx <= u32::MAX) by (nonlinear_arith)
                    requires
                        dx == scaled(dist as int, dir.0 as int),
                        0 <= dist <= u32::MAX,
                        -1000 <= dir.0 <= 1000,
                ;
                assert(-(u32::MAX as int) <= dy <= u32::MAX) by (nonlinear_arith)
                    requires
                        dy == scaled(dist as int, dir.1 as int),
                        0 <= dist <= u32::MAX,
                        -1000 <= dir.1 <= 1000,
                ;
            }
            (center.0 as i64 + dx, center.1 as i64 + dy)
        },
        BurstSource::Rectangle { min, max } => {
            let x = sample_float(min.0, max.0, d0);
            let y = sample_float(min.1, max.1, d1);
            (x, y)
        },
    }
}

proof fn lemma_direction_is_short(c: int, s: int)
    ensures
        normalized(c, s).0 * normalized(c, s).0 + normalized(c, s).1 * normalized(c, s).1
            <= UNIT_SQUARED,
    decreases abs(c) + abs(s),
{
    if c * c + s * s <= UNIT_SQUARED {
    } else if abs(c) >= abs(s) {
        if c == 0 {
            assert(s == 0);
        } else {
            lemma_direction_is_short(toward_zero(c), s);
        }
    } else {
        lemma_direction_is_short(c, toward_zero(s));
    }
}

proof fn lemma_scaled_bound(dist: int, c: int)
    requires
        dist >= 0,
    ensures
        scaled(dist, c) * scaled(dist, c) * 1000000 <= dist * dist * (c * c),
{
    let a = abs(c);
    let m = (dist * a) / 1000;
    assert(a * a == c * c) by (nonlinear_arith)
        requires
            a == abs(c),
    ;
    assert(scaled(dist, c) * scaled(dist, c) == m * m) by (nonlinear_arith)
        requires
            scaled(dist, c) == m || scaled(dist, c) == -m,
    ;
    assert(0 <= 1000 * m <= dist * a) by (nonlinear_arith)
        requires
            dist >= 0,
            a >= 0,
            m == (dist * a) / 1000,
    ;
    assert(m * m * 1000000 <= dist * dist * (c * c)) by (nonlinear_arith)
        requires
            0 <= 1000 * m <= dist * a,
            a * a == c * c,
            dist >= 0,
            a >= 0,
    ;
}

/// Every position drawn from a disc of non-negative radius lies within the radius
/// of its center.
pub proof fn lemma_circle_within_radius(center: (i32, i32), radius: i32, d0: u32, d1: u32)
    requires
        radius >= 0,
    ensures
        ({
            let p = position_of(BurstSource::Circle { center, radius }, d0, d1);
            (p.0 - center.0) * (p.0 - center.0) + (p.1 - center.1) * (p.1 - center.1)
                <= radius * radius
        }),
{
    let angle = float_sample(0, FULL_TURN as int, d0);
    let dist = float_sample(0, radius as int, d1);
    let (c, s) = direction(angle);
    lemma_direction_is_short(cosine(angle), sine(angle));
    lemma_scaled_bound(dist, c);
    lemma_scaled_bound(dist, s);
    let dx = scaled(dist, c);
    let dy = scaled(dist, s);
    lemma_sample_float_in_range(0, radius, d1);
    assert(0 <= dist <= radius);
    assert(dx * dx + dy * dy <= radius * radius) by (nonlinear_arith)
        requires
            dx * dx * 1000000 <= dist * dist * (c * c),
            dy * dy * 1000000 <= dist * dist * (s * s),
            c * c + s * s <= 1000000,
            0 <= dist <= radius,
    {
        assert(dist * dist * (c * c) + dist * dist * (s * s) == dist * dist * (c * c + s * s));
        assert(dist * dist * (c * c + s * s) <= dist * dist * 1000000);
        assert(dist * dist <= radius * radius);
    }
}

/// Every position drawn from a rectangle lies inside it.
pub proof fn lemma_rectangle_within_bounds(min: (i32, i32), max: (i32, i32), d0: u32, d1: u32)
    requires
        min.0 <= max.0,
        min.1 <= max.1,
    ensures
        ({
            let p = position_of(BurstSource::Rectangle { min, max }, d0, d1);
            &&& min.0 <= p.0 <= max.0
            &&& min.1 <= p.1 <= max.1
        }),
{
    lemma_sample_float_in_range(min.0, max.0, d0);
    lemma_sample_float_in_range(min.1, max.1, d1);
}

} // verus!
