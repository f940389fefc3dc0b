//! Accelerometer samples to Microsoft two-button serial mouse packets.
//!
//! Fixed-point values are held as the raw bits of an `I32F32` (see
//! `fixed_point`). Note that the integration follows the legacy design on
//! purpose: the "acceleration" it integrates is the change between two
//! consecutive samples, not the sample itself.
use crate::fixed_point::{fx_div, fx_div_int, fx_from_int, fx_mul, fx_to_i32};
use crate::fixed_point::{div_spec, mul_spec, one, trunc_div};
use vstd::prelude::*;
use vstd::arithmetic::div_mod::{lemma_div_is_ordered, lemma_div_multiples_vanish};

verus! {

/// Largest tick duration, in milliseconds, that the conversion accepts.
pub const MAX_DT_MS: u32 = 1000;

/// Bound on the raw bits of each stored velocity (a velocity of `2^16`).
pub const VELOCITY_LIMIT: i64 = 0x1_0000_0000_0000;

/// Scaling factor from distance to movement units.
pub const SCALING_FACTOR: i64 = 5000;

/// Normaliser: the largest acceleration expected from the sensor.
pub const MAX_ACCEL: i64 = 4096;

/// Ceiling of the movement units.
pub const MAX_MOVEMENT_UNIT: i64 = 127;

/// Sign applied to the Y axis (the sensor is mounted mirrored).
pub const Y_AXIS_DIRECTION: i64 = -1;

/// The converter's state as mathematical integers (fixed-point raw bits for
/// the first four fields).
pub struct MouseState {
    pub prev_x: int,
    pub prev_y: int,
    pub vel_x: int,
    pub vel_y: int,
    pub delta_x: int,
    pub delta_y: int,
}

pub open spec fn clamp127(v: int) -> int {
    if v < -127 {
        -127
    } else if v > 127 {
        127
    } else {
        v
    }
}

/// The tick duration in seconds, as fixed-point raw bits.
pub open spec fn dt_seconds(dt: u32) -> int {
    trunc_div(dt as int * one(), 1000)
}

/// Change of acceleration on one axis: the new sample minus the stored one.
pub open spec fn accel_of(prev: int, sample: int) -> int {
    sample * one() - prev
}

pub open spec fn next_velocity(prev: int, vel: int, sample: int, dt: u32) -> int {
    vel + mul_spec(accel_of(prev, sample), dt_seconds(dt))
}

/// `v * dt + a * dt^2 / 2`, with the new velocity `v`.
pub open spec fn distance(prev: int, vel: int, sample: int, dt: u32) -> int {
    let d = dt_seconds(dt);
    mul_spec(next_velocity(prev, vel, sample, dt), d) + trunc_div(
        mul_spec(accel_of(prev, sample), mul_spec(d, d)),
        2,
    )
}

/// `distance * scaling / max_accel * max_movement`, in raw bits.
pub open spec fn scaled(dist: int) -> int {
    mul_spec(
        div_spec(mul_spec(dist, SCALING_FACTOR * one()), MAX_ACCEL * one()),
        MAX_MOVEMENT_UNIT * one(),
    )
}

/// The movement reported on one axis: the scaled distance rounded down to
/// an integer and saturated to `[-127, 127]`.
pub open spec fn displacement(prev: int, vel: int, sample: int, dt: u32) -> int {
    clamp127(scaled(distance(prev, vel, sample, dt)) / one())
}

/// One update of the kinematic state by the sample `(x, y)` after `dt` ms.
pub open spec fn mouse_step(s: MouseState, x: i16, y: i16, dt: u32) -> MouseState {
    let sy = Y_AXIS_DIRECTION * y;
    MouseState {
        prev_x: x * one(),
        prev_y: sy * one(),
        vel_x: next_velocity(s.prev_x, s.vel_x, x as int, dt),
        vel_y: next_velocity(s.prev_y, s.vel_y, sy, dt),
        delta_x: displacement(s.prev_x, s.vel_x, x as int, dt),
        delta_y: displacement(s.prev_y, s.vel_y, sy, dt),
    }
}

/// A movement byte as the wire sends it (two's complement).
pub open spec fn byte_of(v: i8) -> int {
    if v >= 0 {
        v as int
    } else {
        v + 256
    }
}

/// The three bytes of a mouse packet: byte 0 holds the sync bit 6, the left
/// and right button in bits 5 and 4, bits 7:6 of the Y movement in bits 3:2
/// and bits 7:6 of the X movement in bits 1:0; bytes 1 and 2 hold the low six
/// bits of the X and Y movement.
pub open spec fn mouse_packet(dx: i8, dy: i8, left: bool, right: bool) -> Seq<u8> {
    seq![
        (0x40 + (if left { 0x20int } else { 0 }) + (if right { 0x10int } else { 0 }) + 4 * (
        byte_of(dy) / 64) + byte_of(dx) / 64) as u8,
        (byte_of(dx) % 64) as u8,
        (byte_of(dy) % 64) as u8,
    ]
}

/// The two's-complement byte of a movement.
pub fn wire_byte(v: i8) -> (r: u8)
    ensures
        r == byte_of(v),
{
    if v >= 0 {
        v as u8
    } else {
        (v as i16 + 256) as u8
    }
}

/// Encodes a movement and the two buttons as a Microsoft two-button serial
/// mouse packet.
pub fn encode_mouse_packet(dx: i8, dy: i8, left: bool, right: bool) -> (p: [u8; 3])
    ensures
        p@ == mouse_packet(dx, dy, left, right),
{
    let ux = wire_byte(dx);
    let uy = wire_byte(dy);
    let buttons: u8 = match (left, right) {
        (false, false) => 0x00,
        (false, true) => 0x10,
        (true, false) => 0x20,
        (true, true) => 0x30,
    };
    let b0 = 0x40u8 | buttons | ((ux & 0xc0) >> 6u8) | ((uy & 0xc0) >> 4u8);
    let b1 = ux & 0x3f;
    let b2 = uy & 0x3f;
    assert(b0 == 0x40 + buttons + 4 * (uy / 64) + ux / 64) by (bit_vector)
        requires
            buttons == 0 || buttons == 0x10 || buttons == 0x20 || buttons == 0x30,
            b0 == 0x40u8 | buttons | ((ux & 0xc0) >> 6u8) | ((uy & 0xc0) >> 4u8),
    ;
    assert(b1 == ux % 64) by (bit_vector)
        requires
            b1 == ux & 0x3f,
    ;
    assert(b2 == uy % 64) by (bit_vector)
        requires
            b2 == uy & 0x3f,
    ;
    let p = [b0, b1, b2];
    assert(p@ =~= mouse_packet(dx, dy, left, right));
    p
}

/// `|n| <= b * m` bounds the floor quotient `n / m` by `b`.
proof fn lemma_floor_div_bound(n: int, m: int, b: int)
    requires
        m > 0,
        b >= 0,
        -(b * m) <= n <= b * m,
    ensures
        -b <= n / m <= b,
{
    lemma_div_is_ordered(n, b * m, m);
    lemma_div_is_ordered(-(b * m), n, m);
    lemma_div_multiples_vanish(b, m);
    lemma_div_multiples_vanish(-b, m);
    assert(m * b == b * m) by (nonlinear_arith);
    assert(m * (-b) == -(b * m)) by (nonlinear_arith);
}

/// `|n| <= b * m` bounds the truncated quotient of `n` by `m` by `b`.
proof fn lemma_trunc_div_bound(n: int, m: int, b: int)
    requires
        m > 0,
        b >= 0,
        -(b * m) <= n <= b * m,
    ensures
        -b <= trunc_div(n, m) <= b,
{
    lemma_floor_div_bound(n, m, b);
    lemma_floor_div_bound(-n, m, b);
}

/// A product with a factor in `[0, 1]` is no larger in magnitude.
proof fn lemma_mul_by_fraction(a: int, f: int, b: int)
    requires
        0 <= f <= one(),
        b >= 0,
        -b <= a <= b,
    ensures
        -b <= mul_spec(a, f) <= b,
        a >= 0 ==> mul_spec(a, f) >= 0,
{
    assert(-(b * one()) <= a * f <= b * one()) by (nonlinear_arith)
        requires
            0 <= f <= one(),
            -b <= a <= b,
            b >= 0,
    ;
    assert(a >= 0 ==> a * f >= 0) by (nonlinear_arith)
        requires
            0 <= f,
    ;
    lemma_floor_div_bound(a * f, one(), b);
    if a >= 0 {
        lemma_div_is_ordered(0, a * f, one());
    }
}

/// Multiplying by the fixed-point integer `c` is exact.
proof fn lemma_mul_by_integer(a: int, c: int)
    ensures
        mul_spec(a, c * one()) == a * c,
{
    assert(a * (c * one()) == one() * (a * c)) by (nonlinear_arith);
    lemma_div_multiples_vanish(a * c, one());
}

/// Bounds on the quantities of one axis' update, for a stored sample and
/// velocity in range.
proof fn lemma_axis_bounds(prev: int, vel: int, sample: int, dt: u32)
    requires
        -0x8000 * one() <= prev <= 0x8000 * one(),
        -0x8000 <= sample <= 0x8000,
        -VELOCITY_LIMIT <= vel <= VELOCITY_LIMIT,
        dt <= MAX_DT_MS,
    ensures
        0 <= dt_seconds(dt) <= one(),
        -0x1_0000_0000_0000 <= mul_spec(accel_of(prev, sample), dt_seconds(dt))
            <= 0x1_0000_0000_0000,
        0 <= mul_spec(dt_seconds(dt), dt_seconds(dt)) <= one(),
        -0x1_0000_0000_0000 <= mul_spec(
            accel_of(prev, sample),
            mul_spec(dt_seconds(dt), dt_seconds(dt)),
        ) <= 0x1_0000_0000_0000,
        -0x2_0000_0000_0000 <= mul_spec(next_velocity(prev, vel, sample, dt), dt_seconds(dt))
            <= 0x2_0000_0000_0000,
        -0x4_0000_0000_0000 <= distance(prev, vel, sample, dt) <= 0x4_0000_0000_0000,
        -0x2_0000_0000_0000 <= next_velocity(prev, vel, sample, dt) <= 0x2_0000_0000_0000,
{
    let d = dt_seconds(dt);
    assert(dt as int * one() <= 1000 * one());
    lemma_floor_div_bound(dt as int * one(), 1000, one());
    assert(0 <= d) by {
        lemma_div_is_ordered(0, dt as int * one(), 1000);
    }
    let a = accel_of(prev, sample);
    assert(-0x1_0000_0000_0000 <= a <= 0x1_0000_0000_0000);
    lemma_mul_by_fraction(a, d, 0x1_0000_0000_0000);
    lemma_mul_by_fraction(d, d, one());
    let dd = mul_spec(d, d);
    lemma_mul_by_fraction(a, dd, 0x1_0000_0000_0000);
    lemma_trunc_div_bound(mul_spec(a, dd), 2, 0x8000_0000_0000);
    let v = next_velocity(prev, vel, sample, dt);
    lemma_mul_by_fraction(v, d, 0x2_0000_0000_0000);
}

/// Bounds on the scaling of a distance in range.
proof fn lemma_scale_bounds(dist: int)
    requires
        -0x4_0000_0000_0000 <= dist <= 0x4_0000_0000_0000,
    ensures
        mul_spec(dist, SCALING_FACTOR * one()) == dist * SCALING_FACTOR,
        -0x8_0000_0000_0000 <= div_spec(
            mul_spec(dist, SCALING_FACTOR * one()),
            MAX_ACCEL * one(),
        ) <= 0x8_0000_0000_0000,
        scaled(dist) == div_spec(mul_spec(dist, SCALING_FACTOR * one()), MAX_ACCEL * one())
            * MAX_MOVEMENT_UNIT,
        -0x400_0000 <= scaled(dist) / one() <= 0x400_0000,
{
    lemma_mul_by_integer(dist, SCALING_FACTOR as int);
    let m = dist * SCALING_FACTOR;
    assert(-0x4_0000_0000_0000 * 5000 <= m <= 0x4_0000_0000_0000 * 5000) by (nonlinear_arith)
        requires
            -0x4_0000_0000_0000 <= dist <= 0x4_0000_0000_0000,
            m == dist * 5000,
    ;
    assert(-(0x8_0000_0000_0000 * (4096 * one())) <= m * one() <= 0x8_0000_0000_0000 * (4096
        * one())) by (nonlinear_arith)
        requires
            -0x4_0000_0000_0000 * 5000 <= m <= 0x4_0000_0000_0000 * 5000,
            one() > 0,
    ;
    lemma_trunc_div_bound(m * one(), MAX_ACCEL * one(), 0x8_0000_0000_0000);
    let q = div_spec(m, MAX_ACCEL * one());
    lemma_mul_by_integer(q, MAX_MOVEMENT_UNIT as int);
    assert(-(0x400_0000 * one()) <= q * 127 <= 0x400_0000 * one()) by (nonlinear_arith)
        requires
            -0x8_0000_0000_0000 <= q <= 0x8_0000_0000_0000,
            one() == 0x1_0000_0000,
    ;
    lemma_floor_div_bound(q * 127, one(), 0x400_0000);
}

/// Converts accelerometer samples to mouse movement and packets.
pub struct MouseConverter {
    /// Last X sample (fixed-point raw bits).
    pub prev_x: i64,
    /// Last Y sample, after the axis sign (fixed-point raw bits).
    pub prev_y: i64,
    /// X velocity (fixed-point raw bits).
    pub prev_velocity_x: i64,
    /// Y velocity (fixed-point raw bits).
    pub prev_velocity_y: i64,
    /// Last X movement.
    pub delta_x: i8,
    /// Last Y movement.
    pub delta_y: i8,
}

impl MouseConverter {
    pub open spec fn view(&self) -> MouseState {
        MouseState {
            prev_x: self.prev_x as int,
            prev_y: self.prev_y as int,
            vel_x: self.prev_velocity_x as int,
            vel_y: self.prev_velocity_y as int,
            delta_x: self.delta_x as int,
            delta_y: self.delta_y as int,
        }
    }

    /// The stored samples are integers of 16-bit range (the Y one negated)
    /// and the movements lie in `[-127, 127]`.
    pub open spec fn wf(&self) -> bool {
        &&& -0x8000 * one() <= self.prev_x <= 0x8000 * one()
        &&& -0x8000 * one() <= self.prev_y <= 0x8000 * one()
        &&& -127 <= self.delta_x <= 127
        &&& -127 <= self.delta_y <= 127
    }

    /// The velocities are small enough for the next update to fit the
    /// fixed-point range.
    pub open spec fn in_range(&self) -> bool {
        &&& -VELOCITY_LIMIT <= self.prev_velocity_x <= VELOCITY_LIMIT
        &&& -VELOCITY_LIMIT <= self.prev_velocity_y <= VELOCITY_LIMIT
    }

    /// Creates a converter at rest: no stored sample, velocity or movement.
    pub fn new() -> (r: Self)
        ensures
            r.wf(),
            r.in_range(),
            r.view() == (MouseState {
                prev_x: 0,
                prev_y: 0,
                vel_x: 0,
                vel_y: 0,
                delta_x: 0,
                delta_y: 0,
            }),
    {
        MouseConverter {
            prev_x: fx_from_int(0),
            prev_y: fx_from_int(0),
            prev_velocity_x: fx_from_int(0),
            prev_velocity_y: fx_from_int(0),
            delta_x: 0,
            delta_y: 0,
        }
    }

    /// Whether an update after `dt` ms is within the conversion's range.
    pub fn can_convert(&self, dt: u32) -> (r: bool)
        ensures
            r == (self.in_range() && dt <= MAX_DT_MS),
    {
        -VELOCITY_LIMIT <= self.prev_velocity_x && self.prev_velocity_x <= VELOCITY_LIMIT
            && -VELOCITY_LIMIT <= self.prev_velocity_y && self.prev_velocity_y <= VELOCITY_LIMIT
            && dt <= MAX_DT_MS
    }

    /// One axis: returns the new velocity and the movement.
    fn integrate_axis(
        prev: i64,
        vel: i64,
        current: i64,
        dt: i64,
        sample: Ghost<int>,
        dt_ms: Ghost<u32>,
    ) -> (r: (i64, i8))
        requires
            -0x8000 * one() <= prev <= 0x8000 * one(),
            -0x8000 <= sample@ <= 0x8000,
            current == sample@ * one(),
            -VELOCITY_LIMIT <= vel <= VELOCITY_LIMIT,
            dt_ms@ <= MAX_DT_MS,
            dt == dt_seconds(dt_ms@),
        ensures
            r.0 == next_velocity(prev as int, vel as int, sample@, dt_ms@),
            r.1 == displacement(prev as int, vel as int, sample@, dt_ms@),
    {
        proof {
            lemma_axis_bounds(prev as int, vel as int, sample@, dt_ms@);
        }
        let accel = current - prev;
        let velocity = vel + fx_mul(accel, dt);
        let dist = fx_mul(velocity, dt) + fx_div_int(fx_mul(accel, fx_mul(dt, dt)), 2);
        proof {
            lemma_scale_bounds(dist as int);
        }
        let scaled_bits = fx_mul(
            fx_div(fx_mul(dist, fx_from_int(SCALING_FACTOR)), fx_from_int(MAX_ACCEL)),
            fx_from_int(MAX_MOVEMENT_UNIT),
        );
        let units = fx_to_i32(scaled_bits);
        let delta: i8 = if units < -127 {
            -127
        } else if units > 127 {
            127
        } else {
            units as i8
        };
        (velocity, delta)
    }

    /// Integrates the sample `(x, y)` taken `dt` ms after the previous one
    /// into the stored velocity and sets the movement of this tick.
    pub fn accel_to_distance(&mut self, current_x: i16, current_y: i16, dt: u32)
        requires
            old(self).wf(),
            old(self).in_range(),
            dt <= MAX_DT_MS,
        ensures
            final(self).wf(),
            final(self).view() == mouse_step(old(self).view(), current_x, current_y, dt),
    {
        let cx = fx_from_int(current_x as i64);
        let sy: i64 = Y_AXIS_DIRECTION * (current_y as i64);
        let cy = fx_from_int(sy);
        let d = fx_div_int(fx_from_int(dt as i64), 1000);
        let (vx, dx) = Self::integrate_axis(self.prev_x, self.prev_velocity_x, cx, d, Ghost(current_x as int), Ghost(dt));
        let (vy, dy) = Self::integrate_axis(self.prev_y, self.prev_velocity_y, cy, d, Ghost(sy as int), Ghost(dt));
        self.prev_x = cx;
        self.prev_y = cy;
        self.prev_velocity_x = vx;
        self.prev_velocity_y = vy;
        self.delta_x = dx;
        self.delta_y = dy;
    }

    /// The packet for the last movement and the given buttons (left, right).
    pub fn construct_packet(&self, buttons: (bool, bool)) -> (p: [u8; 3])
        ensures
            p@ == mouse_packet(self.delta_x, self.delta_y, buttons.0, buttons.1),
    {
        encode_mouse_packet(self.delta_x, self.delta_y, buttons.0, buttons.1)
    }

    /// Integrates the sample `(x, y)` taken `dt` ms after the previous one
    /// and returns the packet for the resulting movement and the buttons.
    pub fn sensor_data_to_packet(&mut self, x: i16, y: i16, dt: u32, buttons: (bool, bool)) -> (p:
        [u8; 3])
        requires
            old(self).wf(),
            old(self).in_range(),
            dt <= MAX_DT_MS,
        ensures
            final(self).wf(),
            final(self).view() == mouse_step(old(self).view(), x, y, dt),
            p@ == mouse_packet(final(self).delta_x, final(self).delta_y, buttons.0, buttons.1),
    {
        self.accel_to_distance(x, y, dt);
        self.construct_packet(buttons)
    }
}

/// The state holds the sample `(x, y)` and no velocity.
pub open spec fn at_rest(s: MouseState, x: i16, y: i16) -> bool {
    &&& s.prev_x == x * one()
    &&& s.prev_y == (Y_AXIS_DIRECTION * y) * one()
    &&& s.vel_x == 0
    &&& s.vel_y == 0
}

/// A tick's inputs: the two samples and the elapsed milliseconds.
pub type Sample = (i16, i16, u32);

/// The state after feeding `ticks` in order, starting from `s`.
pub open spec fn run_mouse(s: MouseState, ticks: Seq<Sample>) -> MouseState
    decreases ticks.len(),
{
    if ticks.len() == 0 {
        s
    } else {
        let t = ticks.last();
        mouse_step(run_mouse(s, ticks.drop_last()), t.0, t.1, t.2)
    }
}

/// At rest, the same sample again moves nothing and stays at rest.
pub proof fn lemma_rest_stays_at_rest(s: MouseState, x: i16, y: i16, dt: u32)
    requires
        at_rest(s, x, y),
    ensures
        at_rest(mouse_step(s, x, y, dt), x, y),
        mouse_step(s, x, y, dt).delta_x == 0,
        mouse_step(s, x, y, dt).delta_y == 0,
{
    let sy = Y_AXIS_DIRECTION * y;
    assert(accel_of(s.prev_x, x as int) == 0);
    assert(accel_of(s.prev_y, sy) == 0);
    let d = dt_seconds(dt);
    assert(mul_spec(0, d) == 0);
    assert(mul_spec(0, mul_spec(d, d)) == 0);
    assert(mul_spec(0, SCALING_FACTOR * one()) == 0);
    assert(div_spec(0, MAX_ACCEL * one()) == 0);
    assert(mul_spec(0, MAX_MOVEMENT_UNIT * one()) == 0);
}

/// No drift: from rest on a sample (a new converter is at rest on zero), a
/// run of ticks that repeat that sample never moves and stays at rest,
/// whatever the tick durations.
pub proof fn lemma_no_drift(s: MouseState, x: i16, y: i16, ticks: Seq<Sample>)
    requires
        at_rest(s, x, y),
        forall|i: int| 0 <= i < ticks.len() ==> ticks[i].0 == x && ticks[i].1 == y,
    ensures
        at_rest(run_mouse(s, ticks), x, y),
        ticks.len() > 0 ==> run_mouse(s, ticks).delta_x == 0 && run_mouse(s, ticks).delta_y == 0,
    decreases ticks.len(),
{
    if ticks.len() > 0 {
        let rest = ticks.drop_last();
        assert forall|i: int| 0 <= i < rest.len() implies rest[i].0 == x && rest[i].1 == y by {
            assert(rest[i] == ticks[i]);
        }
        lemma_no_drift(s, x, y, rest);
        lemma_rest_stays_at_rest(run_mouse(s, rest), x, y, ticks.last().2);
    }
}

/// Saturation: a movement beyond the range is reported as exactly 127 or
/// -127, never wrapped; within the range it is reported as is.
pub proof fn lemma_movement_saturates(prev: int, vel: int, sample: int, dt: u32)
    ensures
        -127 <= displacement(prev, vel, sample, dt) <= 127,
        scaled(distance(prev, vel, sample, dt)) / one() >= 127 ==> displacement(
            prev,
            vel,
            sample,
            dt,
        ) == 127,
        scaled(distance(prev, vel, sample, dt)) / one() <= -127 ==> displacement(
            prev,
            vel,
            sample,
            dt,
        ) == -127,
        -127 <= scaled(distance(prev, vel, sample, dt)) / one() <= 127 ==> displacement(
            prev,
            vel,
            sample,
            dt,
        ) == scaled(distance(prev, vel, sample, dt)) / one(),
{
}

} // verus!
