use vstd::prelude::*;
use crate::primitives::V2;
use crate::units::{MAX_FRAME_TICKS, POSITION_LIMIT, TICKS_PER_SECOND};

verus! {

/// Acceleration a paddle gets from the player's intent, in pixels per second squared.
pub const PLAYER_SPEED: i64 = 3000;

/// The linear drag on the paddles: each pixel per second of velocity takes this
/// many pixels per second squared off their acceleration.
pub const DRAG_COEFFICIENT: i64 = 7;

/// No paddle moves faster than this (430 pixels per second, in velocity units).
pub const PADDLE_SPEED_LIMIT: i64 = 1_548_000;

/// No acceleration of the ball has a component beyond this, in pixels per second squared.
pub const BALL_MAX_DDP: i64 = 1_000_000_000;

/// Nor does a component of the ball's acceleration fall below this, once the
/// ball has moved.
pub const BALL_MIN_DDP: i64 = 30_000;

/// Bound on the displacement of anything in one frame, in subpixels.
pub const MAX_DELTA: i64 = 200_000_000_000_000;

pub open spec fn abs(x: int) -> int {
    if x < 0 {
        -x
    } else {
        x
    }
}

/// The displacement, in subpixels, of a body with acceleration `a` and
/// velocity `v` over `dt` ticks: `0.5 * a * dt^2 + v * dt` in the game's units.
pub open spec fn displacement(a: int, v: int, dt: int) -> int {
    a * dt * dt + 2 * v * dt
}

/// An acceleration the physics handles.
pub open spec fn accel_ok(a: V2) -> bool {
    abs(a.x as int) <= BALL_MAX_DDP && abs(a.y as int) <= BALL_MAX_DDP
}

/// A velocity the physics handles.
pub open spec fn speed_ok(v: V2) -> bool {
    abs(v.x as int) <= PADDLE_SPEED_LIMIT && abs(v.y as int) <= PADDLE_SPEED_LIMIT
}

pub open spec fn frame_ok(dt: int) -> bool {
    0 <= dt <= MAX_FRAME_TICKS
}

proof fn lemma_displacement_bound(a: int, v: int, dt: int)
    requires
        abs(a) <= BALL_MAX_DDP,
        abs(v) <= PADDLE_SPEED_LIMIT,
        frame_ok(dt),
    ensures
        0 <= dt * dt <= 129_600,
        abs(a * (dt * dt)) <= 129_600_000_000_000,
        abs(v * (2 * dt)) <= 1_114_560_000,
        a * (dt * dt) + v * (2 * dt) == displacement(a, v, dt),
        abs(displacement(a, v, dt)) <= MAX_DELTA,
{
    assert(0 <= dt * dt <= 129_600) by (nonlinear_arith)
        requires
            0 <= dt <= 360,
    ;
    assert(abs(a * (dt * dt)) <= 129_600_000_000_000) by (nonlinear_arith)
        requires
            -1_000_000_000 <= a <= 1_000_000_000,
            0 <= dt * dt <= 129_600,
    ;
    assert(abs(v * (2 * dt)) <= 1_114_560_000) by (nonlinear_arith)
        requires
            -1_548_000 <= v <= 1_548_000,
            0 <= dt <= 360,
    ;
    assert(a * (dt * dt) + v * (2 * dt) == displacement(a, v, dt)) by (nonlinear_arith);
}

/// The displacement of a body over one frame of `dt` ticks; a body at rest
/// with no acceleration does not move.
pub fn kinematic_delta(a: V2, v: V2, dt: i64) -> (d: V2)
    requires
        accel_ok(a),
        speed_ok(v),
        frame_ok(dt as int),
    ensures
        d.x == displacement(a.x as int, v.x as int, dt as int),
        d.y == displacement(a.y as int, v.y as int, dt as int),
        abs(d.x as int) <= MAX_DELTA,
        abs(d.y as int) <= MAX_DELTA,
        a.x == 0 && a.y == 0 && v.x == 0 && v.y == 0 ==> d.x == 0 && d.y == 0,
{
    proof {
        lemma_displacement_bound(a.x as int, v.x as int, dt as int);
        lemma_displacement_bound(a.y as int, v.y as int, dt as int);
    }
    a.mul(dt * dt).add(v.mul(2 * dt))
}

/// The drag on a paddle moving at `v`: `DRAG_COEFFICIENT` times the velocity in
/// pixels per second, against it, rounded toward zero.
pub open spec fn drag_of(v: int) -> int {
    if v >= 0 {
        -((DRAG_COEFFICIENT * v) / TICKS_PER_SECOND as int)
    } else {
        (DRAG_COEFFICIENT * -v) / TICKS_PER_SECOND as int
    }
}

/// The acceleration of a paddle moving at `v` whose player pushes it in
/// direction `dir` (-1, 0 or 1).
pub open spec fn paddle_accel(dir: int, v: int) -> int {
    PLAYER_SPEED * dir + drag_of(v)
}

pub fn drag(v: i64) -> (r: i64)
    requires
        abs(v as int) <= PADDLE_SPEED_LIMIT,
    ensures
        r == drag_of(v as int),
        abs(r as int) <= 3010,
{
    if v >= 0 {
        -((DRAG_COEFFICIENT * v) / TICKS_PER_SECOND)
    } else {
        (DRAG_COEFFICIENT * -v) / TICKS_PER_SECOND
    }
}

/// Drag keeps a paddle's velocity under `PADDLE_SPEED_LIMIT` for frames of up
/// to `MAX_FRAME_TICKS`.
pub proof fn lemma_paddle_speed_bounded(dir: int, v: int, dt: int)
    requires
        -1 <= dir <= 1,
        abs(v) <= PADDLE_SPEED_LIMIT,
        frame_ok(dt),
    ensures
        abs(v + paddle_accel(dir, v) * dt) <= PADDLE_SPEED_LIMIT,
{
    let q = (7 * abs(v)) / 3600;
    assert(3600 * q <= 7 * abs(v) < 3600 * q + 3600);
    assert(abs(v) - q * dt + 3000 * dt <= PADDLE_SPEED_LIMIT && abs(v) - q * dt - 3000 * dt >= -PADDLE_SPEED_LIMIT) by (nonlinear_arith)
        requires
            0 <= abs(v) <= 1_548_000,
            3600 * q <= 7 * abs(v) < 3600 * q + 3600,
            0 <= dt <= 360,
    {
        assert(3600 * q * dt >= (7 * abs(v) - 3599) * dt);
        assert(3600 * q * dt <= 7 * abs(v) * dt);
        assert(abs(v) * (3600 - 7 * dt) <= 1_548_000 * (3600 - 7 * dt));
    }
    let t = dir * dt;
    assert(-dt <= t <= dt) by (nonlinear_arith)
        requires
            -1 <= dir <= 1,
            0 <= dt,
            t == dir * dt,
    ;
    let next = v + paddle_accel(dir, v) * dt;
    if v >= 0 {
        assert(drag_of(v) == -q);
        assert(next == v - q * dt + 3000 * t) by (nonlinear_arith)
            requires
                drag_of(v) == -q,
                paddle_accel(dir, v) == 3000 * dir + drag_of(v),
                next == v + paddle_accel(dir, v) * dt,
                t == dir * dt,
        ;
    } else {
        assert(drag_of(v) == q);
        assert(next == -(abs(v) - q * dt) + 3000 * t) by (nonlinear_arith)
            requires
                drag_of(v) == q,
                abs(v) == -v,
                paddle_accel(dir, v) == 3000 * dir + drag_of(v),
                next == v + paddle_accel(dir, v) * dt,
                t == dir * dt,
        ;
    }
}

/// A displacement cut to four fifths, rounded toward zero.
pub open spec fn shrink(d: int) -> int {
    if d >= 0 {
        d * 4 / 5
    } else {
        -((-d * 4) / 5)
    }
}

/// Where a paddle at `p` ends up when it tries to move by `d` inside the open
/// interval (`lo`, `hi`): the move is taken if it lands inside, else it is
/// shrunk and tried again, at most `tries` times in all; if no try lands
/// inside, the paddle stays where it is.
pub open spec fn slide(p: int, d: int, lo: int, hi: int, tries: nat) -> int
    decreases tries,
{
    if tries == 0 {
        p
    } else if lo < p + d < hi {
        p + d
    } else {
        slide(p, shrink(d), lo, hi, (tries - 1) as nat)
    }
}

/// A paddle that starts within [`lo`, `hi`] stays there.
pub proof fn lemma_slide_stays_in_bounds(p: int, d: int, lo: int, hi: int, tries: nat)
    requires
        lo <= p <= hi,
    ensures
        lo <= slide(p, d, lo, hi, tries) <= hi,
    decreases tries,
{
    if tries > 0 {
        lemma_slide_stays_in_bounds(p, shrink(d), lo, hi, (tries - 1) as nat);
    }
}

/// How many times a paddle tries to move before it gives up for the frame.
pub const COLLISION_TRIES: u32 = 5;

/// Moves a paddle coordinate `p` by up to `d` within (`lo`, `hi`), as `slide` says.
pub fn slide_paddle(p: i64, d: i64, lo: i64, hi: i64) -> (r: i64)
    requires
        abs(p as int) <= POSITION_LIMIT,
        abs(d as int) <= MAX_DELTA,
    ensures
        r == slide(p as int, d as int, lo as int, hi as int, COLLISION_TRIES as nat),
{
    let mut delta = d;
    let mut target = p + delta;
    let mut i: u32 = 0;
    while i < COLLISION_TRIES
        invariant
            0 <= i <= COLLISION_TRIES,
            abs(delta as int) <= MAX_DELTA,
            target == p + delta,
            slide(p as int, d as int, lo as int, hi as int, COLLISION_TRIES as nat)
                == slide(p as int, delta as int, lo as int, hi as int, (COLLISION_TRIES - i) as nat),
        decreases COLLISION_TRIES - i,
    {
        if lo < target && target < hi {
            return target;
        }
        delta = if delta >= 0 {
            delta * 4 / 5
        } else {
            -((-delta * 4) / 5)
        };
        target = p + delta;
        i = i + 1;
    }
    p
}

/// The floor on the ball's acceleration along one axis: a component smaller
/// than `BALL_MIN_DDP` in magnitude becomes `BALL_MIN_DDP` with its sign (zero
/// counts as negative).
pub open spec fn floor_accel(a: int) -> int {
    if abs(a) < BALL_MIN_DDP {
        if a > 0 {
            BALL_MIN_DDP as int
        } else {
            -BALL_MIN_DDP
        }
    } else {
        a
    }
}

pub fn enforce_floor(a: i64) -> (r: i64)
    ensures
        r == floor_accel(a as int),
{
    if a > -BALL_MIN_DDP && a < BALL_MIN_DDP {
        if a > 0 {
            BALL_MIN_DDP
        } else {
            -BALL_MIN_DDP
        }
    } else {
        a
    }
}

} // verus!
