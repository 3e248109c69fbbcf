use vstd::prelude::*;

verus! {

// Time advances in ticks and lengths are measured in subpixels. A tick is
// chosen so that the frame times of common refresh rates (24, 30, 48, 60, 72,
// 90, 120, 144, 240 Hz) are whole numbers of ticks, and a subpixel so that the
// closed-form update `0.5 * a * dt^2 + v * dt` is exact in integers:
//   - accelerations are in pixels per second squared,
//   - velocities are in 1/TICKS_PER_SECOND pixels per second,
//   - positions are in 1/SUBPIXELS_PER_PIXEL pixels,
// so that, with `dt` in ticks, the displacement in subpixels is
// `a * dt * dt + 2 * v * dt` and the velocity change is `a * dt`.

pub const TICKS_PER_SECOND: i64 = 3600;

/// Twice the square of `TICKS_PER_SECOND`.
pub const SUBPIXELS_PER_PIXEL: i64 = 25_920_000;

pub const HALF_PIXEL: i64 = 12_960_000;

/// The longest frame the physics accepts: a tenth of a second.
pub const MAX_FRAME_TICKS: i64 = 360;

/// Every position handled by the game stays within this many subpixels of the origin.
pub const POSITION_LIMIT: i64 = 1_000_000_000_000_000;

/// Bounds on the sides of the pixel buffer, in pixels. The smallest side holds
/// the padding on both ends and a paddle's length.
pub const MIN_BUFFER_SIDE: i32 = 60;

pub const MAX_BUFFER_SIDE: i32 = 16384;

/// A whole number of pixels as subpixels.
pub open spec fn subpixels(px: int) -> int {
    px * SUBPIXELS_PER_PIXEL
}

/// The side of a buffer that the game accepts.
pub open spec fn side_ok(side: int) -> bool {
    MIN_BUFFER_SIDE <= side <= MAX_BUFFER_SIDE
}

/// `px` pixels as subpixels.
pub fn to_subpixels(px: i32) -> (r: i64)
    requires
        -MAX_BUFFER_SIDE <= px <= MAX_BUFFER_SIDE,
    ensures
        r == subpixels(px as int),
        -425_000_000_000 <= r <= 425_000_000_000,
{
    (px as i64) * SUBPIXELS_PER_PIXEL
}

} // verus!
