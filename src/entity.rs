use vstd::prelude::*;
use rand::rngs::StdRng;
use crate::physics::{accel_ok, BALL_MAX_DDP};
use crate::primitives::{Color, V2};
use crate::random::random_in;
use crate::render::position_ok;
use crate::units::{subpixels, MAX_BUFFER_SIDE, SUBPIXELS_PER_PIXEL};

verus! {

/// One paddle or the ball: a rectangle of `width` by `height` pixels whose
/// top-left corner is at `p`, moving with velocity `dp` and acceleration `ddp`.
#[derive(Clone, Copy, Debug, PartialEq, Eq)]
pub struct Entity {
    pub p: V2,
    pub dp: V2,
    pub ddp: V2,
    pub color: Color,
    pub width: i32,
    pub height: i32,
}

/// The axis along which the ball travels toward a paddle: `Horizontal` for the
/// paddles on the left and right, `Vertical` for those at the top and bottom.
#[derive(Clone, Copy, Debug, PartialEq, Eq)]
pub enum Axis {
    Horizontal,
    Vertical,
}

/// Bounds on the random push a bounce gives to the ball across its path, in
/// pixels per second squared: at least the first, below the second.
pub const BOUNCE_IMPULSE_LOW: i64 = 1;

pub const BOUNCE_IMPULSE_HIGH: i64 = 30_000;

/// Whether one span along an axis, starting at `a` and `a_len` long, has one of
/// its ends within the span starting at `b` and `b_len` long (ends included).
pub open spec fn spans_overlap(a: int, a_len: int, b: int, b_len: int) -> bool {
    (b <= a && a <= b + b_len) || (b <= a + a_len && a + a_len <= b + b_len)
}

pub open spec fn push_capped(a: int, impulse: int) -> int {
    if a + impulse > BALL_MAX_DDP {
        BALL_MAX_DDP as int
    } else {
        a + impulse
    }
}

/// Whether `after` is a ball that `before` may become against `paddle` along
/// `axis`: bounced with some push of the allowed range if it hits, else unchanged.
pub open spec fn collision_outcome(before: Entity, after: Entity, paddle: Entity, axis: Axis) -> bool {
    if before.hits(paddle, axis) {
        exists|impulse: int|
            BOUNCE_IMPULSE_LOW <= impulse < BOUNCE_IMPULSE_HIGH && after == before.bounced(axis, impulse)
    } else {
        after == before
    }
}

impl Entity {
    /// The entity stands at the origin with no velocity or acceleration.
    pub open spec fn at_rest(self) -> bool {
        self.p == (V2 { x: 0, y: 0 }) && self.dp == (V2 { x: 0, y: 0 }) && self.ddp == (V2 { x: 0, y: 0 })
    }

    /// The entity has a size and position the game handles.
    pub open spec fn shape_ok(self) -> bool {
        0 <= self.width <= MAX_BUFFER_SIDE && 0 <= self.height <= MAX_BUFFER_SIDE && position_ok(self.p)
    }

    /// The ball (`self`), heading toward `paddle` along `axis`, lies across the
    /// paddle's span and has reached its near edge.
    pub open spec fn hits(self, paddle: Entity, axis: Axis) -> bool {
        match axis {
            Axis::Horizontal => spans_overlap(
                self.p.y as int,
                subpixels(self.height as int),
                paddle.p.y as int,
                subpixels(paddle.height as int),
            ) && ((self.ddp.x > 0 && self.p.x + subpixels(self.width as int) >= paddle.p.x) || (
            self.ddp.x < 0 && self.p.x <= paddle.p.x + subpixels(paddle.width as int))),
            Axis::Vertical => spans_overlap(
                self.p.x as int,
                subpixels(self.width as int),
                paddle.p.x as int,
                subpixels(paddle.width as int),
            ) && ((self.ddp.y > 0 && self.p.y + subpixels(self.height as int) >= paddle.p.y) || (
            self.ddp.y < 0 && self.p.y <= paddle.p.y + subpixels(paddle.height as int))),
        }
    }

    /// The ball after a bounce along `axis`: the acceleration along the axis is
    /// reversed and `impulse` is added across it, capped at `BALL_MAX_DDP`.
    pub open spec fn bounced(self, axis: Axis, impulse: int) -> Entity {
        match axis {
            Axis::Horizontal => Entity {
                ddp: V2 { x: (-self.ddp.x) as i64, y: push_capped(self.ddp.y as int, impulse) as i64 },
                ..self
            },
            Axis::Vertical => Entity {
                ddp: V2 { x: push_capped(self.ddp.x as int, impulse) as i64, y: (-self.ddp.y) as i64 },
                ..self
            },
        }
    }

    /// Whether the ball (`self`) hits `paddle` along `axis`, as `hits` says.
    pub fn hits_paddle(&self, paddle: &Entity, axis: Axis) -> (r: bool)
        requires
            self.shape_ok(),
            paddle.shape_ok(),
        ensures
            r == self.hits(*paddle, axis),
    {
        let bw = (self.width as i64) * SUBPIXELS_PER_PIXEL;
        let bh = (self.height as i64) * SUBPIXELS_PER_PIXEL;
        let pw = (paddle.width as i64) * SUBPIXELS_PER_PIXEL;
        let ph = (paddle.height as i64) * SUBPIXELS_PER_PIXEL;
        match axis {
            Axis::Horizontal => {
                let across = (self.p.y >= paddle.p.y && self.p.y <= paddle.p.y + ph) || (self.p.y + bh
                    >= paddle.p.y && self.p.y + bh <= paddle.p.y + ph);
                across && ((self.ddp.x > 0 && self.p.x + bw >= paddle.p.x) || (self.ddp.x < 0
                    && self.p.x <= paddle.p.x + pw))
            },
            Axis::Vertical => {
                let across = (self.p.x >= paddle.p.x && self.p.x <= paddle.p.x + pw) || (self.p.x + bw
                    >= paddle.p.x && self.p.x + bw <= paddle.p.x + pw);
                across && ((self.ddp.y > 0 && self.p.y + bh >= paddle.p.y) || (self.ddp.y < 0
                    && self.p.y <= paddle.p.y + ph))
            },
        }
    }

    /// Bounces the ball along `axis`, pushing it across by `impulse`.
    pub fn bounce(&mut self, axis: Axis, impulse: i64)
        requires
            accel_ok(old(self).ddp),
            BOUNCE_IMPULSE_LOW <= impulse < BOUNCE_IMPULSE_HIGH,
        ensures
            *final(self) == old(self).bounced(axis, impulse as int),
            accel_ok(final(self).ddp),
    {
        match axis {
            Axis::Horizontal => {
                let pushed = self.ddp.y + impulse;
                self.ddp.y = if pushed > BALL_MAX_DDP {
                    BALL_MAX_DDP
                } else {
                    pushed
                };
                self.ddp.x = -self.ddp.x;
            },
            Axis::Vertical => {
                let pushed = self.ddp.x + impulse;
                self.ddp.x = if pushed > BALL_MAX_DDP {
                    BALL_MAX_DDP
                } else {
                    pushed
                };
                self.ddp.y = -self.ddp.y;
            },
        }
    }

    /// Bounces the ball (`self`) off `entity` if it hits it along `axis`, with a
    /// push across its path drawn from `rng`.
    pub fn handle_entity_collision(&mut self, entity: &Entity, axis: Axis, rng: &mut StdRng)
        requires
            old(self).shape_ok(),
            entity.shape_ok(),
            accel_ok(old(self).ddp),
        ensures
            collision_outcome(*old(self), *final(self), *entity, axis),
            !old(self).hits(*entity, axis) ==> *final(rng) == *old(rng),
            accel_ok(final(self).ddp),
    {
        if self.hits_paddle(entity, axis) {
            let impulse = random_in(rng, BOUNCE_IMPULSE_LOW, BOUNCE_IMPULSE_HIGH);
            self.bounce(axis, impulse);
        }
    }

    /// An entity at rest at the origin.
    pub fn new(width: i32, height: i32, color: Color) -> (e: Entity)
        ensures
            e.p == (V2 { x: 0, y: 0 }),
            e.dp == (V2 { x: 0, y: 0 }),
            e.ddp == (V2 { x: 0, y: 0 }),
            e.color == color,
            e.width == width,
            e.height == height,
    {
        Entity {
            p: V2 { x: 0, y: 0 },
            dp: V2 { x: 0, y: 0 },
            ddp: V2 { x: 0, y: 0 },
            color,
            width,
            height,
        }
    }
}

} // verus!
