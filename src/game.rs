use vstd::prelude::*;
use rand::rngs::StdRng;
use crate::entity::{collision_outcome, Axis, Entity};
use crate::input::GameInput;
use crate::physics::{
    abs, accel_ok, displacement, drag, enforce_floor, floor_accel, frame_ok, kinematic_delta,
    lemma_paddle_speed_bounded, lemma_slide_stays_in_bounds, paddle_accel, slide, slide_paddle,
    speed_ok, BALL_MIN_DDP, COLLISION_TRIES, MAX_DELTA, PLAYER_SPEED,
};
use crate::primitives::{Color, V2};
use crate::random::random_in;
use crate::render::{
    clear_buffer, clear_dirty_rects, draw_entities, draw_entity, draw_rectangle, frame,
    background, clear_rects, lemma_clear_background, lemma_dirty_redraw_matches_full_redraw, lemma_paint_everything,
    position_ok, rects_of, solid, OffscreenBuffer, RectForClear,
};
use crate::units::{side_ok, subpixels, to_subpixels, HALF_PIXEL, MAX_FRAME_TICKS, POSITION_LIMIT};

verus! {

pub const ENTITY_X_PADDING: i32 = 10;

pub const ENTITY_Y_PADDING: i32 = 10;

pub const BALL_SIZE: i32 = 10;

/// The thickness of a paddle.
pub const PLAYER_WIDTH: i32 = 8;

/// The length of a paddle.
pub const PADDLE_LENGTH: i32 = PLAYER_WIDTH * 5;

/// A new round draws each component of the ball's acceleration from
/// `-BALL_START_DDP..BALL_START_DDP`.
pub const BALL_START_DDP: i64 = 50_000;

/// How long the death scene lasts: three seconds.
pub const DEATH_PAUSE_TICKS: i64 = 10_800;

/// The paddles (left, right, bottom, top), the ball, and the rectangles drawn
/// in the last frame.
pub struct GameMemory {
    pub l_entity: Entity,
    pub r_entity: Entity,
    pub b_entity: Entity,
    pub t_entity: Entity,
    pub ball: Entity,
    pub is_initialized: bool,
    pub rects_to_clear: Vec<RectForClear>,
}

/// The lowest coordinate a paddle takes along the axis it moves on, in subpixels.
pub open spec fn lane_low(padding: int) -> int {
    subpixels(padding)
}

/// The highest coordinate a paddle of `length` pixels takes along an axis of
/// `bound` pixels, in subpixels.
pub open spec fn lane_high(bound: int, padding: int, length: int) -> int {
    subpixels(bound - padding - length)
}

/// Where a new round places the paddles along the axis they move on: centred,
/// in whole pixels.
pub open spec fn centred(bound: int) -> int {
    subpixels(bound / 2 - PADDLE_LENGTH / 2)
}

/// An acceleration a new round may give the ball.
pub open spec fn start_ddp_ok(ddp: V2) -> bool {
    -BALL_START_DDP <= ddp.x < BALL_START_DDP && -BALL_START_DDP <= ddp.y < BALL_START_DDP
}

impl GameMemory {
    /// The memory at the start of a round in a play-field of `width` by
    /// `height` pixels whose ball gets acceleration `ddp`: the paddles are
    /// centred at their padded edges and the ball is at the centre; velocities
    /// and the recorded rectangles are kept.
    pub open spec fn restarted(self, width: int, height: int, ddp: V2) -> GameMemory {
        GameMemory {
            l_entity: Entity {
                p: V2 { x: subpixels(ENTITY_X_PADDING as int) as i64, y: centred(height) as i64 },
                ..self.l_entity
            },
            r_entity: Entity {
                p: V2 { x: subpixels(width - ENTITY_X_PADDING - PLAYER_WIDTH) as i64, y: centred(height) as i64 },
                ..self.r_entity
            },
            b_entity: Entity {
                p: V2 { x: centred(width) as i64, y: subpixels(height - ENTITY_Y_PADDING - PLAYER_WIDTH) as i64 },
                ..self.b_entity
            },
            t_entity: Entity {
                p: V2 { x: centred(width) as i64, y: subpixels(ENTITY_Y_PADDING as int) as i64 },
                ..self.t_entity
            },
            ball: Entity { p: V2 { x: (width * HALF_PIXEL) as i64, y: (height * HALF_PIXEL) as i64 }, ddp, ..self.ball },
            is_initialized: true,
            ..self
        }
    }

    /// What a frame draws, in order.
    pub open spec fn scene(&self) -> Seq<Entity> {
        seq![self.l_entity, self.r_entity, self.t_entity, self.b_entity, self.ball]
    }

    pub open spec fn sizes_ok(&self) -> bool {
        &&& self.l_entity.width == PLAYER_WIDTH && self.l_entity.height == PADDLE_LENGTH
        &&& self.r_entity.width == PLAYER_WIDTH && self.r_entity.height == PADDLE_LENGTH
        &&& self.t_entity.width == PADDLE_LENGTH && self.t_entity.height == PLAYER_WIDTH
        &&& self.b_entity.width == PADDLE_LENGTH && self.b_entity.height == PLAYER_WIDTH
        &&& self.ball.width == BALL_SIZE && self.ball.height == BALL_SIZE
    }

    /// The left and right paddles move together, and so do the top and bottom ones.
    pub open spec fn mirrored(&self) -> bool {
        &&& self.l_entity.p.y == self.r_entity.p.y
        &&& self.l_entity.dp.y == self.r_entity.dp.y
        &&& self.t_entity.p.x == self.b_entity.p.x
        &&& self.t_entity.dp.x == self.b_entity.dp.x
    }

    /// Each paddle lies within the padded play-field on the axis it moves on.
    pub open spec fn paddles_in_bounds(&self, width: int, height: int) -> bool {
        let y_lo = lane_low(ENTITY_Y_PADDING as int);
        let y_hi = lane_high(height, ENTITY_Y_PADDING as int, PADDLE_LENGTH as int);
        let x_lo = lane_low(ENTITY_X_PADDING as int);
        let x_hi = lane_high(width, ENTITY_X_PADDING as int, PADDLE_LENGTH as int);
        &&& y_lo <= self.l_entity.p.y <= y_hi
        &&& y_lo <= self.r_entity.p.y <= y_hi
        &&& x_lo <= self.t_entity.p.x <= x_hi
        &&& x_lo <= self.b_entity.p.x <= x_hi
    }

    /// Each paddle sits at its padded edge of the play-field.
    pub open spec fn layout_ok(&self, width: int, height: int) -> bool {
        &&& self.l_entity.p.x == subpixels(ENTITY_X_PADDING as int)
        &&& self.r_entity.p.x == subpixels(width - ENTITY_X_PADDING - PLAYER_WIDTH)
        &&& self.t_entity.p.y == subpixels(ENTITY_Y_PADDING as int)
        &&& self.b_entity.p.y == subpixels(height - ENTITY_Y_PADDING - PLAYER_WIDTH)
    }

    /// The ball has left the box that the four paddles span.
    pub open spec fn escaped(&self) -> bool {
        ||| self.ball.p.x < self.l_entity.p.x
        ||| self.ball.p.x + subpixels(self.ball.width as int) > self.r_entity.p.x + subpixels(
            self.r_entity.width as int,
        )
        ||| self.ball.p.y < self.t_entity.p.y
        ||| self.ball.p.y + subpixels(self.ball.height as int) > self.b_entity.p.y + subpixels(
            self.b_entity.height as int,
        )
    }

    pub open spec fn wf(&self, width: int, height: int) -> bool {
        &&& self.sizes_ok()
        &&& self.mirrored()
        &&& forall|k: int| 0 <= k < 5 ==> (#[trigger] self.scene()[k]).shape_ok() && speed_ok(self.scene()[k].dp)
        &&& accel_ok(self.ball.ddp)
        &&& self.is_initialized ==> self.layout_ok(width, height) && self.paddles_in_bounds(width, height)
        &&& forall|k: int| 0 <= k < self.rects_to_clear.len() ==> (#[trigger] self.rects_to_clear[k]).fits(width, height)
    }

    /// Fresh paddles and ball, not yet placed.
    pub fn new() -> (m: GameMemory)
        ensures
            !m.is_initialized,
            m.rects_to_clear@.len() == 0,
            m.sizes_ok(),
            forall|width: int, height: int| side_ok(width) && side_ok(height) ==> #[trigger] m.wf(width, height),
            m.l_entity.color == Color::baby_pink() && m.r_entity.color == Color::baby_pink(),
            m.t_entity.color == Color::neon_yellow() && m.b_entity.color == Color::neon_yellow(),
            m.ball.color == Color::neon_mint(),
            forall|k: int| 0 <= k < 5 ==> (#[trigger] m.scene()[k]).at_rest(),
    {
        let m = GameMemory {
            l_entity: Entity::new(PLAYER_WIDTH, PADDLE_LENGTH, Color::baby_pink()),
            r_entity: Entity::new(PLAYER_WIDTH, PADDLE_LENGTH, Color::baby_pink()),
            b_entity: Entity::new(PADDLE_LENGTH, PLAYER_WIDTH, Color::neon_yellow()),
            t_entity: Entity::new(PADDLE_LENGTH, PLAYER_WIDTH, Color::neon_yellow()),
            ball: Entity::new(BALL_SIZE, BALL_SIZE, Color::neon_mint()),
            is_initialized: false,
            rects_to_clear: Vec::new(),
        };
        assert forall|width: int, height: int| side_ok(width) && side_ok(height) implies #[trigger] m.wf(width, height) by {
            lemma_scene(m);
        }
        m
    }

    /// Starts a round in a play-field of `width` by `height` pixels: the paddles
    /// are centred at their padded edges, the ball is put at the centre, and
    /// each component of its acceleration is drawn from `rng`.
    pub fn start_round(&mut self, width: i32, height: i32, rng: &mut StdRng)
        requires
            side_ok(width as int),
            side_ok(height as int),
            old(self).wf(width as int, height as int),
        ensures
            final(self).wf(width as int, height as int),
            final(self).is_initialized,
            final(self).layout_ok(width as int, height as int),
            *final(self) == old(self).restarted(width as int, height as int, final(self).ball.ddp),
            start_ddp_ok(final(self).ball.ddp),
            !final(self).escaped(),
    {
        let pad_x = to_subpixels(ENTITY_X_PADDING);
        let pad_y = to_subpixels(ENTITY_Y_PADDING);
        let mid_y = to_subpixels(height / 2 - PADDLE_LENGTH / 2);
        let mid_x = to_subpixels(width / 2 - PADDLE_LENGTH / 2);
        self.l_entity.p.x = pad_x;
        self.l_entity.p.y = mid_y;
        self.r_entity.p.x = to_subpixels(width - ENTITY_X_PADDING - self.r_entity.width);
        self.r_entity.p.y = mid_y;
        self.b_entity.p.x = mid_x;
        self.b_entity.p.y = to_subpixels(height - ENTITY_Y_PADDING - self.b_entity.height);
        self.t_entity.p.x = mid_x;
        self.t_entity.p.y = pad_y;
        self.ball.p.x = (width as i64) * HALF_PIXEL;
        self.ball.p.y = (height as i64) * HALF_PIXEL;
        let ddp_x = random_in(rng, -BALL_START_DDP, BALL_START_DDP);
        let ddp_y = random_in(rng, -BALL_START_DDP, BALL_START_DDP);
        self.ball.ddp = V2 { x: ddp_x, y: ddp_y };
        self.is_initialized = true;
        proof {
            lemma_scene(*self);
        }
        assert forall|k: int| 0 <= k < 5 implies (#[trigger] self.scene()[k]).shape_ok() && speed_ok(self.scene()[k].dp) by {
            assert(old(self).scene()[k].shape_ok() && speed_ok(old(self).scene()[k].dp));
        }
    }
}

/// Whether the ball heads along `axis` toward increasing (`forward`) or
/// decreasing coordinates.
pub open spec fn heading(ball: Entity, axis: Axis, forward: bool) -> bool {
    let a = match axis {
        Axis::Horizontal => ball.ddp.x,
        Axis::Vertical => ball.ddp.y,
    };
    if forward {
        a > 0
    } else {
        a < 0
    }
}

/// One stage of the ball's collisions: against `paddle` if the ball heads
/// toward it, else none. The generator goes from `g0` to `g1`, and is left
/// as it was unless the ball hits.
pub open spec fn collision_stage(
    before: Entity,
    after: Entity,
    g0: StdRng,
    g1: StdRng,
    paddle: Entity,
    axis: Axis,
    forward: bool,
) -> bool {
    if heading(before, axis, forward) {
        collision_outcome(before, after, paddle, axis) && (!before.hits(paddle, axis) ==> g1 == g0)
    } else {
        after == before && g1 == g0
    }
}

/// The ball `before` may become `after`, and the generator go from `g0` to
/// `g1`, by the collisions of one frame with the paddles on the `left`,
/// `right`, `bottom` and `top`: the ball is checked against the right paddle
/// if it heads right, then against the left one if it (now) heads left, then
/// against the bottom one if it heads down, and last against the top one if
/// it heads up.
pub open spec fn collisions(
    before: Entity,
    after: Entity,
    g0: StdRng,
    g1: StdRng,
    left: Entity,
    right: Entity,
    bottom: Entity,
    top: Entity,
) -> bool {
    exists|b1: Entity, b2: Entity, b3: Entity, h1: StdRng, h2: StdRng, h3: StdRng|
        collision_stage(before, b1, g0, h1, right, Axis::Horizontal, true)
            && #[trigger] collision_stage(b1, b2, h1, h2, left, Axis::Horizontal, false)
            && #[trigger] collision_stage(b2, b3, h2, h3, bottom, Axis::Vertical, true)
            && collision_stage(b3, after, h3, g1, top, Axis::Vertical, false)
}

/// Whether `f` is what one frame of play with `input` may make of `s` in a
/// play-field of `width` by `height` pixels, leaving the recorded rectangles
/// aside: the paddles move, the ball moves and takes the frame time as its
/// velocity, it bounces off the paddles it hits (with pushes that chance
/// decides, taking the generator from `g0` to `g1`), and its acceleration is
/// raised to the floor.
pub open spec fn frame_result(
    s: GameMemory,
    f: GameMemory,
    input: GameInput,
    width: int,
    height: int,
    g0: StdRng,
    g1: StdRng,
) -> bool {
    let dt = input.dt_for_frame as int;
    let moved = s.with_paddles(
        s.paddle_y_after(input, height),
        s.paddle_vy_after(input),
        s.paddle_x_after(input, width),
        s.paddle_vx_after(input),
    );
    let flying = moved.with_ball(
        V2 {
            x: (s.ball.p.x + displacement(s.ball.ddp.x as int, s.ball.dp.x as int, dt)) as i64,
            y: (s.ball.p.y + displacement(s.ball.ddp.y as int, s.ball.dp.y as int, dt)) as i64,
        },
        V2 { x: dt as i64, y: dt as i64 },
        s.ball.ddp,
    );
    exists|bounced: Entity|
        #[trigger] collisions(flying.ball, bounced, g0, g1, flying.l_entity, flying.r_entity, flying.b_entity, flying.t_entity)
            && f == (GameMemory {
                rects_to_clear: f.rects_to_clear,
                ..flying.with_ball(
                    flying.ball.p,
                    flying.ball.dp,
                    V2 { x: floor_accel(bounced.ddp.x as int) as i64, y: floor_accel(bounced.ddp.y as int) as i64 },
                )
            })
}

impl GameMemory {
    /// Where the left and right paddles end up after one frame of `input`.
    pub open spec fn paddle_y_after(&self, input: GameInput, height: int) -> int {
        slide(
            self.l_entity.p.y as int,
            displacement(
                paddle_accel(input.dir_y(), self.l_entity.dp.y as int),
                self.r_entity.dp.y as int,
                input.dt_for_frame as int,
            ),
            lane_low(ENTITY_Y_PADDING as int),
            lane_high(height, ENTITY_Y_PADDING as int, PADDLE_LENGTH as int),
            COLLISION_TRIES as nat,
        )
    }

    /// Where the top and bottom paddles end up after one frame of `input`.
    pub open spec fn paddle_x_after(&self, input: GameInput, width: int) -> int {
        slide(
            self.b_entity.p.x as int,
            displacement(
                paddle_accel(input.dir_x(), self.t_entity.dp.x as int),
                self.t_entity.dp.x as int,
                input.dt_for_frame as int,
            ),
            lane_low(ENTITY_X_PADDING as int),
            lane_high(width, ENTITY_X_PADDING as int, PADDLE_LENGTH as int),
            COLLISION_TRIES as nat,
        )
    }

    /// The vertical velocity of the left and right paddles after one frame of `input`.
    pub open spec fn paddle_vy_after(&self, input: GameInput) -> int {
        self.r_entity.dp.y + paddle_accel(input.dir_y(), self.l_entity.dp.y as int) * input.dt_for_frame
    }

    /// The horizontal velocity of the top and bottom paddles after one frame of `input`.
    pub open spec fn paddle_vx_after(&self, input: GameInput) -> int {
        self.t_entity.dp.x + paddle_accel(input.dir_x(), self.t_entity.dp.x as int) * input.dt_for_frame
    }

    /// The memory with the left and right paddles at `y` moving at `vy`, and
    /// the top and bottom ones at `x` moving at `vx`.
    pub open spec fn with_paddles(self, y: int, vy: int, x: int, vx: int) -> GameMemory {
        GameMemory {
            l_entity: Entity {
                p: V2 { y: y as i64, ..self.l_entity.p },
                dp: V2 { y: vy as i64, ..self.l_entity.dp },
                ..self.l_entity
            },
            r_entity: Entity {
                p: V2 { y: y as i64, ..self.r_entity.p },
                dp: V2 { y: vy as i64, ..self.r_entity.dp },
                ..self.r_entity
            },
            t_entity: Entity {
                p: V2 { x: x as i64, ..self.t_entity.p },
                dp: V2 { x: vx as i64, ..self.t_entity.dp },
                ..self.t_entity
            },
            b_entity: Entity {
                p: V2 { x: x as i64, ..self.b_entity.p },
                dp: V2 { x: vx as i64, ..self.b_entity.dp },
                ..self.b_entity
            },
            ..self
        }
    }

    /// The memory with the ball at `p` moving at `dp` with acceleration `ddp`.
    pub open spec fn with_ball(self, p: V2, dp: V2, ddp: V2) -> GameMemory {
        GameMemory { ball: Entity { p, dp, ddp, ..self.ball }, ..self }
    }

    /// Moves the paddles for one frame of `input`: the player's intent and the
    /// drag give an acceleration, the paddles slide within the play-field as
    /// far as `slide` lets them, and their velocity is updated; mirrored
    /// paddles move together.
    pub fn move_paddles(&mut self, input: &GameInput, width: i32, height: i32)
        requires
            side_ok(width as int),
            side_ok(height as int),
            old(self).wf(width as int, height as int),
            old(self).is_initialized,
            frame_ok(input.dt_for_frame as int),
        ensures
            *final(self) == old(self).with_paddles(
                old(self).paddle_y_after(*input, height as int),
                old(self).paddle_vy_after(*input),
                old(self).paddle_x_after(*input, width as int),
                old(self).paddle_vx_after(*input),
            ),
            final(self).l_entity.p.y == old(self).paddle_y_after(*input, height as int),
            final(self).t_entity.p.x == old(self).paddle_x_after(*input, width as int),
            final(self).wf(width as int, height as int),
            final(self).paddles_in_bounds(width as int, height as int),
    {
        let dt = input.dt_for_frame;
        proof {
            lemma_scene(*self);
            assert(speed_ok(self.scene()[0].dp) && speed_ok(self.scene()[2].dp));
        }
        let mut ddp = V2 { x: 0, y: 0 };
        if input.keyboard.buttons.move_up.ended_down {
            ddp.y = -1;
        }
        if input.keyboard.buttons.move_down.ended_down {
            ddp.y = 1;
        }
        if input.keyboard.buttons.move_left.ended_down {
            ddp.x = -1;
        }
        if input.keyboard.buttons.move_right.ended_down {
            ddp.x = 1;
        }
        ddp.mul_assign(PLAYER_SPEED);
        ddp.y = ddp.y + drag(self.l_entity.dp.y);
        ddp.x = ddp.x + drag(self.t_entity.dp.x);
        assert(ddp.y == paddle_accel(input.dir_y(), self.l_entity.dp.y as int));
        assert(ddp.x == paddle_accel(input.dir_x(), self.t_entity.dp.x as int));
        proof {
            lemma_scene(*self);
            lemma_paddle_speed_bounded(input.dir_y(), self.l_entity.dp.y as int, dt as int);
            lemma_paddle_speed_bounded(input.dir_x(), self.t_entity.dp.x as int, dt as int);
        }
        let delta = kinematic_delta(ddp, V2 { x: self.t_entity.dp.x, y: self.r_entity.dp.y }, dt);
        let y_lo = to_subpixels(ENTITY_Y_PADDING);
        let y_hi = to_subpixels(height - ENTITY_Y_PADDING - self.l_entity.height);
        let y = slide_paddle(self.l_entity.p.y, delta.y, y_lo, y_hi);
        let x_lo = to_subpixels(ENTITY_X_PADDING);
        let x_hi = to_subpixels(width - ENTITY_X_PADDING - self.b_entity.width);
        let x = slide_paddle(self.b_entity.p.x, delta.x, x_lo, x_hi);
        proof {
            lemma_slide_stays_in_bounds(self.l_entity.p.y as int, delta.y as int, y_lo as int, y_hi as int, COLLISION_TRIES as nat);
            lemma_slide_stays_in_bounds(self.b_entity.p.x as int, delta.x as int, x_lo as int, x_hi as int, COLLISION_TRIES as nat);
        }
        self.r_entity.p.y = y;
        self.l_entity.p.y = y;
        self.t_entity.p.x = x;
        self.b_entity.p.x = x;
        self.r_entity.dp.y = ddp.y * dt + self.r_entity.dp.y;
        self.l_entity.dp.y = self.r_entity.dp.y;
        self.t_entity.dp.x = ddp.x * dt + self.t_entity.dp.x;
        self.b_entity.dp.x = self.t_entity.dp.x;
        proof {
            lemma_scene(*self);
        }
    }

    /// Moves the ball for a frame of `dt` ticks. Its velocity then becomes one
    /// pixel per second scaled by the frame time, `dt` in velocity units.
    pub fn move_ball(&mut self, dt: i64)
        requires
            abs(old(self).ball.p.x as int) <= POSITION_LIMIT - MAX_DELTA,
            abs(old(self).ball.p.y as int) <= POSITION_LIMIT - MAX_DELTA,
            accel_ok(old(self).ball.ddp),
            speed_ok(old(self).ball.dp),
            frame_ok(dt as int),
        ensures
            *final(self) == old(self).with_ball(
                V2 {
                    x: (old(self).ball.p.x + displacement(old(self).ball.ddp.x as int, old(self).ball.dp.x as int, dt as int)) as i64,
                    y: (old(self).ball.p.y + displacement(old(self).ball.ddp.y as int, old(self).ball.dp.y as int, dt as int)) as i64,
                },
                V2 { x: dt, y: dt },
                old(self).ball.ddp,
            ),
            final(self).ball.p.x == old(self).ball.p.x + displacement(old(self).ball.ddp.x as int, old(self).ball.dp.x as int, dt as int),
            final(self).ball.p.y == old(self).ball.p.y + displacement(old(self).ball.ddp.y as int, old(self).ball.dp.y as int, dt as int),
            position_ok(final(self).ball.p),
            speed_ok(final(self).ball.dp),
    {
        let ball_delta = kinematic_delta(self.ball.ddp, self.ball.dp, dt);
        self.ball.p.add_assign(ball_delta);
        self.ball.dp.y = dt;
        self.ball.dp.x = dt;
    }

    /// Bounces the ball off each paddle it hits, checking the right, left,
    /// bottom and top paddles in turn; only the ball's acceleration changes.
    pub fn resolve_ball_collisions(&mut self, rng: &mut StdRng)
        requires
            forall|k: int| 0 <= k < 5 ==> (#[trigger] old(self).scene()[k]).shape_ok(),
            accel_ok(old(self).ball.ddp),
        ensures
            *final(self) == old(self).with_ball(old(self).ball.p, old(self).ball.dp, final(self).ball.ddp),
            accel_ok(final(self).ball.ddp),
            collisions(
                old(self).ball,
                final(self).ball,
                *old(rng),
                *final(rng),
                old(self).l_entity,
                old(self).r_entity,
                old(self).b_entity,
                old(self).t_entity,
            ),
    {
        proof {
            lemma_scene(*self);
        }
        if self.ball.ddp.x > 0 {
            self.ball.handle_entity_collision(&self.r_entity, Axis::Horizontal, rng);
        }
        let ghost b1 = self.ball;
        let ghost h1 = *rng;
        if self.ball.ddp.x < 0 {
            self.ball.handle_entity_collision(&self.l_entity, Axis::Horizontal, rng);
        }
        let ghost b2 = self.ball;
        let ghost h2 = *rng;
        if self.ball.ddp.y > 0 {
            self.ball.handle_entity_collision(&self.b_entity, Axis::Vertical, rng);
        }
        let ghost b3 = self.ball;
        let ghost h3 = *rng;
        if self.ball.ddp.y < 0 {
            self.ball.handle_entity_collision(&self.t_entity, Axis::Vertical, rng);
        }
        assert(collision_stage(b1, b2, h1, h2, self.l_entity, Axis::Horizontal, false));
        assert(collision_stage(b2, b3, h2, h3, self.b_entity, Axis::Vertical, true));
    }

    /// Raises each component of the ball's acceleration to the floor, as `floor_accel` says.
    pub fn enforce_min_ddp(&mut self)
        requires
            accel_ok(old(self).ball.ddp),
        ensures
            *final(self) == old(self).with_ball(
                old(self).ball.p,
                old(self).ball.dp,
                V2 { x: floor_accel(old(self).ball.ddp.x as int) as i64, y: floor_accel(old(self).ball.ddp.y as int) as i64 },
            ),
            accel_ok(final(self).ball.ddp),
            abs(final(self).ball.ddp.x as int) >= BALL_MIN_DDP,
            abs(final(self).ball.ddp.y as int) >= BALL_MIN_DDP,
    {
        self.ball.ddp.x = enforce_floor(self.ball.ddp.x);
        self.ball.ddp.y = enforce_floor(self.ball.ddp.y);
    }

    /// Whether the ball has escaped, as `escaped` says.
    pub fn ball_escaped(&self) -> (r: bool)
        requires
            forall|k: int| 0 <= k < 5 ==> (#[trigger] self.scene()[k]).shape_ok(),
        ensures
            r == self.escaped(),
    {
        proof {
            lemma_scene(*self);
        }
        let ball_w = to_subpixels(self.ball.width);
        let ball_h = to_subpixels(self.ball.height);
        self.ball.p.x < self.l_entity.p.x || self.ball.p.x + ball_w > self.r_entity.p.x + to_subpixels(self.r_entity.width)
            || self.ball.p.y < self.t_entity.p.y || self.ball.p.y + ball_h > self.b_entity.p.y + to_subpixels(self.b_entity.height)
    }
}

impl GameMemory {
    /// Draws the scene and records its rectangles, to be cleared next frame.
    pub fn draw_scene(&mut self, buffer: &mut OffscreenBuffer)
        requires
            old(buffer).dims_ok(),
            old(buffer).is_full(),
            forall|k: int| 0 <= k < 5 ==> RectForClear::of(#[trigger] old(self).scene()[k]).fits(
                old(buffer).width as int,
                old(buffer).height as int,
            ),
        ensures
            final(buffer).width == old(buffer).width,
            final(buffer).height == old(buffer).height,
            final(buffer).is_full(),
            final(buffer).pixels() == draw_entities(
                old(buffer).pixels(),
                old(buffer).width as int,
                old(buffer).height as int,
                old(self).scene(),
            ),
            *final(self) == (GameMemory { rects_to_clear: final(self).rects_to_clear, ..*old(self) }),
            final(self).rects_to_clear@ == old(self).rects_to_clear@ + rects_of(old(self).scene()),
    {
        let ghost start = buffer.pixels();
        let ghost w = buffer.width as int;
        let ghost h = buffer.height as int;
        let ghost es = self.scene();
        proof {
            lemma_scene(*self);
        }
        draw_entity(&self.l_entity, buffer);
        draw_entity(&self.r_entity, buffer);
        draw_entity(&self.t_entity, buffer);
        draw_entity(&self.b_entity, buffer);
        draw_entity(&self.ball, buffer);
        proof {
            assert(es.drop_last() =~= seq![es[0], es[1], es[2], es[3]]);
            assert(es.drop_last().drop_last() =~= seq![es[0], es[1], es[2]]);
            assert(es.drop_last().drop_last().drop_last() =~= seq![es[0], es[1]]);
            assert(es.drop_last().drop_last().drop_last().drop_last() =~= seq![es[0]]);
            assert(es.drop_last().drop_last().drop_last().drop_last().drop_last() =~= Seq::<Entity>::empty());
            reveal_with_fuel(draw_entities, 6);
        }
        self.rects_to_clear.push(RectForClear::new_from_entity(&self.l_entity));
        self.rects_to_clear.push(RectForClear::new_from_entity(&self.r_entity));
        self.rects_to_clear.push(RectForClear::new_from_entity(&self.t_entity));
        self.rects_to_clear.push(RectForClear::new_from_entity(&self.b_entity));
        self.rects_to_clear.push(RectForClear::new_from_entity(&self.ball));
        assert(self.rects_to_clear@ =~= old(self).rects_to_clear@ + rects_of(es));
    }
}

/// Whether the game is being played or shows the end of a round.
#[derive(Clone, Copy, Debug, PartialEq, Eq, Structural)]
pub enum GameStates {
    Play,
    DeathScene,
}

/// The round's state, and the ticks spent so far in the death scene.
#[derive(Clone, Copy, Debug, PartialEq, Eq)]
pub struct GameState {
    pub state: GameStates,
    pub pause_elapsed: i64,
}

impl GameState {
    /// A game about to be played.
    pub fn new() -> (s: GameState)
        ensures
            s.state == GameStates::Play,
            s.pause_elapsed == 0,
    {
        GameState { state: GameStates::Play, pause_elapsed: 0 }
    }

    /// Counts a frame of `dt` ticks toward a pause of `dur` ticks. While the
    /// pause is shorter than `dur` it grows by `dt`; once it has reached `dur`,
    /// it is reset and the result says that the pause is over.
    pub fn pause_for_then(&mut self, dur: i64, dt: i64) -> (over: bool)
        requires
            0 <= old(self).pause_elapsed,
            dur + dt <= i64::MAX,
        ensures
            over == (old(self).pause_elapsed >= dur),
            over ==> final(self).pause_elapsed == 0,
            !over ==> final(self).pause_elapsed == old(self).pause_elapsed + dt,
            final(self).state == old(self).state,
    {
        if self.pause_elapsed < dur {
            self.pause_elapsed = self.pause_elapsed + dt;
            false
        } else {
            self.pause_elapsed = 0;
            true
        }
    }
}

/// What holds between frames: the buffer and memory are well formed, the
/// buffer holds every pixel once a round has started, the ball is inside the
/// play-field while a started round is played, and the pause is bounded.
pub open spec fn game_wf(memory: GameMemory, buffer: OffscreenBuffer, state: GameState) -> bool {
    &&& buffer.dims_ok()
    &&& memory.wf(buffer.width as int, buffer.height as int)
    &&& memory.is_initialized ==> buffer.is_full()
    &&& (state.state == GameStates::Play && memory.is_initialized) ==> !memory.escaped()
    &&& 0 <= state.pause_elapsed <= DEATH_PAUSE_TICKS + MAX_FRAME_TICKS
}

/// Runs one frame of the game. In the death scene the pause grows by the
/// frame's time until it reaches `DEATH_PAUSE_TICKS`; the frame after that
/// ends the scene and asks for a new round. In play, a round is started if
/// needed (clearing the whole buffer), the rectangles of the last frame are
/// repainted with the background, the paddles and ball move, the ball bounces
/// off the paddles it hits, its acceleration is raised to the floor, and the
/// scene is drawn; if the ball has escaped, the buffer turns red and the death
/// scene begins.
pub fn update_and_render(
    memory: &mut GameMemory,
    buffer: &mut OffscreenBuffer,
    input: &GameInput,
    game_state: &mut GameState,
    rng: &mut StdRng,
)
    requires
        game_wf(*old(memory), *old(buffer), *old(game_state)),
        frame_ok(input.dt_for_frame as int),
    ensures
        game_wf(*final(memory), *final(buffer), *final(game_state)),
        final(buffer).width == old(buffer).width,
        final(buffer).height == old(buffer).height,
        old(game_state).state == GameStates::DeathScene && old(game_state).pause_elapsed < DEATH_PAUSE_TICKS ==> {
            &&& final(game_state).state == GameStates::DeathScene
            &&& final(game_state).pause_elapsed == old(game_state).pause_elapsed + input.dt_for_frame
            &&& *final(memory) == *old(memory)
            &&& *final(rng) == *old(rng)
            &&& final(buffer).pixels() == old(buffer).pixels()
        },
        old(game_state).state == GameStates::DeathScene && old(game_state).pause_elapsed >= DEATH_PAUSE_TICKS ==> {
            &&& final(game_state).state == GameStates::Play
            &&& final(game_state).pause_elapsed == 0
            &&& *final(memory) == (GameMemory { is_initialized: false, ..*old(memory) })
            &&& *final(rng) == *old(rng)
            &&& final(buffer).pixels() == old(buffer).pixels()
        },
        old(game_state).state == GameStates::Play ==> exists|s: GameMemory, g: StdRng|
            (if old(memory).is_initialized {
                s == *old(memory) && g == *old(rng)
            } else {
                s == old(memory).restarted(old(buffer).width as int, old(buffer).height as int, s.ball.ddp)
                    && start_ddp_ok(s.ball.ddp)
            }) && #[trigger] frame_result(
                s,
                *final(memory),
                *input,
                old(buffer).width as int,
                old(buffer).height as int,
                g,
                *final(rng),
            ),
        old(game_state).state == GameStates::Play ==> {
            &&& final(memory).is_initialized
            &&& final(memory).paddles_in_bounds(old(buffer).width as int, old(buffer).height as int)
            &&& abs(final(memory).ball.ddp.x as int) >= BALL_MIN_DDP
            &&& abs(final(memory).ball.ddp.y as int) >= BALL_MIN_DDP
            &&& final(memory).rects_to_clear@ == rects_of(final(memory).scene())
            &&& (final(game_state).state == GameStates::DeathScene) == final(memory).escaped()
            &&& final(game_state).state == GameStates::DeathScene ==> final(game_state).pause_elapsed == 0
                && final(buffer).pixels() == solid(4 * (old(buffer).width * old(buffer).height), Color::red())
            &&& final(game_state).state == GameStates::Play ==> final(game_state).pause_elapsed == old(game_state).pause_elapsed
            &&& final(game_state).state == GameStates::Play ==> final(buffer).pixels() == draw_entities(
                clear_rects(
                    if old(memory).is_initialized {
                        old(buffer).pixels()
                    } else {
                        background(old(buffer).width as int, old(buffer).height as int)
                    },
                    old(buffer).width as int,
                    old(buffer).height as int,
                    old(memory).rects_to_clear@,
                ),
                old(buffer).width as int,
                old(buffer).height as int,
                final(memory).scene(),
            )
            &&& (!old(memory).is_initialized || (old(buffer).pixels() == frame(old(buffer).width as int, old(buffer).height as int, old(memory).scene())
                && old(memory).rects_to_clear@ == rects_of(old(memory).scene())))
                && final(game_state).state == GameStates::Play
                ==> final(buffer).pixels() == frame(old(buffer).width as int, old(buffer).height as int, final(memory).scene())
        },
        old(game_state).state == GameStates::Play && old(memory).is_initialized ==> {
            &&& final(memory).l_entity.p.y == old(memory).paddle_y_after(*input, old(buffer).height as int)
            &&& final(memory).t_entity.p.x == old(memory).paddle_x_after(*input, old(buffer).width as int)
            &&& final(memory).ball.p.x == old(memory).ball.p.x + displacement(old(memory).ball.ddp.x as int, old(memory).ball.dp.x as int, input.dt_for_frame as int)
            &&& final(memory).ball.p.y == old(memory).ball.p.y + displacement(old(memory).ball.ddp.y as int, old(memory).ball.dp.y as int, input.dt_for_frame as int)
        },
{
    let width = buffer.width;
    let height = buffer.height;
    let ghost w = width as int;
    let ghost h = height as int;
    if game_state.state == GameStates::DeathScene {
        if game_state.pause_for_then(DEATH_PAUSE_TICKS, input.dt_for_frame) {
            memory.is_initialized = false;
            game_state.state = GameStates::Play;
        }
        proof {
            lemma_scene(*old(memory));
            lemma_scene(*memory);
        }
        return;
    }
    let ghost drawn = memory.scene();
    let ghost was_initialized = memory.is_initialized;
    if !memory.is_initialized {
        memory.start_round(width, height, rng);
        clear_buffer(buffer);
        proof {
            lemma_clear_background(w, h, memory.rects_to_clear@);
        }
    }
    let ghost s = *memory;
    let ghost g = *rng;
    proof {
        lemma_scene(*memory);
        lemma_area_pos(w, h);
    }
    clear_dirty_rects(buffer, &memory.rects_to_clear);
    memory.rects_to_clear.clear();
    memory.move_paddles(input, width, height);
    proof {
        lemma_scene(*memory);
    }
    memory.move_ball(input.dt_for_frame);
    let ghost flying = *memory;
    let ghost g_before = *rng;
    memory.resolve_ball_collisions(rng);
    let ghost bounced = memory.ball;
    memory.enforce_min_ddp();
    proof {
        lemma_scene(*memory);
    }
    memory.draw_scene(buffer);
    proof {
        lemma_scene(*memory);
        if was_initialized {
            lemma_dirty_redraw_matches_full_redraw(w, h, drawn, memory.scene());
        }
        assert(memory.rects_to_clear@ =~= rects_of(memory.scene()));
        assert(collisions(flying.ball, bounced, g_before, *rng, flying.l_entity, flying.r_entity, flying.b_entity, flying.t_entity));
        assert(frame_result(s, *memory, *input, w, h, g, *rng));
    }
    if memory.ball_escaped() {
        let ghost before_red = buffer.pixels();
        draw_rectangle(&V2 { x: 0, y: 0 }, width, height, &Color::red(), buffer);
        proof {
            lemma_paint_everything(before_red, w, h, Color::red());
        }
        game_state.state = GameStates::DeathScene;
        game_state.pause_elapsed = 0;
    }
}

proof fn lemma_scene(m: GameMemory)
    ensures
        m.scene().len() == 5,
        m.scene()[0] == m.l_entity,
        m.scene()[1] == m.r_entity,
        m.scene()[2] == m.t_entity,
        m.scene()[3] == m.b_entity,
        m.scene()[4] == m.ball,
{
}

proof fn lemma_area_pos(w: int, h: int)
    requires
        side_ok(w),
        side_ok(h),
    ensures
        0 < w * h,
{
    assert(0 < w * h) by (nonlinear_arith)
        requires
            0 < w,
            0 < h,
    ;
}

} // verus!
