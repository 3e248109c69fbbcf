use poong::entity::{BOUNCE_IMPULSE_HIGH, BOUNCE_IMPULSE_LOW};
use poong::input::mouse_position;
use poong::physics::{drag, enforce_floor, kinematic_delta, slide_paddle, BALL_MAX_DDP};
use poong::render::{clear_buffer, clear_dirty_rects, draw_rectangle};
use poong::units::{HALF_PIXEL, SUBPIXELS_PER_PIXEL};
use poong::{
    Axis, Color, Entity, GameInput, GameMemory, GameState, GameStates, Key, KeyMessage, KeyboardInput,
    OffscreenBuffer, RectForClear, V2,
};
use rand::rngs::StdRng;
use rand::SeedableRng;

fn px(n: i64) -> i64 {
    n * SUBPIXELS_PER_PIXEL
}

fn pixel(bytes: &[u8], width: usize, x: usize, y: usize) -> [u8; 4] {
    let at = 4 * (y * width + x);
    [bytes[at], bytes[at + 1], bytes[at + 2], bytes[at + 3]]
}

#[test]
fn colour_packs_as_bgra() {
    let c = Color::new(1, 2, 3, 4);
    assert_eq!(c, Color { r: 1, g: 2, b: 3, a: 4 });
    assert_eq!(c.get_i32(), 0x0302_0104);
    assert_eq!(Color::dark_blue().get_i32().to_be_bytes(), [67, 5, 15, 255]);
    assert_eq!(Color::new(0, 0, 255, 0).get_i32(), -16_777_216);
}

#[test]
fn vector_arithmetic() {
    let a = V2 { x: 3, y: -4 };
    let b = V2 { x: 10, y: 20 };
    assert_eq!(a.add(b), V2 { x: 13, y: 16 });
    assert_eq!(a.mul(-3), V2 { x: -9, y: 12 });
    let mut c = a;
    c.add_assign(b);
    assert_eq!(c, V2 { x: 13, y: 16 });
    c.mul_assign(2);
    assert_eq!(c, V2 { x: 26, y: 32 });
    assert_eq!(V2::zero(), V2 { x: 0, y: 0 });
}

#[test]
fn body_at_rest_stays_put() {
    let zero = V2 { x: 0, y: 0 };
    assert_eq!(kinematic_delta(zero, zero, 60), zero);
    assert_eq!(kinematic_delta(zero, zero, 360), zero);
    assert_eq!(kinematic_delta(V2 { x: 30_000, y: -20_000 }, V2 { x: 5, y: 0 }, 60), V2 { x: 30_000 * 3600 + 600, y: -20_000 * 3600 });
}

#[test]
fn drag_rounds_toward_zero() {
    assert_eq!(drag(3600), -7);
    assert_eq!(drag(-3600), 7);
    assert_eq!(drag(514), 0);
    assert_eq!(drag(515), -1);
    assert_eq!(drag(-1_548_000), 3010);
    assert_eq!(drag(0), 0);
}

#[test]
fn slide_shrinks_until_the_move_fits() {
    // Fits at once.
    assert_eq!(slide_paddle(100, 50, 0, 200), 150);
    // 150 does not fit below 120; 4/5 of it is 120, still not; then 96.
    assert_eq!(slide_paddle(0, 150, 0, 120), 96);
    // Five tries all land outside: the paddle stays.
    assert_eq!(slide_paddle(0, -10, 0, 100), 0);
    // Negative displacements shrink toward zero too: -9 -> -7.
    assert_eq!(slide_paddle(10, -9, 2, 100), 3);
}

#[test]
fn acceleration_floor_keeps_sign() {
    assert_eq!(enforce_floor(0), -30_000);
    assert_eq!(enforce_floor(5), 30_000);
    assert_eq!(enforce_floor(-5), -30_000);
    assert_eq!(enforce_floor(29_999), 30_000);
    assert_eq!(enforce_floor(30_000), 30_000);
    assert_eq!(enforce_floor(-45_000), -45_000);
}

fn ball_at(x: i64, y: i64, ddp: V2) -> Entity {
    let mut ball = Entity::new(10, 10, Color::neon_mint());
    ball.p = V2 { x, y };
    ball.ddp = ddp;
    ball
}

fn paddle_at(x: i64, y: i64, width: i32, height: i32) -> Entity {
    let mut paddle = Entity::new(width, height, Color::baby_pink());
    paddle.p = V2 { x, y };
    paddle
}

#[test]
fn bounce_reverses_and_pushes_across() {
    let mut ball = ball_at(0, 0, V2 { x: 40_000, y: 1_000 });
    ball.bounce(Axis::Horizontal, 500);
    assert_eq!(ball.ddp, V2 { x: -40_000, y: 1_500 });
    ball.bounce(Axis::Vertical, 7);
    assert_eq!(ball.ddp, V2 { x: -39_993, y: -1_500 });
    let mut fast = ball_at(0, 0, V2 { x: 1, y: BALL_MAX_DDP - 10 });
    fast.bounce(Axis::Horizontal, 29_999);
    assert_eq!(fast.ddp, V2 { x: -1, y: BALL_MAX_DDP });
}

#[test]
fn ball_hits_a_paddle_it_reaches() {
    let right = paddle_at(px(382), px(180), 8, 40);
    let toward = ball_at(px(373), px(175), V2 { x: 30_000, y: 0 });
    assert!(toward.hits_paddle(&right, Axis::Horizontal));
    let left = paddle_at(px(10), px(180), 8, 40);
    let leftward = ball_at(px(17), px(175), V2 { x: -30_000, y: 0 });
    assert!(leftward.hits_paddle(&left, Axis::Horizontal));
    let still_clear = ball_at(px(19), px(175), V2 { x: -30_000, y: 0 });
    assert!(!still_clear.hits_paddle(&left, Axis::Horizontal));
    let resting = ball_at(px(373), px(175), V2 { x: 0, y: 0 });
    assert!(!resting.hits_paddle(&right, Axis::Horizontal));
    let short = ball_at(px(371), px(175), V2 { x: 30_000, y: 0 });
    assert!(!short.hits_paddle(&right, Axis::Horizontal));
    let beside = ball_at(px(373), px(100), V2 { x: 30_000, y: 0 });
    assert!(!beside.hits_paddle(&right, Axis::Horizontal));
    let bottom = paddle_at(px(180), px(382), 40, 8);
    let falling = ball_at(px(200), px(373), V2 { x: 0, y: 30_000 });
    assert!(falling.hits_paddle(&bottom, Axis::Vertical));
    assert!(!falling.hits_paddle(&bottom, Axis::Horizontal));
}

#[test]
fn collision_pushes_by_a_random_impulse() {
    let mut rng = StdRng::seed_from_u64(11);
    let right = paddle_at(px(382), px(180), 8, 40);
    for _ in 0..50 {
        let mut ball = ball_at(px(373), px(175), V2 { x: 30_000, y: 100 });
        ball.handle_entity_collision(&right, Axis::Horizontal, &mut rng);
        assert_eq!(ball.ddp.x, -30_000);
        let push = ball.ddp.y - 100;
        assert!(BOUNCE_IMPULSE_LOW <= push && push < BOUNCE_IMPULSE_HIGH);
    }
    let mut missed = ball_at(px(100), px(175), V2 { x: 30_000, y: 100 });
    missed.handle_entity_collision(&right, Axis::Horizontal, &mut rng);
    assert_eq!(missed.ddp, V2 { x: 30_000, y: 100 });
}

#[test]
fn new_buffer_is_empty_and_clearing_fills_it() {
    let mut buffer = OffscreenBuffer::new(120, 100);
    assert_eq!(buffer.bits.len(), 0);
    clear_buffer(&mut buffer);
    let bytes = buffer.bits.to_vec();
    assert_eq!(bytes.len(), 4 * 120 * 100);
    assert_eq!(pixel(&bytes, 120, 0, 0), [67, 5, 15, 255]);
    assert_eq!(pixel(&bytes, 120, 119, 99), [67, 5, 15, 255]);
}

#[test]
fn rectangle_is_drawn_rounded_and_kept_inside() {
    let mut buffer = OffscreenBuffer::new(100, 100);
    clear_buffer(&mut buffer);
    let c = Color::new(9, 8, 7, 6);
    // Half a pixel rounds up.
    draw_rectangle(&V2 { x: px(2) + HALF_PIXEL, y: px(4) }, 2, 3, &c, &mut buffer);
    let bytes = buffer.bits.to_vec();
    assert_eq!(pixel(&bytes, 100, 2, 4), [67, 5, 15, 255]);
    assert_eq!(pixel(&bytes, 100, 3, 4), [7, 8, 9, 6]);
    assert_eq!(pixel(&bytes, 100, 4, 6), [7, 8, 9, 6]);
    assert_eq!(pixel(&bytes, 100, 5, 6), [67, 5, 15, 255]);
    assert_eq!(pixel(&bytes, 100, 3, 7), [67, 5, 15, 255]);
    let painted = bytes.chunks(4).filter(|p| *p == [7, 8, 9, 6]).count();
    assert_eq!(painted, 6);

    // Past the far edge: laid against it. Before zero: starts at zero.
    let mut edge = OffscreenBuffer::new(100, 100);
    clear_buffer(&mut edge);
    draw_rectangle(&V2 { x: px(98), y: -px(3) }, 5, 2, &c, &mut edge);
    let bytes = edge.bits.to_vec();
    assert_eq!(pixel(&bytes, 100, 95, 0), [7, 8, 9, 6]);
    assert_eq!(pixel(&bytes, 100, 99, 1), [7, 8, 9, 6]);
    assert_eq!(pixel(&bytes, 100, 94, 0), [67, 5, 15, 255]);
    assert_eq!(pixel(&bytes, 100, 95, 2), [67, 5, 15, 255]);
}

#[test]
fn dirty_rects_are_repainted_with_the_background() {
    let mut buffer = OffscreenBuffer::new(100, 100);
    clear_buffer(&mut buffer);
    let blank = buffer.bits.to_vec();
    let mut ball = Entity::new(10, 10, Color::neon_mint());
    ball.p = V2 { x: px(40), y: px(50) };
    draw_rectangle(&ball.p, ball.width, ball.height, &ball.color, &mut buffer);
    assert_ne!(buffer.bits.to_vec(), blank);
    let rects = vec![RectForClear::new_from_entity(&ball)];
    assert_eq!(rects[0], RectForClear { p: ball.p, width: 10, height: 10 });
    clear_dirty_rects(&mut buffer, &rects);
    assert_eq!(buffer.bits.to_vec(), blank);
}

#[test]
fn fresh_state_and_inputs() {
    let state = GameState::new();
    assert_eq!(state.state, GameStates::Play);
    assert_eq!(state.pause_elapsed, 0);
    let keyboard = KeyboardInput::new();
    assert!(!keyboard.buttons.move_up.ended_down && !keyboard.buttons.jump.ended_down);
    let input = GameInput::new();
    assert_eq!(input.dt_for_frame, 0);
    assert_eq!(input.cursor_pos, V2 { x: 0, y: 0 });
    assert!(!input.mouse_buttons[0].ended_down && !input.mouse_buttons[1].ended_down);
    let memory = GameMemory::new();
    assert!(!memory.is_initialized);
    assert!(memory.rects_to_clear.is_empty());
    assert_eq!((memory.l_entity.width, memory.l_entity.height), (8, 40));
    assert_eq!((memory.t_entity.width, memory.t_entity.height), (40, 8));
    assert_eq!((memory.ball.width, memory.ball.height), (10, 10));
}

#[test]
fn key_messages_drive_buttons() {
    let pressed = KeyMessage::from_lparam(0x0000_0001);
    assert_eq!(pressed, KeyMessage { was_down: false, is_down: true, alt_down: false });
    let released = KeyMessage::from_lparam(0xC000_0001);
    assert_eq!(released, KeyMessage { was_down: true, is_down: false, alt_down: false });
    let repeat = KeyMessage::from_lparam(0x4000_0001);
    assert!(repeat.was_down && repeat.is_down);

    let mut keyboard = KeyboardInput::new();
    assert!(!keyboard.process_key(Key::Up, pressed));
    assert!(keyboard.buttons.move_up.ended_down);
    assert!(!keyboard.process_key(Key::Right, pressed));
    assert!(keyboard.buttons.move_right.ended_down);
    assert!(!keyboard.process_key(Key::Up, released));
    assert!(!keyboard.buttons.move_up.ended_down);
    let before = keyboard;
    assert!(!keyboard.process_key(Key::Down, repeat));
    assert_eq!(keyboard, before);

    let alt_f4 = KeyMessage::from_lparam(0x2000_0001);
    assert!(alt_f4.alt_down);
    assert!(keyboard.process_key(Key::F4, alt_f4));
    assert!(!keyboard.process_key(Key::F4, pressed));
}

#[test]
fn mouse_position_unpacks_both_halves() {
    assert_eq!(mouse_position(0x0064_00C8), (200, 100));
    assert_eq!(mouse_position(0x1_0002_0003), (3, 2));
}

#[test]
fn pause_counts_up_then_ends() {
    let mut state = GameState { state: GameStates::DeathScene, pause_elapsed: 0 };
    assert!(!state.pause_for_then(100, 60));
    assert_eq!(state.pause_elapsed, 60);
    assert!(!state.pause_for_then(100, 60));
    assert_eq!(state.pause_elapsed, 120);
    assert!(state.pause_for_then(100, 60));
    assert_eq!(state.pause_elapsed, 0);
    assert_eq!(state.state, GameStates::DeathScene);
}

#[test]
fn starting_a_round_places_everything() {
    let mut memory = GameMemory::new();
    let mut rng = StdRng::seed_from_u64(12);
    memory.start_round(300, 200, &mut rng);
    assert!(memory.is_initialized);
    assert_eq!(memory.l_entity.p, V2 { x: px(10), y: px(80) });
    assert_eq!(memory.r_entity.p, V2 { x: px(282), y: px(80) });
    assert_eq!(memory.t_entity.p, V2 { x: px(130), y: px(10) });
    assert_eq!(memory.b_entity.p, V2 { x: px(130), y: px(182) });
    assert_eq!(memory.ball.p, V2 { x: px(150), y: px(100) });
    assert!(-50_000 <= memory.ball.ddp.x && memory.ball.ddp.x < 50_000);
    assert!(-50_000 <= memory.ball.ddp.y && memory.ball.ddp.y < 50_000);
    assert!(!memory.ball_escaped());
}

#[test]
fn steps_of_a_frame() {
    let mut memory = GameMemory::new();
    let mut rng = StdRng::seed_from_u64(13);
    memory.start_round(400, 400, &mut rng);
    memory.ball.ddp = V2 { x: 12, y: -30 };
    memory.enforce_min_ddp();
    assert_eq!(memory.ball.ddp, V2 { x: 30_000, y: -30_000 });
    memory.move_ball(60);
    assert_eq!(memory.ball.p, V2 { x: px(200) + 30_000 * 3600, y: px(200) - 30_000 * 3600 });
    assert_eq!(memory.ball.dp, V2 { x: 60, y: 60 });
    let before = memory.ball;
    memory.resolve_ball_collisions(&mut rng);
    assert_eq!(memory.ball, before);
    memory.ball.p.x = px(395);
    assert!(memory.ball_escaped());

    let mut input = GameInput::new();
    input.dt_for_frame = 60;
    input.keyboard.buttons.move_down.ended_down = true;
    let y = memory.l_entity.p.y;
    memory.move_paddles(&input, 400, 400);
    assert_eq!(memory.l_entity.p.y, y + 3000 * 3600);
    assert_eq!(memory.r_entity.p.y, memory.l_entity.p.y);
    assert_eq!(memory.l_entity.dp.y, 180_000);
    // Drag: 180_000 velocity units are 50 pixels per second, so 350 off.
    memory.move_paddles(&input, 400, 400);
    assert_eq!(memory.l_entity.dp.y, 180_000 + (3000 - 350) * 60);
}

#[test]
fn new_memory_is_at_rest() {
    let memory = GameMemory::new();
    let zero = V2 { x: 0, y: 0 };
    for e in [&memory.l_entity, &memory.r_entity, &memory.t_entity, &memory.b_entity, &memory.ball] {
        assert_eq!((e.p, e.dp, e.ddp), (zero, zero, zero));
    }
}

#[test]
fn missed_collision_draws_nothing() {
    let right = paddle_at(px(382), px(180), 8, 40);
    let mut rng = StdRng::seed_from_u64(21);
    let same = StdRng::seed_from_u64(21);
    let mut ball = ball_at(px(200), px(200), V2 { x: 30_000, y: 30_000 });
    ball.handle_entity_collision(&right, Axis::Horizontal, &mut rng);
    assert_eq!(ball.ddp, V2 { x: 30_000, y: 30_000 });
    assert_eq!(rng, same);
    let mut hit = ball_at(px(373), px(175), V2 { x: 30_000, y: 0 });
    hit.handle_entity_collision(&right, Axis::Horizontal, &mut rng);
    assert_ne!(rng, same);
    let mut rng2 = StdRng::seed_from_u64(21);
    let mut hit2 = ball_at(px(373), px(175), V2 { x: 30_000, y: 0 });
    hit2.handle_entity_collision(&right, Axis::Horizontal, &mut rng2);
    assert_eq!(hit2, hit);
}

#[test]
fn smallest_field_is_accepted() {
    let mut memory = GameMemory::new();
    let mut buffer = OffscreenBuffer::new(60, 60);
    let mut state = GameState::new();
    let mut rng = StdRng::seed_from_u64(22);
    let mut input = GameInput::new();
    input.dt_for_frame = 0;
    poong::update_and_render(&mut memory, &mut buffer, &input, &mut state, &mut rng);
    assert_eq!(memory.l_entity.p.y, px(10));
    assert_eq!(memory.t_entity.p.x, px(10));
    assert_eq!(buffer.bits.len(), 4 * 60 * 60);
}
