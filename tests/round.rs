use poong::game::{DEATH_PAUSE_TICKS, ENTITY_X_PADDING, ENTITY_Y_PADDING};
use poong::physics::BALL_MIN_DDP;
use poong::render::{clear_buffer, draw_entity};
use poong::units::{HALF_PIXEL, SUBPIXELS_PER_PIXEL};
use poong::{update_and_render, Color, GameInput, GameMemory, GameState, GameStates, OffscreenBuffer, V2};
use rand::rngs::StdRng;
use rand::SeedableRng;

const SIDE: i32 = 400;

fn px(n: i64) -> i64 {
    n * SUBPIXELS_PER_PIXEL
}

fn frame_input(dt: i64) -> GameInput {
    let mut input = GameInput::new();
    input.dt_for_frame = dt;
    input
}

/// A game after its first frame, with the round started.
fn started(seed: u64) -> (GameMemory, OffscreenBuffer, GameState, StdRng) {
    let mut memory = GameMemory::new();
    let mut buffer = OffscreenBuffer::new(SIDE, SIDE);
    let mut state = GameState::new();
    let mut rng = StdRng::seed_from_u64(seed);
    update_and_render(&mut memory, &mut buffer, &frame_input(0), &mut state, &mut rng);
    (memory, buffer, state, rng)
}

fn full_redraw(memory: &GameMemory) -> Vec<u8> {
    let mut buffer = OffscreenBuffer::new(SIDE, SIDE);
    clear_buffer(&mut buffer);
    for e in [&memory.l_entity, &memory.r_entity, &memory.t_entity, &memory.b_entity, &memory.ball] {
        draw_entity(e, &mut buffer);
    }
    buffer.bits.to_vec()
}

fn assert_initial_paddles(memory: &GameMemory) {
    let mid = px((SIDE / 2 - 20) as i64);
    assert_eq!(memory.l_entity.p, V2 { x: px(ENTITY_X_PADDING as i64), y: mid });
    assert_eq!(memory.r_entity.p, V2 { x: px((SIDE - ENTITY_X_PADDING - 8) as i64), y: mid });
    assert_eq!(memory.t_entity.p, V2 { x: mid, y: px(ENTITY_Y_PADDING as i64) });
    assert_eq!(memory.b_entity.p, V2 { x: mid, y: px((SIDE - ENTITY_Y_PADDING - 8) as i64) });
}

#[test]
fn first_frame_lays_out_the_round() {
    let (memory, buffer, state, _) = started(1);
    assert_eq!(state.state, GameStates::Play);
    assert!(memory.is_initialized);
    assert_initial_paddles(&memory);
    assert_eq!(memory.ball.p, V2 { x: SIDE as i64 * HALF_PIXEL, y: SIDE as i64 * HALF_PIXEL });
    assert!(memory.ball.ddp.x.abs() >= BALL_MIN_DDP && memory.ball.ddp.x.abs() <= 50_000);
    assert!(memory.ball.ddp.y.abs() >= BALL_MIN_DDP && memory.ball.ddp.y.abs() <= 50_000);
    assert_eq!(buffer.bits.len(), (4 * SIDE * SIDE) as usize);
    assert_eq!(memory.rects_to_clear.len(), 5);
    assert_eq!(buffer.bits.to_vec(), full_redraw(&memory));
}

#[test]
fn ball_from_centre_moves_by_half_a_dt_squared() {
    let (mut memory, mut buffer, mut state, mut rng) = started(2);
    let centre = SIDE as i64 * HALF_PIXEL;
    assert_eq!(memory.ball.p, V2 { x: centre, y: centre });
    memory.ball.ddp = V2 { x: 30_000, y: 20_000 };
    memory.ball.dp = V2 { x: 0, y: 0 };
    // 1/60 s is 60 ticks; 0.5 * a * dt^2 is a / 7200 pixels.
    update_and_render(&mut memory, &mut buffer, &frame_input(60), &mut state, &mut rng);
    assert_eq!(memory.ball.p.x, centre + 30_000 * SUBPIXELS_PER_PIXEL / 7200);
    assert_eq!(memory.ball.p.y, centre + 20_000 * SUBPIXELS_PER_PIXEL / 7200);
    assert_eq!(memory.ball.p.x - centre, 30_000 * 60 * 60);
    assert_eq!(memory.ball.dp, V2 { x: 60, y: 60 });
    assert_eq!(memory.ball.ddp, V2 { x: 30_000, y: 30_000 });
    assert_eq!(state.state, GameStates::Play);
}

fn escape_right(seed: u64) -> (GameMemory, OffscreenBuffer, GameState, StdRng) {
    let (mut memory, mut buffer, mut state, mut rng) = started(seed);
    memory.ball.p = V2 { x: px(378), y: px(100) };
    memory.ball.ddp = V2 { x: 30_000, y: 30_000 };
    state.pause_elapsed = 120;
    update_and_render(&mut memory, &mut buffer, &frame_input(60), &mut state, &mut rng);
    (memory, buffer, state, rng)
}

#[test]
fn ball_escaping_right_starts_the_death_scene() {
    let (memory, buffer, state, _) = escape_right(3);
    assert_eq!(state.state, GameStates::DeathScene);
    assert_eq!(state.pause_elapsed, 0);
    assert_eq!(memory.ball.ddp, V2 { x: 30_000, y: 30_000 });
    assert_eq!(memory.ball.p, V2 { x: px(378) + 30_000 * 3600, y: px(100) + 30_000 * 3600 });
    let red = Color::red();
    let bytes = buffer.bits.to_vec();
    assert_eq!(bytes.len(), (4 * SIDE * SIDE) as usize);
    for pixel in bytes.chunks(4) {
        assert_eq!(pixel, &[red.b, red.g, red.r, red.a][..]);
    }
}

#[test]
fn death_scene_ends_after_three_seconds() {
    let (mut memory, mut buffer, mut state, mut rng) = escape_right(4);
    let red_frame = buffer.bits.to_vec();
    let input = frame_input(60);
    for _ in 0..180 {
        update_and_render(&mut memory, &mut buffer, &input, &mut state, &mut rng);
        assert_eq!(state.state, GameStates::DeathScene);
    }
    assert_eq!(state.pause_elapsed, DEATH_PAUSE_TICKS);
    assert_eq!(buffer.bits.to_vec(), red_frame);
    update_and_render(&mut memory, &mut buffer, &input, &mut state, &mut rng);
    assert_eq!(state.state, GameStates::Play);
    assert_eq!(state.pause_elapsed, 0);
    assert!(!memory.is_initialized);

    update_and_render(&mut memory, &mut buffer, &input, &mut state, &mut rng);
    assert!(memory.is_initialized);
    assert_initial_paddles(&memory);
    let centre = SIDE as i64 * HALF_PIXEL;
    // The ball kept the velocity of the last frame played: 60 units on each axis.
    for moved in [memory.ball.p.x - centre - 7200, memory.ball.p.y - centre - 7200] {
        assert_eq!(moved % 3600, 0);
        assert!(-50_000 <= moved / 3600 && moved / 3600 < 50_000);
    }
    assert_eq!(buffer.bits.to_vec(), full_redraw(&memory));
}

#[test]
fn dirty_redraw_of_a_still_scene_matches_a_full_redraw() {
    let (mut memory, mut buffer, mut state, mut rng) = started(5);
    let first = buffer.bits.to_vec();
    assert_eq!(first, full_redraw(&memory));
    update_and_render(&mut memory, &mut buffer, &frame_input(0), &mut state, &mut rng);
    assert_eq!(buffer.bits.to_vec(), first);
    assert_eq!(buffer.bits.to_vec(), full_redraw(&memory));
}

#[test]
fn dirty_redraw_of_a_moving_scene_matches_a_full_redraw() {
    let (mut memory, mut buffer, mut state, mut rng) = started(6);
    let mut input = frame_input(60);
    input.keyboard.buttons.move_up.ended_down = true;
    input.keyboard.buttons.move_right.ended_down = true;
    for _ in 0..20 {
        update_and_render(&mut memory, &mut buffer, &input, &mut state, &mut rng);
        if state.state == GameStates::DeathScene {
            break;
        }
        assert_eq!(buffer.bits.to_vec(), full_redraw(&memory));
    }
}

#[test]
fn pressing_right_accelerates_the_horizontal_paddles() {
    let (mut memory, mut buffer, mut state, mut rng) = started(7);
    let start = memory.t_entity.p.x;
    let mut input = frame_input(60);
    input.keyboard.buttons.move_right.ended_down = true;
    update_and_render(&mut memory, &mut buffer, &input, &mut state, &mut rng);
    assert_eq!(memory.t_entity.p.x, start + 3000 * 60 * 60);
    assert_eq!(memory.b_entity.p.x, memory.t_entity.p.x);
    assert_eq!(memory.t_entity.dp.x, 3000 * 60);
    assert_eq!(memory.b_entity.dp.x, 3000 * 60);
    assert_eq!(memory.l_entity.p.y, memory.r_entity.p.y);
    assert_eq!(memory.l_entity.dp.y, 0);
}

#[test]
fn paddle_at_the_wall_does_not_pass_it() {
    let (mut memory, mut buffer, mut state, mut rng) = started(8);
    let wall = px(ENTITY_Y_PADDING as i64);
    memory.l_entity.p.y = wall;
    memory.r_entity.p.y = wall;
    let mut input = frame_input(60);
    input.keyboard.buttons.move_up.ended_down = true;
    for _ in 0..5 {
        update_and_render(&mut memory, &mut buffer, &input, &mut state, &mut rng);
        assert_eq!(memory.l_entity.p.y, wall);
        assert_eq!(memory.r_entity.p.y, wall);
    }
    assert!(memory.l_entity.dp.y < 0);
}

#[test]
fn paddles_stay_in_the_field_and_the_ball_keeps_its_pace() {
    let (mut memory, mut buffer, mut state, mut rng) = started(9);
    let mut input = frame_input(60);
    for tick in 0..400 {
        let b = &mut input.keyboard.buttons;
        b.move_down.ended_down = tick % 90 < 45;
        b.move_up.ended_down = tick % 70 >= 35;
        b.move_left.ended_down = tick % 50 < 25;
        b.move_right.ended_down = tick % 110 >= 60;
        let was_play = state.state == GameStates::Play;
        update_and_render(&mut memory, &mut buffer, &input, &mut state, &mut rng);
        if was_play {
            let lo = px(10);
            assert!(lo <= memory.l_entity.p.y && memory.l_entity.p.y <= px((SIDE - 10 - 40) as i64));
            assert!(lo <= memory.t_entity.p.x && memory.t_entity.p.x <= px((SIDE - 10 - 40) as i64));
            assert_eq!(memory.l_entity.p.y, memory.r_entity.p.y);
            assert_eq!(memory.t_entity.p.x, memory.b_entity.p.x);
            assert!(memory.ball.ddp.x.abs() >= BALL_MIN_DDP);
            assert!(memory.ball.ddp.y.abs() >= BALL_MIN_DDP);
        }
    }
}
