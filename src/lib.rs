//! A four-paddle ball game: fixed-point physics, the round state machine and a
//! dirty-rectangle renderer over a packed pixel buffer.
//!
//! The paddles move in pairs inside a padded play-field, the ball bounces off
//! them with a random push across its path, and a ball that escapes ends the
//! round. Each frame repaints only the rectangles the previous frame drew.

pub mod entity;
pub mod game;
pub mod input;
pub mod physics;
pub mod primitives;
pub mod random;
pub mod render;
pub mod units;

pub use entity::{Axis, Entity};
pub use game::{update_and_render, GameMemory, GameState, GameStates};
pub use input::{GameButtonState, GameInput, InputButtons, Key, KeyMessage, KeyboardInput};
pub use primitives::{Color, V2};
pub use render::{OffscreenBuffer, RectForClear};
