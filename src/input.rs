use vstd::prelude::*;
use crate::primitives::V2;

verus! {

/// Whether a button was held down at the end of the frame.
#[derive(Clone, Copy, Debug, PartialEq, Eq)]
pub struct GameButtonState {
    pub ended_down: bool,
}

impl GameButtonState {
    /// Records the button's state from a key or mouse message.
    pub fn set(&mut self, is_down: bool)
        ensures
            final(self).ended_down == is_down,
    {
        if self.ended_down != is_down {
            self.ended_down = is_down;
        }
    }
}

#[derive(Clone, Copy, Debug, PartialEq, Eq)]
pub struct InputButtons {
    pub move_up: GameButtonState,
    pub move_down: GameButtonState,
    pub move_left: GameButtonState,
    pub move_right: GameButtonState,
    pub back: GameButtonState,
    pub start: GameButtonState,
    pub jump: GameButtonState,
}

#[derive(Clone, Copy, Debug, PartialEq, Eq)]
pub struct KeyboardInput {
    pub buttons: InputButtons,
}

impl KeyboardInput {
    pub open spec fn all_up(self) -> bool {
        let b = self.buttons;
        !b.move_up.ended_down && !b.move_down.ended_down && !b.move_left.ended_down
            && !b.move_right.ended_down && !b.back.ended_down && !b.start.ended_down
            && !b.jump.ended_down
    }

    /// A keyboard with no key held.
    pub fn new() -> (k: KeyboardInput)
        ensures
            k.all_up(),
    {
        KeyboardInput {
            buttons: InputButtons {
                move_up: GameButtonState { ended_down: false },
                move_down: GameButtonState { ended_down: false },
                move_left: GameButtonState { ended_down: false },
                move_right: GameButtonState { ended_down: false },
                back: GameButtonState { ended_down: false },
                start: GameButtonState { ended_down: false },
                jump: GameButtonState { ended_down: false },
            },
        }
    }
}

/// What the game reads once per frame: the cursor (in subpixels), the length
/// of the frame in ticks, and the state of the keys and mouse buttons.
pub struct GameInput {
    pub cursor_pos: V2,
    pub dt_for_frame: i64,
    pub keyboard: KeyboardInput,
    pub mouse_buttons: [GameButtonState; 2],
}

impl GameInput {
    /// The intended vertical direction of the paddles: down wins over up.
    pub open spec fn dir_y(&self) -> int {
        if self.keyboard.buttons.move_down.ended_down {
            1
        } else if self.keyboard.buttons.move_up.ended_down {
            -1
        } else {
            0
        }
    }

    /// The intended horizontal direction of the paddles: right wins over left.
    pub open spec fn dir_x(&self) -> int {
        if self.keyboard.buttons.move_right.ended_down {
            1
        } else if self.keyboard.buttons.move_left.ended_down {
            -1
        } else {
            0
        }
    }

    /// An empty frame with nothing pressed.
    pub fn new() -> (i: GameInput)
        ensures
            i.cursor_pos == (V2 { x: 0, y: 0 }),
            i.dt_for_frame == 0,
            i.keyboard.all_up(),
            !i.mouse_buttons[0].ended_down,
            !i.mouse_buttons[1].ended_down,
    {
        GameInput {
            cursor_pos: V2 { x: 0, y: 0 },
            dt_for_frame: 0,
            keyboard: KeyboardInput::new(),
            mouse_buttons: [GameButtonState { ended_down: false }, GameButtonState { ended_down: false }],
        }
    }
}

/// The keys the game listens to.
#[derive(Clone, Copy, Debug, PartialEq, Eq, Structural)]
pub enum Key {
    Up,
    Down,
    Left,
    Right,
    Back,
    Start,
    Jump,
    F4,
    Other,
}

/// The flags of a key message: whether the key was down before it, whether
/// it is down now, and whether Alt was held.
#[derive(Clone, Copy, Debug, PartialEq, Eq)]
pub struct KeyMessage {
    pub was_down: bool,
    pub is_down: bool,
    pub alt_down: bool,
}

impl KeyMessage {
    /// Reads the flags from a key message's parameter: bit 30 tells whether
    /// the key was down, bit 31 is clear while it is down, and bit 29 tells
    /// whether Alt was held.
    pub fn from_lparam(lparam: i64) -> (m: KeyMessage)
        ensures
            m.was_down == (lparam & 0x4000_0000 != 0),
            m.is_down == (lparam & 0x8000_0000 == 0),
            m.alt_down == (lparam & 0x2000_0000 != 0),
    {
        KeyMessage {
            was_down: lparam & 0x4000_0000 != 0,
            is_down: lparam & 0x8000_0000 == 0,
            alt_down: lparam & 0x2000_0000 != 0,
        }
    }
}

/// The cursor position packed in a mouse message's parameter: x in the low
/// sixteen bits, y in the next sixteen.
pub fn mouse_position(lparam: i64) -> (r: (i64, i64))
    ensures
        r.0 == lparam & 0xffff,
        r.1 == (lparam >> 16u32) & 0xffff,
{
    let x = lparam & 0xffff;
    let y = (lparam >> 16u32) & 0xffff;
    (x, y)
}

impl InputButtons {
    /// The buttons with the one that `key` drives set to `is_down`.
    pub open spec fn pressed(self, key: Key, is_down: bool) -> InputButtons {
        let s = GameButtonState { ended_down: is_down };
        match key {
            Key::Up => InputButtons { move_up: s, ..self },
            Key::Down => InputButtons { move_down: s, ..self },
            Key::Left => InputButtons { move_left: s, ..self },
            Key::Right => InputButtons { move_right: s, ..self },
            Key::Back => InputButtons { back: s, ..self },
            Key::Start => InputButtons { start: s, ..self },
            Key::Jump => InputButtons { jump: s, ..self },
            _ => self,
        }
    }
}

impl KeyboardInput {
    /// Applies a key message. A message that changes the key's state sets the
    /// button it drives; the result tells whether the message asks to quit
    /// (Alt+F4 pressed).
    pub fn process_key(&mut self, key: Key, msg: KeyMessage) -> (quit: bool)
        ensures
            msg.was_down != msg.is_down ==> final(self).buttons == old(self).buttons.pressed(key, msg.is_down),
            msg.was_down == msg.is_down ==> *final(self) == *old(self),
            quit == (msg.was_down != msg.is_down && msg.is_down && key == Key::F4 && msg.alt_down),
    {
        if msg.was_down == msg.is_down {
            return false;
        }
        match key {
            Key::Up => self.buttons.move_up.set(msg.is_down),
            Key::Down => self.buttons.move_down.set(msg.is_down),
            Key::Left => self.buttons.move_left.set(msg.is_down),
            Key::Right => self.buttons.move_right.set(msg.is_down),
            Key::Back => self.buttons.back.set(msg.is_down),
            Key::Start => self.buttons.start.set(msg.is_down),
            Key::Jump => self.buttons.jump.set(msg.is_down),
            _ => {},
        }
        msg.is_down && key == Key::F4 && msg.alt_down
    }
}

} // verus!
