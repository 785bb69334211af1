//! Key bindings: which key issues which command.
use vstd::prelude::*;

use crate::player::Command;

verus! {

/// Speed change of one key press, in percentage points.
pub const SPEED_STEP: i32 = 5;

/// A key of the keyboard.
#[derive(Clone, Copy, Debug, PartialEq, Eq, Structural)]
pub enum Key {
    Backspace,
    Enter,
    Left,
    Right,
    Up,
    Down,
    Home,
    End,
    PageUp,
    PageDown,
    Tab,
    BackTab,
    Delete,
    Insert,
    F(u8),
    Char(char),
    Null,
    Esc,
}

/// The key bound to each action.
#[derive(Clone, Copy, Debug, PartialEq, Eq, Structural)]
pub struct Keys {
    pub next: Key,
    pub prev: Key,
    pub transpose_up: Key,
    pub transpose_down: Key,
    pub speed_up: Key,
    pub speed_down: Key,
    pub reset: Key,
    pub replay: Key,
    pub solo: Key,
    pub silence: Key,
    pub rewind: Key,
    pub info: Key,
    pub exit: Key,
    pub help: Key,
}

impl Keys {
    /// The command bound to `k`: where one key has several bindings, the
    /// first of next, previous, transpose up, transpose down, reset
    /// transposition, replay, silence, solo, rewind, info, speed up and speed
    /// down wins. Exit and help issue no command.
    pub open spec fn bound_command(self, k: Key) -> Option<Command> {
        if k == self.next {
            Some(Command::Next)
        } else if k == self.prev {
            Some(Command::Prev)
        } else if k == self.transpose_up {
            Some(Command::Transpose(1i8))
        } else if k == self.transpose_down {
            Some(Command::Transpose(-1i8))
        } else if k == self.reset {
            Some(Command::Transpose(0i8))
        } else if k == self.replay {
            Some(Command::Replay)
        } else if k == self.silence {
            Some(Command::Silence)
        } else if k == self.solo {
            Some(Command::Solo)
        } else if k == self.rewind {
            Some(Command::Reset)
        } else if k == self.info {
            Some(Command::Info)
        } else if k == self.speed_up {
            Some(Command::Speed(SPEED_STEP))
        } else if k == self.speed_down {
            Some(Command::Speed((-SPEED_STEP) as i32))
        } else {
            None
        }
    }

    /// The command that key `k` issues, if any.
    pub fn command(&self, k: Key) -> (r: Option<Command>)
        ensures
            r == self.bound_command(k),
    {
        if k == self.next {
            Some(Command::Next)
        } else if k == self.prev {
            Some(Command::Prev)
        } else if k == self.transpose_up {
            Some(Command::Transpose(1))
        } else if k == self.transpose_down {
            Some(Command::Transpose(-1))
        } else if k == self.reset {
            Some(Command::Transpose(0))
        } else if k == self.replay {
            Some(Command::Replay)
        } else if k == self.silence {
            Some(Command::Silence)
        } else if k == self.solo {
            Some(Command::Solo)
        } else if k == self.rewind {
            Some(Command::Reset)
        } else if k == self.info {
            Some(Command::Info)
        } else if k == self.speed_up {
            Some(Command::Speed(SPEED_STEP))
        } else if k == self.speed_down {
            Some(Command::Speed(-SPEED_STEP))
        } else {
            None
        }
    }
}

impl Default for Keys {
    /// Arrows move and transpose, `1` and `2` change the speed, space
    /// silences, Esc exits.
    fn default() -> (r: Keys)
        ensures
            r == (Keys {
                next: Key::Right,
                prev: Key::Left,
                transpose_up: Key::Up,
                transpose_down: Key::Down,
                speed_up: Key::Char('2'),
                speed_down: Key::Char('1'),
                reset: Key::Char('x'),
                replay: Key::Char('r'),
                solo: Key::Char('s'),
                silence: Key::Char(' '),
                rewind: Key::Char('p'),
                info: Key::Char('i'),
                exit: Key::Esc,
                help: Key::Char('h'),
            }),
    {
        Keys {
            next: Key::Right,
            prev: Key::Left,
            transpose_up: Key::Up,
            transpose_down: Key::Down,
            speed_up: Key::Char('2'),
            speed_down: Key::Char('1'),
            reset: Key::Char('x'),
            replay: Key::Char('r'),
            solo: Key::Char('s'),
            silence: Key::Char(' '),
            rewind: Key::Char('p'),
            info: Key::Char('i'),
            exit: Key::Esc,
            help: Key::Char('h'),
        }
    }
}

} // verus!
