use crate::state::Rating;
use vstd::prelude::*;

verus! {

/// The time between two ticks, in milliseconds.
pub const TICK_RATE: u64 = 250;

/// What the main loop waits for: an input, or the tick of the clock.
pub enum Event<I> {
    Input(I),
    Tick,
}

/// A key press, as far as the commands tell keys apart.
#[derive(Clone, Copy, PartialEq, Eq, Debug, Structural)]
pub enum Key {
    /// The escape key.
    Esc,
    /// A character key.
    Char(char),
    /// A character key, pressed with the control key.
    Ctrl(char),
    /// Any other key.
    Other,
}

/// What a key press asks for.
#[derive(Clone, Copy, PartialEq, Eq, Debug, Structural)]
pub enum Command {
    /// Leave the program.
    Quit,
    /// Write the queues to their files.
    Write,
    /// Pause the track, or let it go on.
    TogglePause,
    /// Rate the track.
    Rate(Rating),
    /// Draw the screen anew.
    Redraw,
}

impl Command {
    /// The command that `key` stands for, if any.
    pub open spec fn of(key: Key) -> Option<Command> {
        match key {
            Key::Esc => Some(Command::Quit),
            Key::Char(c) => if c == 'w' {
                Some(Command::Write)
            } else if c == ' ' {
                Some(Command::TogglePause)
            } else if c == '1' {
                Some(Command::Rate(Rating::R01))
            } else if c == '2' {
                Some(Command::Rate(Rating::R02))
            } else if c == '4' {
                Some(Command::Rate(Rating::R04))
            } else if c == '6' {
                Some(Command::Rate(Rating::R06))
            } else if c == '8' {
                Some(Command::Rate(Rating::R08))
            } else if c == '0' {
                Some(Command::Rate(Rating::R10))
            } else {
                None
            },
            Key::Ctrl(c) => if c == 'l' {
                Some(Command::Redraw)
            } else {
                None
            },
            Key::Other => None,
        }
    }

    /// The command that `key` stands for, if any.
    pub fn from_key(key: Key) -> (command: Option<Command>)
        ensures
            command == Command::of(key),
    {
        match key {
            Key::Esc => Some(Command::Quit),
            Key::Char('w') => Some(Command::Write),
            Key::Char(' ') => Some(Command::TogglePause),
            Key::Char('1') => Some(Command::Rate(Rating::R01)),
            Key::Char('2') => Some(Command::Rate(Rating::R02)),
            Key::Char('4') => Some(Command::Rate(Rating::R04)),
            Key::Char('6') => Some(Command::Rate(Rating::R06)),
            Key::Char('8') => Some(Command::Rate(Rating::R08)),
            Key::Char('0') => Some(Command::Rate(Rating::R10)),
            Key::Ctrl('l') => Some(Command::Redraw),
            _ => None,
        }
    }
}

} // verus!
