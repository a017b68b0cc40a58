//! From key presses and piped bytes to events.
use crate::event::Event;
use crate::text::{decode_line, line_text};
use vstd::prelude::*;

verus! {

/// A key press, as far as the prompt tells keys apart.
#[derive(Clone, Copy, PartialEq, Eq, Structural, Debug)]
pub enum Key {
    Backspace,
    Left,
    Right,
    Up,
    Down,
    Delete,
    /// A function key, by its number.
    F(u8),
    /// A character.
    Char(char),
    /// A character with the control key held.
    Ctrl(char),
    /// Any other key.
    Other,
}

/// The decoder of the input sources.
pub struct Input {}

/// The event that a key stands for, if it stands for one.
pub open spec fn decoded(key: Key) -> Option<Event> {
    match key {
        Key::Ctrl(c) => if c == 'a' {
            Some(Event::MoveTo(0i32))
        } else if c == 'e' {
            Some(Event::MoveTo(-1i32))
        } else if c == 'c' {
            Some(Event::Quit)
        } else if c == 'r' {
            Some(Event::History)
        } else if c == 'b' {
            Some(Event::Back)
        } else if c == 'f' {
            Some(Event::Forward)
        } else if c == 'p' {
            Some(Event::Prev)
        } else if c == 'n' {
            Some(Event::Next)
        } else {
            None
        },
        Key::Char(c) => if c == '\n' {
            Some(Event::Enter)
        } else if c == '\t' {
            Some(Event::Tab)
        } else {
            Some(Event::Key(c))
        },
        Key::Backspace => Some(Event::Backspace),
        Key::Delete => Some(Event::Delete),
        Key::Left => Some(Event::Left),
        Key::Right => Some(Event::Right),
        Key::Down => Some(Event::Down),
        Key::Up => Some(Event::Up),
        Key::F(n) => if n == 1 {
            Some(Event::Fn1)
        } else if n == 2 {
            Some(Event::Fn2)
        } else if n == 3 {
            Some(Event::Fn3)
        } else {
            None
        },
        Key::Other => None,
    }
}

impl Input {
    /// The event that a key press stands for, or `None` for a key that the
    /// prompt does not use.
    pub fn decode(key: Key) -> (event: Option<Event>)
        ensures
            event == decoded(key),
    {
        match key {
            Key::Ctrl('a') => Some(Event::MoveTo(0)),
            Key::Ctrl('e') => Some(Event::MoveTo(-1)),
            Key::Ctrl('c') => Some(Event::Quit),
            Key::Ctrl('r') => Some(Event::History),
            Key::Ctrl('b') => Some(Event::Back),
            Key::Ctrl('f') => Some(Event::Forward),
            Key::Ctrl('p') => Some(Event::Prev),
            Key::Ctrl('n') => Some(Event::Next),
            Key::Char('\n') => Some(Event::Enter),
            Key::Char('\t') => Some(Event::Tab),
            Key::Char(c) => Some(Event::Key(c)),
            Key::Backspace => Some(Event::Backspace),
            Key::Delete => Some(Event::Delete),
            Key::Left => Some(Event::Left),
            Key::Right => Some(Event::Right),
            Key::Down => Some(Event::Down),
            Key::Up => Some(Event::Up),
            Key::F(1) => Some(Event::Fn1),
            Key::F(2) => Some(Event::Fn2),
            Key::F(3) => Some(Event::Fn3),
            _ => None,
        }
    }

    /// Whether the key reader stops behind `event`: it does behind the
    /// request to quit.
    pub fn is_final(event: &Event) -> (stop: bool)
        ensures
            stop <==> *event is Quit,
    {
        match event {
            Event::Quit => true,
            _ => false,
        }
    }

    /// The event for one line that was read from piped input as bytes: the
    /// bytes without their terminator as text, or an empty line where they
    /// are no valid UTF-8.
    pub fn line(bytes: Vec<u8>) -> (event: Event)
        ensures
            event matches Event::ReadLine(text) && text@ == line_text(bytes@),
    {
        Event::ReadLine(decode_line(bytes))
    }
}

} // verus!
