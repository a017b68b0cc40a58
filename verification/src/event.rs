//! What reaches the prompt from outside, and what it asks for in return.
use crate::ui::viewer::SourceType;
use vstd::prelude::*;

verus! {

/// One event for the prompt, from the keyboard or from piped input.
#[derive(Clone, PartialEq, Eq, Debug)]
pub enum Event {
    /// A printable character was typed.
    Key(char),
    /// A line arrived from piped input.
    ReadLine(String),
    Enter,
    Backspace,
    Delete,
    /// Recall the previous record of the history.
    History,
    /// Accept the pending completion.
    Tab,
    /// Cursor one character to the right.
    Forward,
    /// Cursor one character to the left.
    Back,
    /// Viewport to the next matching line.
    Next,
    /// Viewport to the previous matching line.
    Prev,
    Up,
    Down,
    /// Selection one argument to the left.
    Left,
    /// Selection one argument to the right.
    Right,
    Quit,
    /// Jump to the start (zero) or to the end (a negative number).
    MoveTo(i32),
    /// Toggle line numbers.
    Fn1,
    /// One more visible line.
    Fn2,
    /// One visible line fewer.
    Fn3,
}

/// What the caller of [`crate::ui::prompt::Prompt::dispatch`] has to do
/// after an event.
#[derive(Clone, Copy, PartialEq, Eq, Structural, Debug)]
pub enum Action {
    /// Render, and wait for the next event.
    Continue,
    /// Fetch the reference text of the given source, hand it to
    /// [`crate::ui::prompt::Prompt::load`], render, and wait for the next
    /// event.
    Fetch(SourceType),
    /// Leave the loop: the command line is complete or was given up.
    Exit,
}

} // verus!
