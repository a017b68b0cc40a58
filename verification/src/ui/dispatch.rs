//! What each event makes of a prompt, and what it asks of the caller.
use crate::event::{Action, Event};
use crate::ui::prompt::PromptMode;
use crate::ui::state::PromptState;
use crate::ui::viewer::{toggled, ShowType, ViewerState};
use vstd::prelude::*;

verus! {

impl PromptState {
    /// The state in `mode`, with the request to fetch what that mode shows.
    pub open spec fn switch(self, mode: PromptMode) -> (PromptState, Action) {
        (
            self.set_mode(mode),
            match self.fetch_for(mode) {
                Some(source) => Action::Fetch(source),
                None => Action::Continue,
            },
        )
    }

    /// A typed character: in prompt and file mode a space opens the next
    /// argument and any other character is inserted; the other modes take
    /// no characters.
    pub open spec fn key(self, c: char) -> PromptState {
        match self.mode {
            PromptMode::Prompt | PromptMode::File => if c == ' ' {
                self.append()
            } else {
                self.insert(c)
            },
            _ => self,
        }
    }

    /// The enter key.  In choose mode it takes the choice that is typed
    /// out.  In prompt mode it opens the next argument behind a cursor that
    /// has moved, and ends the session on the untouched last argument.  In
    /// file mode it takes the line at the viewport as the argument and
    /// opens the next.  In history mode it opens the next argument.
    pub open spec fn enter(self) -> (PromptState, Action) {
        match self.mode {
            PromptMode::Choose => if self.text() == seq!['m', 'a', 'n'] {
                self.switch(PromptMode::Prompt)
            } else if self.text() == seq!['f', 'i', 'l', 'e'] {
                self.switch(PromptMode::File)
            } else {
                (self, Action::Continue)
            },
            PromptMode::Prompt => if self.cursor > 0 {
                (self.append(), Action::Continue)
            } else if self.is_last() {
                (self, Action::Exit)
            } else {
                (self, Action::Continue)
            },
            PromptMode::File => (
                self.append_argument(self.current_buffer_line()).append(),
                Action::Continue,
            ),
            PromptMode::History => (self.append(), Action::Continue),
        }
    }

    /// The state with the decoration `typ` toggled.
    pub open spec fn toggle(self, typ: ShowType) -> PromptState {
        PromptState {
            viewer: ViewerState { show_type: toggled(self.viewer.show_type, typ), ..self.viewer },
            ..self
        }
    }

    /// A jump: to the start for zero, to the end for a negative number,
    /// nowhere else.
    pub open spec fn move_to(self, n: i32) -> PromptState {
        if n == 0 {
            self.beginning_of_line()
        } else if n < 0 {
            self.end_of_line()
        } else {
            self
        }
    }

    /// What `event` makes of the state, and what the caller has to do then.
    pub open spec fn dispatch(self, event: Event) -> (PromptState, Action) {
        match event {
            Event::Quit => (self, Action::Exit),
            Event::ReadLine(line) => (self.insert_line(line@), Action::Continue),
            Event::Key(c) => (self.key(c), Action::Continue),
            Event::Backspace => (self.backspace(), Action::Continue),
            Event::Delete => (self.delete(), Action::Continue),
            Event::Tab => (self.accept(), Action::Continue),
            Event::Enter => self.enter(),
            Event::Up => (self.up(), Action::Continue),
            Event::Down => (self.down(), Action::Continue),
            Event::Left => (self.select_back(), Action::Continue),
            Event::Right => (self.select_forward(), Action::Continue),
            Event::Next => (self.next(), Action::Continue),
            Event::Prev => (self.prev(), Action::Continue),
            Event::Forward => (self.cursor_forward(), Action::Continue),
            Event::Back => (self.cursor_back(), Action::Continue),
            Event::Fn1 => (self.toggle(ShowType::LineNumber), Action::Continue),
            Event::Fn2 => (self.incr_size(), Action::Continue),
            Event::Fn3 => (self.decr_size(), Action::Continue),
            Event::History => (
                PromptState { mode: PromptMode::History, ..self }.history_back(),
                Action::Continue,
            ),
            Event::MoveTo(n) => (self.move_to(n), Action::Continue),
        }
    }
}

} // verus!
