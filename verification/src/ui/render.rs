//! What a render shows of a prompt: the input line, the panel with the
//! window of the reference text, the cursor column and the completion hint.
use crate::text::{byte_len, join, replace_all};
use crate::ui::complete::{all_candidates, path_like, suffix};
use crate::ui::cursor::{panel_strokes, wipe, wipes, Stroke};
use crate::ui::state::PromptState;
use crate::ui::style::{bold_code, foreground_code, reset_code};
use crate::ui::viewer::decorated;
use vstd::prelude::*;

verus! {

/// The prompt sign, bold.
pub open spec fn prompt_text() -> Seq<char> {
    bold_code() + seq!['>', ' '] + reset_code()
}

/// `n`, or the largest column that can be asked for where `n` is beyond it.
pub open spec fn clamped(n: nat) -> nat {
    if n > u64::MAX {
        u64::MAX as nat
    } else {
        n
    }
}

/// The hint that proposes `suffix`, in blue.
pub open spec fn hint(suffix: Seq<char>) -> Seq<char> {
    foreground_code('4') + suffix + reset_code()
}

impl PromptState {
    /// The candidates for completing the selected argument; none while the
    /// cursor is at its start.
    pub open spec fn candidates(self, entries: Seq<Seq<char>>) -> Seq<Seq<char>> {
        if self.cursor == 0 {
            Seq::<Seq<char>>::empty()
        } else {
            all_candidates(self.buffer, entries, self.text())
        }
    }

    /// What the first candidate holds beyond the selected argument.
    pub open spec fn candidate(self, entries: Seq<Seq<char>>) -> Option<Seq<char>> {
        let found = self.candidates(entries);
        if found.len() > 0 {
            Some(suffix(found[0], self.text()))
        } else {
            None
        }
    }

    /// Whether directory entries can be among the candidates.
    pub open spec fn wants_entries(self) -> bool {
        self.cursor > 0 && path_like(self.text())
    }

    /// The command and its arguments, separated by spaces.
    pub open spec fn command_line(self) -> Seq<char> {
        join(seq![self.command] + self.argument, seq![' '])
    }

    /// The input line: the prompt sign, then the command line in bold
    /// white.
    pub open spec fn input_line(self) -> Seq<char> {
        prompt_text() + bold_code() + foreground_code('7') + self.command_line() + reset_code()
    }

    /// The number of bytes in front of the selected argument on the input
    /// line: the prompt sign, the command and the arguments before the
    /// selected one, and one space.
    pub open spec fn prompt_len(self) -> nat {
        2 + byte_len(
            join(seq![self.command] + self.argument.take(self.selected as int), seq![' ']),
        ) + 1
    }

    /// The column of the cursor, counted from one.
    pub open spec fn column(self) -> nat {
        clamped(self.prompt_len() + self.cursor + 1)
    }

    /// The selected argument in red.
    pub open spec fn highlight(self) -> Seq<char> {
        foreground_code('1') + self.text() + reset_code()
    }

    /// The decorated lines of the buffer, with every occurrence of the
    /// selected argument highlighted on the line that the viewport starts
    /// at.
    pub open spec fn marked(self) -> Seq<Seq<char>> {
        let lines = decorated(self.viewer.show_type, self.buffer);
        if self.pos < lines.len() {
            lines.update(
                self.pos as int,
                replace_all(lines[self.pos as int], self.text(), self.highlight()),
            )
        } else {
            lines
        }
    }

    /// The lines of the panel: the window of the marked lines.
    pub open spec fn panel(self) -> Seq<Seq<char>> {
        self.marked().subrange(self.window().0 as int, self.window().1 as int)
    }

    /// The strokes that clear the input line and the panel, and return to
    /// the input line.
    pub open spec fn sweep(self) -> Seq<Stroke> {
        wipe() + wipes(self.size) + seq![Stroke::Horizon(1), Stroke::Up(clamped(self.size + 1))]
    }

    /// The strokes that draw the input line and the panel, and put the
    /// cursor where the next character goes.
    pub open spec fn picture(self) -> Seq<Stroke> {
        seq![Stroke::Write(self.input_line()), Stroke::Down(1), Stroke::Horizon(1)]
            + panel_strokes(self.panel()) + seq![
            Stroke::Up(self.panel().len()),
            Stroke::Up(1),
            Stroke::Horizon(self.column()),
        ]
    }

    /// The strokes that show the completion hint at the cursor, if there is
    /// one.
    pub open spec fn hint_strokes(self, entries: Seq<Seq<char>>) -> Seq<Stroke> {
        match self.candidate(entries) {
            Some(s) => seq![
                Stroke::Horizon(self.column()),
                Stroke::Write(hint(s)),
                Stroke::Horizon(self.column()),
            ],
            None => Seq::<Stroke>::empty(),
        }
    }

    /// The strokes of one render.  Without a terminal only the sweep is
    /// drawn.
    pub open spec fn strokes(self, attached: bool, entries: Seq<Seq<char>>) -> Seq<Stroke> {
        if attached {
            self.sweep() + self.picture() + self.hint_strokes(entries)
        } else {
            self.sweep()
        }
    }

    /// The state after one render: with a terminal the pending completion
    /// is what the render proposed.
    pub open spec fn rendered(self, attached: bool, entries: Seq<Seq<char>>) -> PromptState {
        if attached {
            PromptState { completion: self.candidate(entries), ..self }
        } else {
            self
        }
    }
}

} // verus!
