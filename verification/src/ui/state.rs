//! What a prompt stands for: its state as plain values, and what each
//! operation makes of it.
use crate::text::{after, before, byte_len, char_width, contains, join, on_boundary, split};
use crate::ui::history::{replays, Record};
use crate::ui::prompt::PromptMode;
use crate::ui::viewer::{to_fetch, SourceType, ViewerState};
use vstd::prelude::*;

verus! {

/// The state of a prompt.
pub struct PromptState {
    /// The command that is being composed.
    pub command: Seq<char>,
    /// Its arguments, the one that is being edited among them.
    pub argument: Seq<Seq<char>>,
    /// The index of the argument that is being edited.
    pub selected: nat,
    /// The byte offset of the cursor in the selected argument.
    pub cursor: nat,
    /// The suffix that a render proposed to complete the selected argument.
    pub completion: Option<Seq<char>>,
    pub mode: PromptMode,
    pub viewer: ViewerState,
    /// The lines of the reference text.
    pub buffer: Seq<Seq<char>>,
    /// The line that the viewport starts at.
    pub pos: nat,
    /// The number of lines that the viewport shows.
    pub size: nat,
    /// The lines that arrived from piped input, in order.
    pub piped: Seq<Seq<char>>,
    /// Where the history is kept, if it is kept.
    pub history_path: Option<Seq<char>>,
    /// The argument lists of earlier invocations, oldest first.
    pub histories: Seq<Seq<Seq<char>>>,
    /// How many of them have been recalled.
    pub history_index: nat,
}

/// The index of the first line at or after `from` that contains `needle`.
pub open spec fn first_match(lines: Seq<Seq<char>>, needle: Seq<char>, from: int) -> Option<int>
    decreases lines.len() - from,
{
    if from < 0 || from >= lines.len() {
        None
    } else if contains(lines[from], needle) {
        Some(from)
    } else {
        first_match(lines, needle, from + 1)
    }
}

/// The index of the last line before `to` that contains `needle`.
pub open spec fn last_match(lines: Seq<Seq<char>>, needle: Seq<char>, to: int) -> Option<int>
    decreases to,
{
    if to <= 0 || to > lines.len() {
        None
    } else if contains(lines[to - 1], needle) {
        Some(to - 1)
    } else {
        last_match(lines, needle, to - 1)
    }
}

/// What `first_match` finds is a match at or after `from`, and no line
/// between `from` and it is one; where it finds none, there is none.
pub proof fn lemma_first_match(lines: Seq<Seq<char>>, needle: Seq<char>, from: int)
    requires
        0 <= from,
    ensures
        match first_match(lines, needle, from) {
            Some(n) => from <= n < lines.len() && contains(lines[n], needle) && forall|j: int|
                from <= j < n ==> !contains(#[trigger] lines[j], needle),
            None => forall|j: int|
                from <= j < lines.len() ==> !contains(#[trigger] lines[j], needle),
        },
    decreases lines.len() - from,
{
    if from < lines.len() && !contains(lines[from], needle) {
        lemma_first_match(lines, needle, from + 1);
    }
}

/// What `last_match` finds is a match before `to`, and no line between it
/// and `to` is one; where it finds none, there is none.
pub proof fn lemma_last_match(lines: Seq<Seq<char>>, needle: Seq<char>, to: int)
    requires
        to <= lines.len(),
    ensures
        match last_match(lines, needle, to) {
            Some(n) => 0 <= n < to && contains(lines[n], needle) && forall|j: int|
                n < j < to ==> !contains(#[trigger] lines[j], needle),
            None => forall|j: int| 0 <= j < to ==> !contains(#[trigger] lines[j], needle),
        },
    decreases to,
{
    if to > 0 && !contains(lines[to - 1], needle) {
        lemma_last_match(lines, needle, to - 1);
    }
}

/// The predicate of the texts that are not empty.
pub open spec fn filled() -> spec_fn(Seq<char>) -> bool {
    |a: Seq<char>| a.len() > 0
}

/// The arguments that are not empty, in order.
pub open spec fn non_empty(args: Seq<Seq<char>>) -> Seq<Seq<char>> {
    args.filter(filled())
}

/// The two lines between which the user chooses.
pub open spec fn choices() -> Seq<Seq<char>> {
    seq![seq!['m', 'a', 'n'], seq!['f', 'i', 'l', 'e']]
}

impl PromptState {
    /// The invariant of a prompt: there is an argument, one of them is
    /// selected, the cursor stands between two of its characters or at one
    /// of its ends, the viewport starts within the buffer or at its end, and
    /// every recorded invocation holds an argument.
    pub open spec fn wf(self) -> bool {
        &&& self.argument.len() >= 1
        &&& self.selected < self.argument.len()
        &&& on_boundary(self.text(), self.cursor as int)
        &&& self.pos <= self.buffer.len()
        &&& forall|i: int| 0 <= i < self.histories.len() ==> (#[trigger] self.histories[i]).len() >= 1
    }

    /// The argument that is being edited.
    pub open spec fn text(self) -> Seq<char> {
        self.argument[self.selected as int]
    }

    /// The part of the selected argument in front of the cursor.
    pub open spec fn head(self) -> Seq<char> {
        before(self.text(), self.cursor as int)
    }

    /// The part of the selected argument from the cursor on.
    pub open spec fn tail(self) -> Seq<char> {
        after(self.text(), self.cursor as int)
    }

    /// Whether the last argument is selected.
    pub open spec fn is_last(self) -> bool {
        self.selected == self.argument.len() - 1
    }

    /// The state with the selection and the cursor moved.  The pending
    /// completion does not survive a move.
    pub open spec fn moved(self, selected: nat, cursor: nat) -> PromptState {
        PromptState {
            selected,
            cursor,
            completion: if selected == self.selected && cursor == self.cursor {
                self.completion
            } else {
                None
            },
            ..self
        }
    }

    /// The state with `text` in place of the selected argument.
    pub open spec fn with_text(self, text: Seq<char>) -> PromptState {
        PromptState { argument: self.argument.update(self.selected as int, text), ..self }
    }

    /// The state with the viewport at the first line that contains the
    /// selected argument, if there is one.
    pub open spec fn synced(self) -> PromptState {
        match first_match(self.buffer, self.text(), 0) {
            Some(n) => PromptState { pos: n as nat, ..self },
            None => self,
        }
    }

    /// `c` inserted at the cursor, the cursor behind it.
    pub open spec fn insert(self, c: char) -> PromptState {
        self.with_text(self.head() + seq![c] + self.tail()).moved(
            self.selected,
            self.cursor + char_width(c),
        ).synced()
    }

    /// The character in front of the cursor removed, if there is one.
    pub open spec fn backspace(self) -> PromptState {
        if self.head().len() == 0 {
            self
        } else {
            self.with_text(self.head().drop_last() + self.tail()).moved(
                self.selected,
                (self.cursor - char_width(self.head().last())) as nat,
            ).synced()
        }
    }

    /// The character at the cursor removed, if there is one.
    pub open spec fn delete(self) -> PromptState {
        if self.tail().len() == 0 {
            self
        } else {
            self.with_text(self.head() + self.tail().drop_first()).synced()
        }
    }

    /// The selection one argument further, a new empty argument opened
    /// where the last one was selected.
    pub open spec fn append(self) -> PromptState {
        PromptState {
            argument: if self.is_last() {
                self.argument.push(Seq::<char>::empty())
            } else {
                self.argument
            },
            ..self
        }.moved(self.selected + 1, 0)
    }

    pub open spec fn select_back(self) -> PromptState {
        if self.selected > 0 {
            self.moved((self.selected - 1) as nat, 0)
        } else {
            self
        }
    }

    pub open spec fn select_forward(self) -> PromptState {
        if self.selected + 1 < self.argument.len() {
            self.moved(self.selected + 1, 0)
        } else {
            self
        }
    }

    /// The last argument selected, the cursor at its end.
    pub open spec fn end_of_line(self) -> PromptState {
        let last = (self.argument.len() - 1) as nat;
        self.moved(last, byte_len(self.argument[last as int]))
    }

    /// The first argument selected, the cursor behind its first character
    /// (at its start where it is empty).
    pub open spec fn beginning_of_line(self) -> PromptState {
        let first = self.argument[0];
        self.moved(
            0,
            if first.len() == 0 {
                0
            } else {
                char_width(first[0])
            },
        )
    }

    /// The cursor one character to the right, unless it is at the end.
    pub open spec fn cursor_forward(self) -> PromptState {
        if self.tail().len() == 0 {
            self
        } else {
            self.moved(self.selected, self.cursor + char_width(self.tail()[0]))
        }
    }

    /// The cursor one character to the left, unless it is at the start.
    pub open spec fn cursor_back(self) -> PromptState {
        if self.head().len() == 0 {
            self
        } else {
            self.moved(self.selected, (self.cursor - char_width(self.head().last())) as nat)
        }
    }

    pub open spec fn up(self) -> PromptState {
        PromptState {
            pos: if self.pos == 0 {
                0
            } else {
                (self.pos - 1) as nat
            },
            ..self
        }
    }

    pub open spec fn down(self) -> PromptState {
        PromptState {
            pos: if self.pos + 1 > self.buffer.len() {
                self.buffer.len()
            } else {
                self.pos + 1
            },
            ..self
        }
    }

    /// The viewport at the next line after it that contains the selected
    /// argument, if there is one.
    pub open spec fn next(self) -> PromptState {
        match first_match(self.buffer, self.text(), self.pos as int + 1) {
            Some(n) => PromptState { pos: n as nat, ..self },
            None => self,
        }
    }

    /// The viewport at the nearest line before it that contains the
    /// selected argument, if there is one.
    pub open spec fn prev(self) -> PromptState {
        match last_match(self.buffer, self.text(), self.pos as int) {
            Some(n) => PromptState { pos: n as nat, ..self },
            None => self,
        }
    }

    /// One more line of piped input.
    pub open spec fn insert_line(self, line: Seq<char>) -> PromptState {
        PromptState { buffer: self.buffer.push(line), piped: self.piped.push(line), ..self }
    }

    /// The pending completion appended to the selected argument, the cursor
    /// at its end, the viewport at the top.
    pub open spec fn accept(self) -> PromptState {
        match self.completion {
            Some(suffix) => PromptState {
                cursor: byte_len(self.text() + suffix),
                completion: None,
                pos: 0,
                ..self.with_text(self.text() + suffix)
            },
            None => self,
        }
    }

    pub open spec fn incr_size(self) -> PromptState {
        PromptState {
            size: if self.size < usize::MAX {
                self.size + 1
            } else {
                self.size
            },
            ..self
        }
    }

    pub open spec fn decr_size(self) -> PromptState {
        PromptState {
            size: if self.size > 0 {
                (self.size - 1) as nat
            } else {
                0
            },
            ..self
        }
    }

    /// The invocation that the next recall brings back: the most recent one
    /// that was not recalled yet.
    pub open spec fn recallable(self) -> bool {
        self.history_path is Some && self.history_index < self.histories.len()
    }

    /// The arguments of the most recent invocation not yet recalled in place
    /// of the current ones, its last argument selected.
    pub open spec fn history_back(self) -> PromptState {
        if self.recallable() {
            let past = self.histories[self.histories.len() - 1 - self.history_index];
            PromptState {
                argument: past,
                selected: (past.len() - 1) as nat,
                cursor: 0,
                completion: None,
                history_index: self.history_index + 1,
                ..self
            }
        } else {
            self
        }
    }

    /// The state with `lines` as its buffer, the viewport pulled back into
    /// it.
    pub open spec fn with_buffer(self, lines: Seq<Seq<char>>) -> PromptState {
        PromptState {
            buffer: lines,
            pos: if self.pos > lines.len() {
                lines.len()
            } else {
                self.pos
            },
            ..self
        }
    }

    /// `line` in place of the selected argument, the cursor at its end.
    pub open spec fn append_argument(self, line: Seq<char>) -> PromptState {
        PromptState { completion: None, ..self.with_text(line).moved(self.selected, byte_len(line)) }
    }

    /// The line that the viewport starts at, or the empty text where it
    /// stands at the end of the buffer.
    pub open spec fn current_buffer_line(self) -> Seq<char> {
        if self.pos < self.buffer.len() {
            self.buffer[self.pos as int]
        } else {
            Seq::<char>::empty()
        }
    }

    /// The window of the buffer that is shown: `size` lines from `pos`, or
    /// the last `size` lines where fewer follow `pos`, or the whole buffer
    /// where it is shorter than that.
    pub open spec fn window(self) -> (nat, nat) {
        let len = self.buffer.len();
        if self.pos + self.size > len {
            (
                if len > self.size {
                    (len - self.size) as nat
                } else {
                    0
                },
                len,
            )
        } else {
            (self.pos, self.pos + self.size)
        }
    }

    /// The lines of the text that was piped in so far.
    pub open spec fn piped_lines(self) -> Seq<Seq<char>> {
        split(join(self.piped, seq!['\n']), '\n')
    }

    /// What has to be fetched when `mode` is entered: the files in file
    /// mode, the source of the viewer in prompt mode unless that is the
    /// piped input, nothing else.
    pub open spec fn fetch_for(self, mode: PromptMode) -> Option<SourceType> {
        match mode {
            PromptMode::File => Some(SourceType::File),
            PromptMode::Prompt => to_fetch(self.viewer.source_type),
            _ => None,
        }
    }

    /// The state in `mode`.  The buffer becomes the two choices in choose
    /// mode, and what was piped in so far in prompt mode where that is the
    /// source; otherwise it stays until the fetched text is loaded.
    pub open spec fn set_mode(self, mode: PromptMode) -> PromptState {
        let entered = PromptState { mode, ..self };
        match mode {
            PromptMode::Choose => entered.with_buffer(choices()),
            PromptMode::Prompt => if to_fetch(self.viewer.source_type) is None {
                entered.with_buffer(self.piped_lines())
            } else {
                entered
            },
            _ => entered,
        }
    }

    /// The state with the lines of `text` as its buffer.
    pub open spec fn load(self, text: Seq<char>) -> PromptState {
        self.with_buffer(split(text, '\n'))
    }

    /// The state with the recorded invocations of its command as its
    /// history, where the history is kept.
    pub open spec fn read_history(self, records: Seq<Record>) -> PromptState {
        if self.history_path is Some {
            PromptState { histories: replays(self.command, records), ..self }
        } else {
            self
        }
    }

    /// The record that this session leaves in the history: its command and
    /// its arguments that are not empty, where the history is kept and
    /// there is such an argument.
    pub open spec fn record(self) -> Option<Record> {
        if self.history_path is Some && non_empty(self.argument).len() > 0 {
            Some(Record { command: self.command, argument: non_empty(self.argument) })
        } else {
            None
        }
    }

    /// The command line that was composed: the command and its arguments
    /// that are not empty.
    pub open spec fn full_command(self) -> (Seq<char>, Seq<Seq<char>>) {
        (self.command, non_empty(self.argument))
    }
}

} // verus!
