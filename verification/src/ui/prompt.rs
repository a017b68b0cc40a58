//! The prompt: the command line that is being composed, the reference text
//! beside it, and the operations that events are turned into.
use crate::event::{Action, Event};
use crate::text::{
    byte_len, char_width, chars_of, contains, index_at, index_of, is_contained, join_of,
    lemma_boundary, lemma_boundary_concat, lemma_boundary_ends, lemma_byte_len_push,
    lemma_index_at, lemma_offset_step, len_of, on_boundary, push_char, replace, split,
    split_index, split_lines, text_of, width_of,
};
use crate::ui::complete::{buffer_hits, expand_tilde, is_path_like, path_hits, suffix_of};
use crate::ui::cursor::{push_panel, push_wipe, terminal_size, wipe, wipes, Draw, Stroke};
use crate::ui::history::{lemma_replays, History};
use crate::ui::render::{clamped, hint, prompt_text};
use crate::ui::state::{
    choices, filled, first_match, last_match, lemma_first_match, lemma_last_match, non_empty,
    PromptState,
};
use crate::ui::style::{blue, bold, red, reset, white};
use crate::ui::viewer::{chosen_source, ShowType, SourceType, Viewer, ViewerState};
use vstd::prelude::*;
use vstd::string::*;

verus! {

/// What the prompt is used for at the moment.
#[derive(Clone, Copy, PartialEq, Eq, Structural, Debug)]
pub enum PromptMode {
    /// Free editing beside the reference text of the command.
    Prompt,
    /// Replaying the history.
    History,
    /// Browsing the files.
    File,
    /// Choosing between the reference text and the files.
    Choose,
}

/// The text that an optional string holds.
pub open spec fn option_view(text: Option<String>) -> Option<Seq<char>> {
    match text {
        Some(s) => Some(s@),
        None => None,
    }
}

/// The prompt engine.
#[derive(Clone)]
pub struct Prompt {
    pub command: String,
    pub cursor: usize,
    pub viewer: Viewer,
    pub mode: PromptMode,
    pub argument: Vec<String>,
    pub completion: Option<String>,
    buffer: Vec<String>,
    pos: usize,
    size: usize,
    selected: usize,
    history_index: usize,
    history_path: Option<String>,
    histories: Vec<Vec<String>>,
    piped: Vec<String>,
}

impl View for Prompt {
    type V = PromptState;

    closed spec fn view(&self) -> PromptState {
        PromptState {
            command: self.command@,
            argument: self.argument.deep_view(),
            selected: self.selected as nat,
            cursor: self.cursor as nat,
            completion: option_view(self.completion),
            mode: self.mode,
            viewer: self.viewer@,
            buffer: self.buffer.deep_view(),
            pos: self.pos as nat,
            size: self.size as nat,
            piped: self.piped.deep_view(),
            history_path: option_view(self.history_path),
            histories: self.histories.deep_view(),
            history_index: self.history_index as nat,
        }
    }
}

/// The first line of `buffer` at or after `from` that contains `needle`.
fn search(buffer: &Vec<String>, needle: &Vec<char>, from: usize) -> (found: Option<usize>)
    ensures
        match found {
            Some(n) => first_match(buffer.deep_view(), needle@, from as int) == Some(n as int),
            None => first_match(buffer.deep_view(), needle@, from as int) is None,
        },
{
    let mut i: usize = from;
    while i < buffer.len()
        invariant
            from <= i,
            first_match(buffer.deep_view(), needle@, from as int) == first_match(
                buffer.deep_view(),
                needle@,
                i as int,
            ),
        decreases buffer.len() - i,
    {
        let line = chars_of(buffer[i].as_str());
        assert(buffer.deep_view()[i as int] == line@);
        if is_contained(&line, needle) {
            return Some(i);
        }
        i = i + 1;
    }
    None
}

/// The last line of `buffer` before `to` that contains `needle`.
fn search_back(buffer: &Vec<String>, needle: &Vec<char>, to: usize) -> (found: Option<usize>)
    ensures
        match found {
            Some(n) => last_match(buffer.deep_view(), needle@, to as int) == Some(n as int),
            None => last_match(buffer.deep_view(), needle@, to as int) is None,
        },
{
    if to > buffer.len() {
        return None;
    }
    let mut i: usize = to;
    while i > 0
        invariant
            i <= to <= buffer.len(),
            last_match(buffer.deep_view(), needle@, to as int) == last_match(
                buffer.deep_view(),
                needle@,
                i as int,
            ),
        decreases i,
    {
        let line = chars_of(buffer[i - 1].as_str());
        assert(buffer.deep_view()[i - 1] == line@);
        if is_contained(&line, needle) {
            return Some(i - 1);
        }
        i = i - 1;
    }
    None
}

impl Prompt {
    /// The invariant that every operation asks for and keeps.
    pub open spec fn wf(&self) -> bool {
        self@.wf()
    }

    /// A prompt for `command` with one empty argument, over the lines of
    /// `source`, with a viewport of `height` lines at the top.
    pub fn new(
        command: &str,
        height: usize,
        help: bool,
        stdin: bool,
        history_path: Option<String>,
        source: &str,
    ) -> (prompt: Prompt)
        ensures
            prompt.wf(),
            prompt@ == (PromptState {
                command: command@,
                argument: seq![Seq::<char>::empty()],
                selected: 0,
                cursor: 0,
                completion: None,
                mode: PromptMode::Prompt,
                viewer: ViewerState {
                    source_type: chosen_source(stdin, help),
                    show_type: ShowType::Normal,
                    command: command@,
                },
                buffer: split(source@, '\n'),
                pos: 0,
                size: height as nat,
                piped: Seq::<Seq<char>>::empty(),
                history_path: option_view(history_path),
                histories: Seq::<Seq<Seq<char>>>::empty(),
                history_index: 0,
            }),
    {
        let viewer = Viewer::new(command, SourceType::choose_from(stdin, help));
        let mut argument: Vec<String> = Vec::new();
        argument.push(String::new());
        let prompt = Prompt {
            command: String::from_str(command),
            cursor: 0,
            viewer,
            mode: PromptMode::Prompt,
            argument,
            completion: None,
            buffer: split_lines(source),
            pos: 0,
            size: height,
            selected: 0,
            history_index: 0,
            history_path,
            histories: Vec::new(),
            piped: Vec::new(),
        };
        proof {
            assert(prompt@.argument == seq![Seq::<char>::empty()]);
            assert(prompt@.piped == Seq::<Seq<char>>::empty());
            assert(prompt@.histories == Seq::<Seq<Seq<char>>>::empty());
            lemma_boundary_ends(Seq::<char>::empty());
        }
        prompt
    }

    /// Whether the invariant holds.  It does after `new` and after every
    /// operation; whoever writes the public fields can find out here
    /// whether the operations may be called again.
    pub fn is_valid(&self) -> (valid: bool)
        ensures
            valid == self.wf(),
    {
        if self.argument.len() == 0 || self.selected >= self.argument.len() {
            return false;
        }
        if self.pos > self.buffer.len() {
            return false;
        }
        let chars = chars_of(self.argument[self.selected].as_str());
        if split_index(&chars, self.cursor).is_none() {
            return false;
        }
        let mut i: usize = 0;
        while i < self.histories.len()
            invariant
                i <= self.histories.len(),
                forall|j: int| 0 <= j < i ==> (#[trigger] self@.histories[j]).len() >= 1,
            decreases self.histories.len() - i,
        {
            if self.histories[i].len() == 0 {
                assert(self@.histories[i as int].len() == 0);
                return false;
            }
            assert(self@.histories[i as int].len() == self.histories@[i as int].len());
            i = i + 1;
        }
        true
    }

    /// The current mode.
    pub fn get_mode<'a>(&'a self) -> (mode: &'a PromptMode)
        ensures
            *mode == self@.mode,
    {
        &self.mode
    }

    /// The index of the argument that is being edited.
    pub fn selected(&self) -> (selected: usize)
        ensures
            selected == self@.selected,
    {
        self.selected
    }

    /// The line that the viewport starts at.
    pub fn position(&self) -> (pos: usize)
        ensures
            pos == self@.pos,
    {
        self.pos
    }

    /// The number of lines that the viewport shows.
    pub fn size(&self) -> (size: usize)
        ensures
            size == self@.size,
    {
        self.size
    }

    /// The lines of the reference text.
    pub fn lines(&self) -> (lines: &Vec<String>)
        ensures
            lines.deep_view() == self@.buffer,
    {
        &self.buffer
    }

    /// Where the history is kept, if it is kept.
    pub fn history_path(&self) -> (path: &Option<String>)
        ensures
            option_view(*path) == self@.history_path,
    {
        &self.history_path
    }

    /// Whether the last argument is selected.
    pub fn is_last(&self) -> (last: bool)
        requires
            self.wf(),
        ensures
            last == self@.is_last(),
    {
        self.selected == self.argument.len() - 1
    }

    /// The text of the selected argument.
    pub fn current_input(&self) -> (text: String)
        requires
            self.wf(),
        ensures
            text@ == self@.text(),
    {
        self.argument[self.selected].clone()
    }

    /// The line that the viewport starts at, or the empty string where it
    /// stands at the end of the buffer.
    pub fn current_buffer_line(&self) -> (line: String)
        requires
            self.wf(),
        ensures
            line@ == self@.current_buffer_line(),
    {
        if self.pos < self.buffer.len() {
            self.buffer[self.pos].clone()
        } else {
            String::new()
        }
    }

    /// Nothing is left to do for the prompt when the session ends.
    pub fn quit(&self) {
    }

    /// Another command in place of the current one.
    pub fn change_command(&mut self, command: String)
        ensures
            final(self)@ == (PromptState { command: command@, ..old(self)@ }),
    {
        self.command = command;
    }

    /// The characters of the selected argument, and the index among them
    /// that the cursor stands at.
    fn parts(&self) -> (r: (Vec<char>, usize))
        requires
            self.wf(),
        ensures
            r.0@ == self@.text(),
            r.1 == index_at(self@.text(), self@.cursor as int),
            r.1 <= r.0.len(),
            r.0@.take(r.1 as int) == self@.head(),
            r.0@.skip(r.1 as int) == self@.tail(),
    {
        let chars = chars_of(self.argument[self.selected].as_str());
        let i = index_of(&chars, self.cursor);
        (chars, i)
    }

    /// Moves the selection and the cursor.
    fn move_to(&mut self, selected: usize, cursor: usize)
        requires
            old(self)@.argument.len() >= 1,
            old(self)@.pos <= old(self)@.buffer.len(),
            forall|i: int|
                0 <= i < old(self)@.histories.len() ==> (#[trigger] old(self)@.histories[i]).len()
                    >= 1,
            selected < old(self)@.argument.len(),
            on_boundary(old(self)@.argument[selected as int], cursor as int),
        ensures
            final(self).wf(),
            final(self)@ == old(self)@.moved(selected as nat, cursor as nat),
    {
        if selected != self.selected || cursor != self.cursor {
            self.completion = None;
        }
        self.selected = selected;
        self.cursor = cursor;
    }

    /// Puts `text` in place of the selected argument.
    fn set_text(&mut self, text: String)
        requires
            old(self)@.selected < old(self)@.argument.len(),
        ensures
            final(self)@ == old(self)@.with_text(text@),
    {
        let ghost before = self.argument.deep_view();
        let ghost new = text@;
        self.argument.set(self.selected, text);
        assert(self.argument.deep_view() == before.update(self.selected as int, new));
    }

    /// Moves the viewport to the first line that contains the selected
    /// argument, if there is one.
    fn sync(&mut self)
        requires
            old(self).wf(),
        ensures
            final(self).wf(),
            final(self)@ == old(self)@.synced(),
    {
        let needle = chars_of(self.argument[self.selected].as_str());
        proof {
            lemma_first_match(self@.buffer, self@.text(), 0);
        }
        match search(&self.buffer, &needle, 0) {
            Some(n) => {
                self.pos = n;
            },
            None => {},
        }
    }

    /// The first line of `buffer` that contains the selected argument.  The
    /// empty argument is contained in every line.
    pub fn find_position(&self, buffer: &Vec<String>) -> (found: Option<usize>)
        requires
            self.wf(),
        ensures
            match found {
                Some(n) => {
                    &&& n < buffer.len()
                    &&& contains(buffer@[n as int]@, self@.text())
                    &&& forall|j: int|
                        0 <= j < n ==> !contains((#[trigger] buffer@[j])@, self@.text())
                    &&& first_match(buffer.deep_view(), self@.text(), 0) == Some(n as int)
                },
                None => {
                    &&& forall|j: int|
                        0 <= j < buffer.len() ==> !contains(
                            (#[trigger] buffer@[j])@,
                            self@.text(),
                        )
                    &&& first_match(buffer.deep_view(), self@.text(), 0) is None
                },
            },
    {
        let needle = chars_of(self.argument[self.selected].as_str());
        let found = search(buffer, &needle, 0);
        proof {
            let lines = buffer.deep_view();
            lemma_first_match(lines, needle@, 0);
            assert forall|j: int| 0 <= j < buffer.len() implies (#[trigger] buffer@[j])@
                == lines[j] by {}
        }
        found
    }

    /// Inserts `ch` at the cursor and moves the cursor behind it, then
    /// moves the viewport to the first line that contains the argument.
    pub fn insert(&mut self, ch: char)
        requires
            old(self).wf(),
        ensures
            final(self).wf(),
            final(self)@ == old(self)@.insert(ch),
    {
        let (chars, i) = self.parts();
        let mut text = text_of(&chars, 0, i);
        push_char(&mut text, ch);
        let cursor = len_of(text.as_str());
        text.append(text_of(&chars, i, chars.len()).as_str());
        proof {
            let head = self@.head();
            let tail = self@.tail();
            assert(chars@.subrange(0, i as int) == head);
            assert(chars@.subrange(i as int, chars.len() as int) == tail);
            lemma_boundary(self@.text(), self@.cursor as int);
            lemma_byte_len_push(head, ch);
            assert(head.push(ch) == head + seq![ch]);
            lemma_boundary_concat(head + seq![ch], tail);
        }
        self.set_text(text);
        self.move_to(self.selected, cursor);
        self.sync();
    }

    /// Removes the character in front of the cursor, if there is one, and
    /// moves the cursor back over it, then moves the viewport to the first
    /// line that contains the argument.
    pub fn backspace(&mut self)
        requires
            old(self).wf(),
        ensures
            final(self).wf(),
            final(self)@ == old(self)@.backspace(),
    {
        let (chars, i) = self.parts();
        if i == 0 {
            return ;
        }
        let mut text = text_of(&chars, 0, i - 1);
        let cursor = len_of(text.as_str());
        text.append(text_of(&chars, i, chars.len()).as_str());
        proof {
            let head = self@.head();
            let tail = self@.tail();
            assert(chars@.subrange(0, i - 1) == head.drop_last());
            assert(chars@.subrange(i as int, chars.len() as int) == tail);
            lemma_boundary(self@.text(), self@.cursor as int);
            assert(head == head.drop_last().push(head.last()));
            lemma_byte_len_push(head.drop_last(), head.last());
            lemma_boundary_concat(head.drop_last(), tail);
        }
        self.set_text(text);
        self.move_to(self.selected, cursor);
        self.sync();
    }

    /// Removes the character at the cursor, if there is one, then moves the
    /// viewport to the first line that contains the argument.
    pub fn delete(&mut self)
        requires
            old(self).wf(),
        ensures
            final(self).wf(),
            final(self)@ == old(self)@.delete(),
    {
        let (chars, i) = self.parts();
        if i >= chars.len() {
            return ;
        }
        let mut text = text_of(&chars, 0, i);
        text.append(text_of(&chars, i + 1, chars.len()).as_str());
        proof {
            let head = self@.head();
            let tail = self@.tail();
            assert(chars@.subrange(0, i as int) == head);
            assert(chars@.subrange(i + 1, chars.len() as int) == tail.drop_first());
            lemma_boundary(self@.text(), self@.cursor as int);
            lemma_boundary_concat(head, tail.drop_first());
        }
        self.set_text(text);
        self.sync();
    }

    /// Opens the next argument: a new empty one where the last one was
    /// selected.  The cursor goes to its start.
    pub fn append(&mut self)
        requires
            old(self).wf(),
        ensures
            final(self).wf(),
            final(self)@ == old(self)@.append(),
    {
        if self.is_last() {
            let ghost before = self.argument.deep_view();
            self.argument.push(String::new());
            assert(self.argument.deep_view() == before.push(Seq::<char>::empty()));
        }
        let count = self.argument.len();
        assert(self.selected < count);
        proof {
            lemma_boundary_ends(self@.argument[self.selected + 1]);
        }
        self.move_to(self.selected + 1, 0);
    }

    /// Puts `line` in place of the selected argument, the cursor at its end.
    pub fn append_argument(&mut self, line: String)
        requires
            old(self).wf(),
        ensures
            final(self).wf(),
            final(self)@ == old(self)@.append_argument(line@),
    {
        let cursor = len_of(line.as_str());
        proof {
            lemma_boundary_ends(line@);
        }
        self.set_text(line);
        self.cursor = cursor;
        self.completion = None;
    }

    /// Selects the argument to the left, the cursor at its start.
    pub fn select_back(&mut self)
        requires
            old(self).wf(),
        ensures
            final(self).wf(),
            final(self)@ == old(self)@.select_back(),
    {
        if self.selected > 0 {
            proof {
                lemma_boundary_ends(self@.argument[self.selected - 1]);
            }
            self.move_to(self.selected - 1, 0);
        }
    }

    /// Selects the argument to the right, the cursor at its start.
    pub fn select_forward(&mut self)
        requires
            old(self).wf(),
        ensures
            final(self).wf(),
            final(self)@ == old(self)@.select_forward(),
    {
        if self.selected < self.argument.len() - 1 {
            proof {
                lemma_boundary_ends(self@.argument[self.selected + 1]);
            }
            self.move_to(self.selected + 1, 0);
        }
    }

    /// Selects the last argument, the cursor at its end.
    pub fn end_of_line(&mut self)
        requires
            old(self).wf(),
        ensures
            final(self).wf(),
            final(self)@ == old(self)@.end_of_line(),
    {
        let last = self.argument.len() - 1;
        let cursor = len_of(self.argument[last].as_str());
        proof {
            lemma_boundary_ends(self@.argument[last as int]);
        }
        self.move_to(last, cursor);
    }

    /// Selects the first argument, the cursor behind its first character.
    pub fn beginning_of_line(&mut self)
        requires
            old(self).wf(),
        ensures
            final(self).wf(),
            final(self)@ == old(self)@.beginning_of_line(),
    {
        let first = chars_of(self.argument[0].as_str());
        let cursor = if first.len() == 0 {
            0
        } else {
            width_of(first[0])
        };
        proof {
            lemma_boundary_ends(first@);
            if first.len() > 0 {
                lemma_offset_step(first@, 0);
                lemma_index_at(first@, 1);
            }
        }
        self.move_to(0, cursor);
    }

    /// Moves the cursor one character to the right, unless it is at the end
    /// of the argument.
    pub fn cursor_forward(&mut self)
        requires
            old(self).wf(),
        ensures
            final(self).wf(),
            final(self)@ == old(self)@.cursor_forward(),
            final(self)@.cursor <= byte_len(final(self)@.text()),
    {
        let (chars, i) = self.parts();
        proof {
            lemma_boundary(self@.text(), self@.cursor as int);
        }
        if i < chars.len() {
            let total = len_of(self.argument[self.selected].as_str());
            proof {
                lemma_offset_step(chars@, i as int);
                lemma_index_at(chars@, i + 1);
                lemma_boundary(chars@, self.cursor + char_width(chars@[i as int]));
            }
            self.move_to(self.selected, self.cursor + width_of(chars[i]));
        }
    }

    /// Moves the cursor one character to the left, unless it is at the
    /// start of the argument.
    pub fn cursor_back(&mut self)
        requires
            old(self).wf(),
        ensures
            final(self).wf(),
            final(self)@ == old(self)@.cursor_back(),
            final(self)@.cursor <= old(self)@.cursor,
    {
        let (chars, i) = self.parts();
        if i > 0 {
            proof {
                lemma_boundary(self@.text(), self@.cursor as int);
                lemma_offset_step(chars@, i - 1);
                lemma_index_at(chars@, i - 1);
            }
            self.move_to(self.selected, self.cursor - width_of(chars[i - 1]));
        }
    }

    /// The viewport one line up, at most to the top.
    pub fn up(&mut self)
        requires
            old(self).wf(),
        ensures
            final(self).wf(),
            final(self)@ == old(self)@.up(),
    {
        if self.pos > 0 {
            self.pos -= 1;
        }
    }

    /// The viewport one line down, at most to the end of the buffer.
    pub fn down(&mut self)
        requires
            old(self).wf(),
        ensures
            final(self).wf(),
            final(self)@ == old(self)@.down(),
    {
        if self.pos >= self.buffer.len() {
            self.pos = self.buffer.len();
        } else {
            self.pos += 1;
        }
    }

    /// Moves the viewport to the next line after it that contains the
    /// selected argument; it stays where there is none.
    pub fn next(&mut self)
        requires
            old(self).wf(),
        ensures
            final(self).wf(),
            final(self)@ == old(self)@.next(),
    {
        if self.pos >= self.buffer.len() {
            return ;
        }
        let needle = chars_of(self.argument[self.selected].as_str());
        proof {
            lemma_first_match(self@.buffer, self@.text(), self.pos + 1);
        }
        match search(&self.buffer, &needle, self.pos + 1) {
            Some(n) => {
                self.pos = n;
            },
            None => {},
        }
    }

    /// Moves the viewport to the nearest line before it that contains the
    /// selected argument; it stays where there is none.
    pub fn prev(&mut self)
        requires
            old(self).wf(),
        ensures
            final(self).wf(),
            final(self)@ == old(self)@.prev(),
    {
        let needle = chars_of(self.argument[self.selected].as_str());
        proof {
            lemma_last_match(self@.buffer, self@.text(), self.pos as int);
        }
        match search_back(&self.buffer, &needle, self.pos) {
            Some(n) => {
                self.pos = n;
            },
            None => {},
        }
    }

    /// Takes one more line of piped input into the buffer.
    pub fn insert_line(&mut self, line: String)
        requires
            old(self).wf(),
        ensures
            final(self).wf(),
            final(self)@ == old(self)@.insert_line(line@),
    {
        let ghost buffer = self.buffer.deep_view();
        let ghost piped = self.piped.deep_view();
        self.piped.push(line.clone());
        self.buffer.push(line);
        assert(self.buffer.deep_view() == buffer.push(line@));
        assert(self.piped.deep_view() == piped.push(line@));
    }

    /// One more visible line.
    pub fn incr_size(&mut self)
        ensures
            final(self)@ == old(self)@.incr_size(),
            old(self).wf() ==> final(self).wf(),
    {
        if self.size < usize::MAX {
            self.size += 1;
        }
    }

    /// One visible line fewer, down to none.
    pub fn decr_size(&mut self)
        ensures
            final(self)@ == old(self)@.decr_size(),
            old(self).wf() ==> final(self).wf(),
    {
        if self.size > 0 {
            self.size -= 1;
        }
    }

    /// The window of the buffer that is shown, as the indices of its first
    /// line and of the line behind its last.
    pub fn viewpoint(&self) -> (window: (usize, usize))
        requires
            self.wf(),
        ensures
            (window.0 as nat, window.1 as nat) == self@.window(),
            window.0 <= window.1 <= self@.buffer.len(),
            window.1 - window.0 <= self@.size,
            self@.size <= self@.buffer.len() ==> window.1 - window.0 == self@.size,
            self@.size > self@.buffer.len() ==> window.0 == 0 && window.1 == self@.buffer.len(),
    {
        let len = self.buffer.len();
        if self.size > len - self.pos {
            (
                if len > self.size {
                    len - self.size
                } else {
                    0
                },
                len,
            )
        } else {
            (self.pos, self.pos + self.size)
        }
    }

    /// Puts `lines` in place of the buffer and pulls the viewport back into
    /// it.
    fn set_buffer(&mut self, lines: Vec<String>)
        requires
            old(self).wf(),
        ensures
            final(self).wf(),
            final(self)@ == old(self)@.with_buffer(lines.deep_view()),
    {
        if self.pos > lines.len() {
            self.pos = lines.len();
        }
        self.buffer = lines;
    }

    /// Enters `mode`, and tells what has to be fetched and handed to
    /// [`Prompt::load`] for it.  The buffer becomes the two choices in
    /// choose mode, and what was piped in so far in prompt mode where that
    /// is the source of the viewer.
    pub fn set_mode(&mut self, mode: PromptMode) -> (fetch: Option<SourceType>)
        requires
            old(self).wf(),
        ensures
            final(self).wf(),
            final(self)@ == old(self)@.set_mode(mode),
            fetch == old(self)@.fetch_for(mode),
    {
        self.mode = mode;
        match mode {
            PromptMode::File => Some(SourceType::File),
            PromptMode::Prompt => {
                let fetch = self.viewer.source();
                if fetch.is_none() {
                    proof {
                        reveal_strlit("\n");
                        assert("\n"@ == seq!['\n']);
                        assert(self.piped.deep_view().take(self.piped.len() as int)
                            == self.piped.deep_view());
                    }
                    let text = join_of(&self.piped, self.piped.len(), "\n");
                    self.set_buffer(split_lines(text.as_str()));
                }
                fetch
            },
            PromptMode::Choose => {
                let mut lines: Vec<String> = Vec::new();
                lines.push(String::from_str("man"));
                lines.push(String::from_str("file"));
                proof {
                    reveal_strlit("man");
                    reveal_strlit("file");
                    assert("man"@ == seq!['m', 'a', 'n']);
                    assert("file"@ == seq!['f', 'i', 'l', 'e']);
                    assert(lines.deep_view() == choices());
                }
                self.set_buffer(lines);
                None
            },
            PromptMode::History => None,
        }
    }

    /// Takes the lines of `text` as the buffer, and pulls the viewport back
    /// into it.
    pub fn load(&mut self, text: &str)
        requires
            old(self).wf(),
        ensures
            final(self).wf(),
            final(self)@ == old(self)@.load(text@),
    {
        self.set_buffer(split_lines(text));
    }

    /// The candidates for completing the selected argument: the words of
    /// the buffer that contain it, stripped to what belongs to a flag or a
    /// path, then, where it looks like a path, those of `entries` that begin
    /// with it.  There is none while the cursor is at the start.
    pub fn candidates(&self, entries: &Vec<String>) -> (hits: Vec<String>)
        requires
            self.wf(),
        ensures
            hits.deep_view() == self@.candidates(entries.deep_view()),
    {
        if self.cursor == 0 {
            let hits: Vec<String> = Vec::new();
            assert(hits.deep_view() == Seq::<Seq<char>>::empty());
            return hits;
        }
        let needle = chars_of(self.argument[self.selected].as_str());
        let mut hits = buffer_hits(&self.buffer, &needle);
        if is_path_like(&needle) {
            path_hits(entries, &needle, &mut hits);
        } else {
            assert(hits.deep_view() + Seq::<Seq<char>>::empty() == hits.deep_view());
        }
        hits
    }

    /// What the first candidate holds beyond the selected argument, if
    /// there is a candidate.
    pub fn show_candidate(&self, entries: &Vec<String>) -> (found: Option<String>)
        requires
            self.wf(),
        ensures
            option_view(found) == self@.candidate(entries.deep_view()),
    {
        let hits = self.candidates(entries);
        if hits.len() > 0 {
            assert(hits.deep_view()[0] == hits@[0]@);
            Some(suffix_of(hits[0].as_str(), self.argument[self.selected].as_str()))
        } else {
            None
        }
    }

    /// The path whose directory holds entries that can complete the
    /// selected argument, with a leading `~` expanded; `None` where the
    /// argument does not look like a path or the cursor is at its start.
    pub fn completion_path(&self) -> (path: Option<String>)
        requires
            self.wf(),
        ensures
            path is Some <==> self@.wants_entries(),
            path matches Some(p) ==> (self@.text()[0] == '.' ==> p@ == self@.text()),
    {
        if self.cursor == 0 {
            return None;
        }
        let needle = chars_of(self.argument[self.selected].as_str());
        if is_path_like(&needle) {
            Some(expand_tilde(self.argument[self.selected].as_str()))
        } else {
            None
        }
    }

    /// Accepts the pending completion: appends it to the selected argument,
    /// moves the cursor to the end, clears the completion and moves the
    /// viewport to the top.
    pub fn completion(&mut self)
        requires
            old(self).wf(),
        ensures
            final(self).wf(),
            final(self)@ == old(self)@.accept(),
    {
        if self.completion.is_none() {
            return ;
        }
        let mut text = self.argument[self.selected].clone();
        match &self.completion {
            Some(suffix) => {
                text.append(suffix.as_str());
            },
            None => {},
        }
        let cursor = len_of(text.as_str());
        proof {
            lemma_boundary_ends(text@);
        }
        self.set_text(text);
        self.cursor = cursor;
        self.completion = None;
        self.pos = 0;
    }

    /// Takes from the records that were read those of the command as the
    /// history, where the history is kept.
    pub fn read_history(&mut self, records: &Vec<History>)
        requires
            old(self).wf(),
        ensures
            final(self).wf(),
            final(self)@ == old(self)@.read_history(records.deep_view()),
    {
        if self.history_path.is_some() {
            self.histories = History::read(&self.command, records);
            proof {
                lemma_replays(self@.command, records.deep_view());
            }
        }
    }

    /// Recalls the most recent invocation that was not recalled yet, if the
    /// history is kept and holds one: its arguments replace the current
    /// ones, and its last argument is selected.
    pub fn history_back(&mut self)
        requires
            old(self).wf(),
        ensures
            final(self).wf(),
            final(self)@ == old(self)@.history_back(),
    {
        if self.history_path.is_some() && self.history_index < self.histories.len() {
            let at = self.histories.len() - 1 - self.history_index;
            let past = self.histories[at].clone();
            assert(past.deep_view() == self@.histories[at as int]) by {
                assert(past@.len() == self.histories@[at as int]@.len());
                assert forall|i: int| 0 <= i < past@.len() implies (#[trigger] past@[i])@
                    == self.histories@[at as int]@[i]@ by {}
            }
            proof {
                lemma_boundary_ends(past.deep_view()[past.len() - 1]);
            }
            self.selected = past.len() - 1;
            self.argument = past;
            self.cursor = 0;
            self.completion = None;
            self.history_index += 1;
        }
    }

    /// The arguments that are not empty, in order.
    fn filled_arguments(&self) -> (args: Vec<String>)
        ensures
            args.deep_view() == non_empty(self@.argument),
    {
        let mut args: Vec<String> = Vec::new();
        let mut i: usize = 0;
        proof {
            reveal(Seq::filter);
            assert(self@.argument.take(0) == Seq::<Seq<char>>::empty());
            assert(args.deep_view() == Seq::<Seq<char>>::empty());
        }
        while i < self.argument.len()
            invariant
                i <= self.argument.len(),
                args.deep_view() == self@.argument.take(i as int).filter(filled()),
            decreases self.argument.len() - i,
        {
            proof {
                let text = self.argument@[i as int]@;
                assert(self@.argument.take(i + 1) == self@.argument.take(i as int).push(text));
                self@.argument.take(i as int).lemma_filter_push(text, filled());
            }
            if len_of(self.argument[i].as_str()) > 0 {
                let ghost done = args.deep_view();
                args.push(self.argument[i].clone());
                assert(args.deep_view() == done.push(self.argument@[i as int]@));
            }
            i = i + 1;
        }
        assert(self@.argument.take(i as int) == self@.argument);
        args
    }

    /// The record that this session leaves in the history, if the history
    /// is kept and an argument was given.
    pub fn write_history(&self) -> (record: Option<History>)
        ensures
            match record {
                Some(r) => self@.record() == Some(r@),
                None => self@.record() is None,
            },
    {
        if self.history_path.is_none() {
            return None;
        }
        let args = self.filled_arguments();
        if args.len() > 0 {
            Some(History { command: self.command.clone(), argument: args })
        } else {
            None
        }
    }

    /// The command line that was composed: the command, and its arguments
    /// that are not empty.
    pub fn full_command(&self) -> (line: (String, Vec<String>))
        ensures
            (line.0@, line.1.deep_view()) == self@.full_command(),
    {
        (self.command.clone(), self.filled_arguments())
    }

    /// The prompt sign, bold.
    pub fn prompt() -> (sign: String)
        ensures
            sign@ == prompt_text(),
    {
        let mut sign = bold();
        sign.append("> ");
        proof {
            reveal_strlit("> ");
            assert("> "@ == seq!['>', ' ']);
        }
        sign.append(reset().as_str());
        sign
    }

    /// The command followed by the first `upto` arguments.
    fn line_parts(&self, upto: usize) -> (parts: Vec<String>)
        requires
            upto <= self@.argument.len(),
        ensures
            parts.deep_view() == seq![self@.command] + self@.argument.take(upto as int),
    {
        let mut parts: Vec<String> = Vec::new();
        parts.push(self.command.clone());
        let mut i: usize = 0;
        assert(parts.deep_view() == seq![self@.command] + self@.argument.take(0));
        while i < upto
            invariant
                i <= upto <= self.argument.len(),
                parts.deep_view() == seq![self@.command] + self@.argument.take(i as int),
            decreases upto - i,
        {
            let ghost done = parts.deep_view();
            parts.push(self.argument[i].clone());
            assert(parts.deep_view() == done.push(self.argument@[i as int]@));
            assert(self@.argument.take(i + 1) == self@.argument.take(i as int).push(
                self.argument@[i as int]@,
            ));
            i = i + 1;
        }
        parts
    }

    /// The input line: the prompt sign, then the command and its arguments
    /// in bold white.
    pub fn show_input(&self) -> (line: String)
        ensures
            line@ == self@.input_line(),
    {
        let parts = self.line_parts(self.argument.len());
        assert(self@.argument.take(self.argument.len() as int) == self@.argument);
        let mut line = Self::prompt();
        line.append(bold().as_str());
        line.append(white().as_str());
        proof {
            reveal_strlit(" ");
            assert(" "@ == seq![' ']);
            assert(parts.deep_view().take(parts.len() as int) == parts.deep_view());
        }
        line.append(join_of(&parts, parts.len(), " ").as_str());
        line.append(reset().as_str());
        line
    }

    /// The number of bytes in front of the selected argument on the input
    /// line, or the largest `u64` where it is beyond that.
    pub fn prompt_len(&self) -> (len: u64)
        requires
            self.wf(),
        ensures
            len == clamped(self@.prompt_len()),
    {
        let parts = self.line_parts(self.selected);
        proof {
            reveal_strlit(" ");
            assert(" "@ == seq![' ']);
            assert(parts.deep_view().take(parts.len() as int) == parts.deep_view());
        }
        let joined = len_of(join_of(&parts, parts.len(), " ").as_str()) as u64;
        if joined > u64::MAX - 3 {
            u64::MAX
        } else {
            joined + 3
        }
    }

    /// The column of the cursor on the input line, counted from one.
    pub fn column(&self) -> (column: u64)
        requires
            self.wf(),
        ensures
            column == self@.column(),
    {
        let len = self.prompt_len();
        let cursor = self.cursor as u64;
        if len == u64::MAX || cursor > u64::MAX - 1 - len {
            u64::MAX
        } else {
            len + cursor + 1
        }
    }

    /// The lines of the panel: the window of the decorated buffer, with the
    /// selected argument highlighted on the line that the viewport starts
    /// at.
    pub fn show_viewer(&self) -> (lines: Vec<String>)
        requires
            self.wf(),
        ensures
            lines.deep_view() == self@.panel(),
    {
        let (start, end) = self.viewpoint();
        let copy = self.buffer.clone();
        assert(copy.deep_view() == self.buffer.deep_view());
        let mut buffer = self.viewer.show(copy);
        assert(buffer.len() == self.buffer.len()) by {
            assert(crate::ui::viewer::decorated(self@.viewer.show_type, self@.buffer).len()
                == self@.buffer.len());
            assert(buffer.deep_view().len() == buffer.len());
        }
        if self.pos < buffer.len() {
            let mut mark = red();
            mark.append(self.argument[self.selected].as_str());
            mark.append(reset().as_str());
            let line = replace(
                buffer[self.pos].as_str(),
                self.argument[self.selected].as_str(),
                mark.as_str(),
            );
            let ghost before = buffer.deep_view();
            let ghost shown = line@;
            buffer.set(self.pos, line);
            assert(buffer.deep_view() == before.update(self.pos as int, shown));
        }
        let mut lines: Vec<String> = Vec::new();
        let mut i: usize = start;
        assert(lines.deep_view() == buffer.deep_view().subrange(start as int, start as int));
        while i < end
            invariant
                start <= i <= end <= buffer.len(),
                lines.deep_view() == buffer.deep_view().subrange(start as int, i as int),
            decreases end - i,
        {
            let ghost done = lines.deep_view();
            lines.push(buffer[i].clone());
            assert(lines.deep_view() == done.push(buffer@[i as int]@));
            i = i + 1;
        }
        lines
    }

    /// The strokes that clear the input line and the panel, and return to
    /// the input line.
    pub fn sweep(&self) -> (ops: Vec<Draw>)
        ensures
            ops.deep_view() == self@.sweep(),
    {
        let mut ops: Vec<Draw> = Vec::new();
        assert(ops.deep_view() == Seq::<Stroke>::empty());
        push_wipe(&mut ops);
        assert(Seq::<Stroke>::empty() + wipe() == wipe());
        let mut i: usize = 0;
        assert(wipe() + wipes(0) == wipe());
        while i < self.size
            invariant
                i <= self.size,
                ops.deep_view() == wipe() + wipes(i as nat),
            decreases self.size - i,
        {
            push_wipe(&mut ops);
            assert((wipe() + wipes(i as nat)) + wipe() == wipe() + wipes((i + 1) as nat));
            i = i + 1;
        }
        let ghost done = ops.deep_view();
        ops.push(Draw::Horizon(1));
        let size = self.size as u64;
        let rows = if size == u64::MAX {
            u64::MAX
        } else {
            size + 1
        };
        ops.push(Draw::Up(rows));
        assert(ops.deep_view() == done + seq![
            Stroke::Horizon(1),
            Stroke::Up(clamped(self@.size + 1)),
        ]);
        ops
    }

    /// One render: the strokes that draw the prompt, and, with a terminal,
    /// the completion that the hint proposes as the pending one.
    pub fn render(&mut self, attached: bool, entries: &Vec<String>) -> (ops: Vec<Draw>)
        requires
            old(self).wf(),
        ensures
            final(self).wf(),
            final(self)@ == old(self)@.rendered(attached, entries.deep_view()),
            ops.deep_view() == old(self)@.strokes(attached, entries.deep_view()),
    {
        let mut ops = self.sweep();
        if !attached {
            return ops;
        }
        let ghost swept = ops.deep_view();
        ops.push(Draw::Write(self.show_input()));
        ops.push(Draw::Down(1));
        ops.push(Draw::Horizon(1));
        let ghost head = ops.deep_view();
        assert(head == swept + seq![
            Stroke::Write(self@.input_line()),
            Stroke::Down(1),
            Stroke::Horizon(1),
        ]);
        let lines = self.show_viewer();
        push_panel(&mut ops, &lines);
        let ghost body = ops.deep_view();
        let column = self.column();
        ops.push(Draw::Up(lines.len() as u64));
        ops.push(Draw::Up(1));
        ops.push(Draw::Horizon(column));
        assert(ops.deep_view() == body + seq![
            Stroke::Up(self@.panel().len()),
            Stroke::Up(1),
            Stroke::Horizon(self@.column()),
        ]);
        assert(ops.deep_view() == swept + self@.picture());
        let found = self.show_candidate(entries);
        let ghost drawn = ops.deep_view();
        match &found {
            Some(suffix) => {
                let mut text = blue();
                text.append(suffix.as_str());
                text.append(reset().as_str());
                assert(text@ == hint(suffix@));
                ops.push(Draw::Horizon(column));
                ops.push(Draw::Write(text));
                ops.push(Draw::Horizon(column));
                assert(ops.deep_view() == drawn + self@.hint_strokes(entries.deep_view()));
            },
            None => {
                assert(drawn + self@.hint_strokes(entries.deep_view()) == drawn);
            },
        }
        self.completion = found;
        ops
    }

    /// One render on the terminal as it is found: see [`Prompt::render`]
    /// for what is drawn with a terminal and what without.
    pub fn show(&mut self, entries: &Vec<String>) -> (ops: Vec<Draw>)
        requires
            old(self).wf(),
        ensures
            final(self).wf(),
            exists|attached: bool|
                final(self)@ == old(self)@.rendered(attached, entries.deep_view())
                    && ops.deep_view() == old(self)@.strokes(attached, entries.deep_view()),
    {
        let attached = terminal_size().is_some();
        self.render(attached, entries)
    }

    /// Enters `mode` and asks for what it shows.
    fn switch(&mut self, mode: PromptMode) -> (action: Action)
        requires
            old(self).wf(),
        ensures
            final(self).wf(),
            (final(self)@, action) == old(self)@.switch(mode),
    {
        match self.set_mode(mode) {
            Some(source) => Action::Fetch(source),
            None => Action::Continue,
        }
    }

    /// The enter key, as the current mode takes it.
    fn enter(&mut self) -> (action: Action)
        requires
            old(self).wf(),
        ensures
            final(self).wf(),
            (final(self)@, action) == old(self)@.enter(),
    {
        match self.mode {
            PromptMode::Choose => {
                proof {
                    reveal_strlit("man");
                    reveal_strlit("file");
                    assert("man"@ == seq!['m', 'a', 'n']);
                    assert("file"@ == seq!['f', 'i', 'l', 'e']);
                }
                if self.argument[self.selected] == String::from_str("man") {
                    self.switch(PromptMode::Prompt)
                } else if self.argument[self.selected] == String::from_str("file") {
                    self.switch(PromptMode::File)
                } else {
                    Action::Continue
                }
            },
            PromptMode::Prompt => {
                if self.cursor > 0 {
                    self.append();
                    Action::Continue
                } else if self.is_last() {
                    Action::Exit
                } else {
                    Action::Continue
                }
            },
            PromptMode::File => {
                let line = self.current_buffer_line();
                self.append_argument(line);
                self.append();
                Action::Continue
            },
            PromptMode::History => {
                self.append();
                Action::Continue
            },
        }
    }

    /// Applies one event, and tells the caller what to do before the next:
    /// render and go on, fetch a reference text first, or leave the loop.
    pub fn dispatch(&mut self, event: Event) -> (action: Action)
        requires
            old(self).wf(),
        ensures
            final(self).wf(),
            (final(self)@, action) == old(self)@.dispatch(event),
    {
        match event {
            Event::Quit => {
                self.quit();
                return Action::Exit;
            },
            Event::Enter => {
                return self.enter();
            },
            Event::ReadLine(line) => {
                self.insert_line(line);
            },
            Event::Key(ch) => {
                match self.mode {
                    PromptMode::Prompt | PromptMode::File => {
                        if ch == ' ' {
                            self.append();
                        } else {
                            self.insert(ch);
                        }
                    },
                    _ => {},
                }
            },
            Event::Backspace => {
                self.backspace();
            },
            Event::Delete => {
                self.delete();
            },
            Event::Tab => {
                self.completion();
            },
            Event::Up => {
                self.up();
            },
            Event::Down => {
                self.down();
            },
            Event::Left => {
                self.select_back();
            },
            Event::Right => {
                self.select_forward();
            },
            Event::Next => {
                self.next();
            },
            Event::Prev => {
                self.prev();
            },
            Event::Forward => {
                self.cursor_forward();
            },
            Event::Back => {
                self.cursor_back();
            },
            Event::Fn1 => {
                self.viewer.toggle_show_type(ShowType::LineNumber);
            },
            Event::Fn2 => {
                self.incr_size();
            },
            Event::Fn3 => {
                self.decr_size();
            },
            Event::History => {
                let _ = self.set_mode(PromptMode::History);
                self.history_back();
            },
            Event::MoveTo(n) => {
                if n == 0 {
                    self.beginning_of_line();
                } else if n < 0 {
                    self.end_of_line();
                }
            },
        }
        Action::Continue
    }
}

} // verus!
