//! Laws of the prompt, over its states.
use crate::event::Event;
use crate::text::{
    byte_len, char_width, lemma_boundary, lemma_boundary_concat, lemma_boundary_ends,
    lemma_byte_len_push, lemma_contains_empty, lemma_index_at, lemma_offset_step,
};
use crate::ui::history::{lemma_replays, Record};
use crate::ui::state::{first_match, lemma_first_match, lemma_last_match, PromptState};
use vstd::prelude::*;

verus! {

/// Inserting keeps the invariant, and leaves the inserted character in
/// front of the cursor.
pub proof fn law_insert(st: PromptState, c: char)
    requires
        st.wf(),
    ensures
        st.insert(c).wf(),
        st.insert(c).head() == st.head().push(c),
        st.insert(c).tail() == st.tail(),
        st.insert(c).text() == st.head() + seq![c] + st.tail(),
        st.insert(c).selected == st.selected,
{
    let head = st.head();
    let tail = st.tail();
    lemma_boundary(st.text(), st.cursor as int);
    lemma_byte_len_push(head, c);
    assert(head.push(c) == head + seq![c]);
    lemma_boundary_concat(head + seq![c], tail);
    let edited = st.with_text(head + seq![c] + tail).moved(
        st.selected,
        st.cursor + char_width(c),
    );
    lemma_first_match(edited.buffer, edited.text(), 0);
}

/// Inserting a character and removing it again with backspace restores the
/// arguments, the selection and the cursor.
pub proof fn law_insert_backspace(st: PromptState, c: char)
    requires
        st.wf(),
    ensures
        st.insert(c).backspace().argument == st.argument,
        st.insert(c).backspace().selected == st.selected,
        st.insert(c).backspace().cursor == st.cursor,
{
    law_insert(st, c);
    let typed = st.insert(c);
    lemma_boundary(st.text(), st.cursor as int);
    assert(typed.head().drop_last() == st.head());
    assert(typed.head().last() == c);
    assert(st.head() + st.tail() == st.text());
    assert(typed.argument.update(typed.selected as int, st.text()) == st.argument);
}

/// Backspace keeps the invariant.
pub proof fn law_backspace(st: PromptState)
    requires
        st.wf(),
    ensures
        st.backspace().wf(),
        st.backspace().cursor <= st.cursor,
{
    if st.head().len() > 0 {
        let head = st.head();
        lemma_boundary(st.text(), st.cursor as int);
        assert(head == head.drop_last().push(head.last()));
        lemma_byte_len_push(head.drop_last(), head.last());
        lemma_boundary_concat(head.drop_last(), st.tail());
        let edited = st.with_text(head.drop_last() + st.tail()).moved(
            st.selected,
            (st.cursor - char_width(head.last())) as nat,
        );
        lemma_first_match(edited.buffer, edited.text(), 0);
    }
}

/// Delete keeps the invariant and the cursor.
pub proof fn law_delete(st: PromptState)
    requires
        st.wf(),
    ensures
        st.delete().wf(),
        st.delete().cursor == st.cursor,
{
    if st.tail().len() > 0 {
        lemma_boundary(st.text(), st.cursor as int);
        lemma_boundary_concat(st.head(), st.tail().drop_first());
        let edited = st.with_text(st.head() + st.tail().drop_first());
        lemma_first_match(edited.buffer, edited.text(), 0);
    }
}

/// Where the selection can move forward, moving it forward and back again
/// returns to the argument that was selected, and the cursor is at the
/// start after either move.
pub proof fn law_select_forward_back(st: PromptState)
    requires
        st.wf(),
        st.selected + 1 < st.argument.len(),
    ensures
        st.select_forward().cursor == 0,
        st.select_forward().select_back().selected == st.selected,
        st.select_forward().select_back().cursor == 0,
        st.select_forward().wf(),
        st.select_forward().select_back().wf(),
{
    lemma_boundary_ends(st.argument[st.selected as int + 1]);
    lemma_boundary_ends(st.argument[st.selected as int]);
}

/// Where the selection can move back, moving it back and forward again
/// returns to the argument that was selected, and the cursor is at the
/// start after either move.
pub proof fn law_select_back_forward(st: PromptState)
    requires
        st.wf(),
        st.selected > 0,
    ensures
        st.select_back().cursor == 0,
        st.select_back().select_forward().selected == st.selected,
        st.select_back().select_forward().cursor == 0,
        st.select_back().wf(),
        st.select_back().select_forward().wf(),
{
    lemma_boundary_ends(st.argument[st.selected - 1]);
    lemma_boundary_ends(st.argument[st.selected as int]);
}

/// The cursor never leaves the selected argument: moving it forward keeps
/// it at or before the end, moving it back keeps it at or behind the start,
/// and both keep it between two characters.
pub proof fn law_cursor_bounds(st: PromptState)
    requires
        st.wf(),
    ensures
        st.cursor_forward().wf(),
        st.cursor <= st.cursor_forward().cursor <= byte_len(st.text()),
        st.cursor_back().wf(),
        0 <= st.cursor_back().cursor <= st.cursor,
{
    let text = st.text();
    let i = crate::text::index_at(text, st.cursor as int);
    lemma_boundary(text, st.cursor as int);
    if st.tail().len() > 0 {
        lemma_offset_step(text, i);
        lemma_index_at(text, i + 1);
        lemma_boundary(text, (st.cursor + char_width(text[i])) as int);
        assert(st.tail()[0] == text[i]);
    }
    if st.head().len() > 0 {
        lemma_offset_step(text, i - 1);
        lemma_index_at(text, i - 1);
        assert(st.head().last() == text[i - 1]);
    }
}

/// The window that is shown lies within the buffer and is as long as the
/// viewport is high, or as the buffer is long where that is shorter.
pub proof fn law_window(st: PromptState)
    requires
        st.wf(),
    ensures
        0 <= st.window().0 <= st.window().1 <= st.buffer.len(),
        st.size <= st.buffer.len() ==> st.window().1 - st.window().0 == st.size,
        st.size > st.buffer.len() ==> st.window() == (0nat, st.buffer.len()),
{
}

/// The empty argument is found on the first line of every buffer that has
/// a line.
pub proof fn law_find_empty(lines: Seq<Seq<char>>, needle: Seq<char>)
    requires
        needle.len() == 0,
        lines.len() > 0,
    ensures
        first_match(lines, needle, 0) == Some(0int),
{
    assert(needle == Seq::<char>::empty());
    lemma_contains_empty(lines[0]);
}

/// Accepting the completion that a render proposed appends it to the
/// selected argument and puts the cursor at its end.
pub proof fn law_completion(st: PromptState, entries: Seq<Seq<char>>, s: Seq<char>)
    requires
        st.wf(),
        st.candidate(entries) == Some(s),
    ensures
        st.rendered(true, entries).accept().text() == st.text() + s,
        st.rendered(true, entries).accept().cursor == byte_len(st.text() + s),
        st.rendered(true, entries).accept().completion is None,
        st.rendered(true, entries).accept().wf(),
{
    lemma_boundary_ends(st.text() + s);
}

/// Opening the next argument keeps the invariant.
pub proof fn law_append(st: PromptState)
    requires
        st.wf(),
    ensures
        st.append().wf(),
        st.append().selected == st.selected + 1,
        st.append().cursor == 0,
{
    lemma_boundary_ends(st.append().text());
}

/// Accepting the pending completion keeps the invariant.
pub proof fn law_accept(st: PromptState)
    requires
        st.wf(),
    ensures
        st.accept().wf(),
{
    if let Some(suffix) = st.completion {
        lemma_boundary_ends(st.text() + suffix);
    }
}

/// Entering a mode and loading a text keep the invariant.
pub proof fn law_set_mode(st: PromptState)
    requires
        st.wf(),
    ensures
        forall|mode: crate::ui::prompt::PromptMode| (#[trigger] st.set_mode(mode)).wf(),
        forall|text: Seq<char>| (#[trigger] st.load(text)).wf(),
{
}

/// The jumps keep the invariant: to the end of the last argument, and
/// behind the first character of the first.
pub proof fn law_jumps(st: PromptState)
    requires
        st.wf(),
    ensures
        st.end_of_line().wf(),
        st.end_of_line().selected == st.argument.len() - 1,
        st.end_of_line().cursor == byte_len(st.argument[st.argument.len() - 1]),
        st.beginning_of_line().wf(),
        st.beginning_of_line().selected == 0,
{
    lemma_boundary_ends(st.argument[st.argument.len() - 1]);
    let first = st.argument[0];
    lemma_boundary_ends(first);
    if first.len() > 0 {
        lemma_offset_step(first, 0);
        lemma_index_at(first, 1);
    }
}

/// Every event keeps the invariant: among other things the viewport stays
/// within the buffer, the selection within the arguments and the cursor
/// within the selected argument.
pub proof fn law_dispatch(st: PromptState, event: Event)
    requires
        st.wf(),
    ensures
        st.dispatch(event).0.wf(),
{
    match event {
        Event::Key(c) => {
            law_insert(st, c);
            law_append(st);
        },
        Event::Backspace => {
            law_backspace(st);
        },
        Event::Delete => {
            law_delete(st);
        },
        Event::Tab => {
            law_accept(st);
        },
        Event::Enter => {
            law_append(st);
            law_set_mode(st);
            let taken = st.append_argument(st.current_buffer_line());
            lemma_boundary_ends(st.current_buffer_line());
            law_append(taken);
        },
        Event::Left => {
            if st.selected > 0 {
                law_select_back_forward(st);
            }
        },
        Event::Right => {
            if st.selected + 1 < st.argument.len() {
                law_select_forward_back(st);
            }
        },
        Event::Next => {
            lemma_first_match(st.buffer, st.text(), st.pos as int + 1);
        },
        Event::Prev => {
            lemma_last_match(st.buffer, st.text(), st.pos as int);
        },
        Event::Forward => {
            law_cursor_bounds(st);
        },
        Event::Back => {
            law_cursor_bounds(st);
        },
        Event::History => {
            let recalled = PromptState { mode: crate::ui::prompt::PromptMode::History, ..st };
            if recalled.recallable() {
                let past = st.histories[st.histories.len() - 1 - st.history_index];
                lemma_boundary_ends(past[past.len() - 1]);
            }
        },
        Event::MoveTo(n) => {
            law_jumps(st);
        },
        _ => {},
    }
}

/// What is done to a prompt between the events keeps the invariant too:
/// reading the history, taking a line of the buffer as the argument, and
/// rendering.
pub proof fn law_between_events(
    st: PromptState,
    records: Seq<Record>,
    line: Seq<char>,
    attached: bool,
    entries: Seq<Seq<char>>,
)
    requires
        st.wf(),
    ensures
        st.read_history(records).wf(),
        st.append_argument(line).wf(),
        st.rendered(attached, entries).wf(),
{
    lemma_replays(st.command, records);
    lemma_boundary_ends(line);
}

} // verus!
