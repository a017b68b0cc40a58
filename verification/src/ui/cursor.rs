//! What a render asks of the terminal: cursor movements, clearing, and text.
use vstd::prelude::*;

verus! {

/// One step of drawing, to be carried out on the terminal in order.
#[derive(Clone, PartialEq, Eq, Debug)]
pub enum Draw {
    /// Move the cursor to the given column of its line, counted from one.
    Horizon(u64),
    /// Move the cursor up by the given number of lines.
    Up(u64),
    /// Move the cursor down by the given number of lines.
    Down(u64),
    /// Clear the line that the cursor is on.
    ClearLine,
    /// Write the text at the cursor.
    Write(String),
}

/// What a [`Draw`] stands for.
pub enum Stroke {
    Horizon(nat),
    Up(nat),
    Down(nat),
    ClearLine,
    Write(Seq<char>),
}

impl View for Draw {
    type V = Stroke;

    open spec fn view(&self) -> Stroke {
        match self {
            Draw::Horizon(n) => Stroke::Horizon(*n as nat),
            Draw::Up(n) => Stroke::Up(*n as nat),
            Draw::Down(n) => Stroke::Down(*n as nat),
            Draw::ClearLine => Stroke::ClearLine,
            Draw::Write(text) => Stroke::Write(text@),
        }
    }
}

impl DeepView for Draw {
    type V = Stroke;

    open spec fn deep_view(&self) -> Stroke {
        self@
    }
}

/// The strokes that clear one line and go on to the next: to the first
/// column, clear, line feed.
pub open spec fn wipe() -> Seq<Stroke> {
    seq![Stroke::Horizon(1), Stroke::ClearLine, Stroke::Write(seq!['\n'])]
}

/// `wipe`, `n` times over.
pub open spec fn wipes(n: nat) -> Seq<Stroke>
    decreases n,
{
    if n == 0 {
        Seq::<Stroke>::empty()
    } else {
        wipes((n - 1) as nat) + wipe()
    }
}

/// The strokes that write one line of the panel and go to the start of the
/// next.
pub open spec fn line_strokes(line: Seq<char>) -> Seq<Stroke> {
    seq![Stroke::Write(line), Stroke::Down(1), Stroke::Horizon(1)]
}

/// The strokes that write the given lines, one below the other.
pub open spec fn panel_strokes(lines: Seq<Seq<char>>) -> Seq<Stroke>
    decreases lines.len(),
{
    if lines.len() == 0 {
        Seq::<Stroke>::empty()
    } else {
        panel_strokes(lines.drop_last()) + line_strokes(lines.last())
    }
}

/// `terminal_size::terminal_size`: the columns and rows of the terminal on
/// standard output, or `None` where standard output is no terminal or its
/// size cannot be had.
#[verifier::external_body]
pub(crate) fn terminal_size() -> (size: Option<(u16, u16)>) {
    match terminal_size::terminal_size() {
        Some((terminal_size::Width(w), terminal_size::Height(h))) => Some((w, h)),
        None => None,
    }
}

/// Appends the strokes that clear one line to `ops`.
pub(crate) fn push_wipe(ops: &mut Vec<Draw>)
    ensures
        final(ops).deep_view() == old(ops).deep_view() + wipe(),
{
    let ghost start = ops.deep_view();
    ops.push(Draw::Horizon(1));
    ops.push(Draw::ClearLine);
    let mut feed = String::new();
    crate::text::push_char(&mut feed, '\n');
    assert(feed@ == seq!['\n']);
    ops.push(Draw::Write(feed));
    assert(ops.deep_view() == start + wipe());
}

/// Appends the strokes that write `lines` one below the other to `ops`.
pub(crate) fn push_panel(ops: &mut Vec<Draw>, lines: &Vec<String>)
    ensures
        final(ops).deep_view() == old(ops).deep_view() + panel_strokes(lines.deep_view()),
{
    let ghost start = ops.deep_view();
    let mut i: usize = 0;
    proof {
        assert(lines.deep_view().take(0) == Seq::<Seq<char>>::empty());
        assert(start + Seq::<Stroke>::empty() == start);
    }
    while i < lines.len()
        invariant
            i <= lines.len(),
            ops.deep_view() == start + panel_strokes(lines.deep_view().take(i as int)),
        decreases lines.len() - i,
    {
        let ghost done = ops.deep_view();
        proof {
            let next = lines.deep_view().take(i + 1);
            assert(next.drop_last() == lines.deep_view().take(i as int));
            assert(next.last() == lines@[i as int]@);
        }
        ops.push(Draw::Write(lines[i].clone()));
        ops.push(Draw::Down(1));
        ops.push(Draw::Horizon(1));
        assert(ops.deep_view() == done + line_strokes(lines@[i as int]@));
        i = i + 1;
    }
    assert(lines.deep_view().take(i as int) == lines.deep_view());
}

} // verus!
