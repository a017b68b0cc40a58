//! The reference text: where it comes from and how its lines are decorated.
use crate::text::{decimal, decimal_of};
use vstd::prelude::*;
use vstd::string::*;

verus! {

/// Where the reference text comes from.
#[derive(Clone, Copy, PartialEq, Eq, Structural, Debug)]
pub enum SourceType {
    /// The command's manual page.
    Man,
    /// What the command prints for `--help`.
    Help,
    /// The lines piped into standard input.
    Stdin,
    /// A recursive listing of the file system.
    File,
}

/// How the lines of the reference text are decorated.
#[derive(Clone, Copy, PartialEq, Eq, Structural, Debug)]
pub enum ShowType {
    /// The lines as they are.
    Normal,
    /// Each line behind its number, counted from one.
    LineNumber,
}

/// What a [`Viewer`] stands for.
pub struct ViewerState {
    pub source_type: SourceType,
    pub show_type: ShowType,
    pub command: Seq<char>,
}

/// The provider of the reference text of one command.
#[derive(Clone)]
pub struct Viewer {
    source_type: SourceType,
    show_type: ShowType,
    command: String,
}

impl View for Viewer {
    type V = ViewerState;

    closed spec fn view(&self) -> ViewerState {
        ViewerState {
            source_type: self.source_type,
            show_type: self.show_type,
            command: self.command@,
        }
    }
}

/// The kind of source that the two switches choose: piped input goes first,
/// then the help text, else the manual page.
pub open spec fn chosen_source(stdin: bool, help: bool) -> SourceType {
    if stdin {
        SourceType::Stdin
    } else if help {
        SourceType::Help
    } else {
        SourceType::Man
    }
}

/// Line `i` behind its number `i + 1` and one space.
pub open spec fn numbered_line(i: int, line: Seq<char>) -> Seq<char> {
    decimal((i + 1) as nat) + seq![' '] + line
}

/// The lines, each behind its number.
pub open spec fn numbered(lines: Seq<Seq<char>>) -> Seq<Seq<char>> {
    Seq::new(lines.len(), |i: int| numbered_line(i, lines[i]))
}

/// The lines as `show` decorates them.
pub open spec fn decorated(show: ShowType, lines: Seq<Seq<char>>) -> Seq<Seq<char>> {
    match show {
        ShowType::LineNumber => numbered(lines),
        ShowType::Normal => lines,
    }
}

/// The decoration after a request to toggle `typ`: asking for the current
/// one switches back to normal.
pub open spec fn toggled(show: ShowType, typ: ShowType) -> ShowType {
    if show == typ {
        ShowType::Normal
    } else {
        typ
    }
}

/// What has to be fetched for a source: nothing for piped input, which
/// arrives line by line.
pub open spec fn to_fetch(source: SourceType) -> Option<SourceType> {
    match source {
        SourceType::Stdin => None,
        other => Some(other),
    }
}

impl SourceType {
    /// The kind of source that the two switches choose.
    pub fn choose_from(stdin: bool, help: bool) -> (kind: SourceType)
        ensures
            kind == chosen_source(stdin, help),
    {
        if stdin {
            SourceType::Stdin
        } else if help {
            SourceType::Help
        } else {
            SourceType::Man
        }
    }
}

impl Viewer {
    /// A viewer of `command` from the given source, undecorated.
    pub fn new(command: &str, source_type: SourceType) -> (viewer: Viewer)
        ensures
            viewer@ == (ViewerState {
                source_type,
                show_type: ShowType::Normal,
                command: command@,
            }),
    {
        Viewer { source_type, show_type: ShowType::Normal, command: String::from_str(command) }
    }

    /// The source that the caller has to run or read to obtain the reference
    /// text, or `None` where the text is what was piped in.
    pub fn source(&self) -> (fetch: Option<SourceType>)
        ensures
            fetch == to_fetch(self@.source_type),
    {
        match self.source_type {
            SourceType::Man => Some(SourceType::Man),
            SourceType::Help => Some(SourceType::Help),
            SourceType::File => Some(SourceType::File),
            SourceType::Stdin => None,
        }
    }

    /// The command whose reference text is shown.
    pub fn command(&self) -> (command: &String)
        ensures
            command@ == self@.command,
    {
        &self.command
    }

    /// The current decoration.
    pub fn show_type(&self) -> (show: ShowType)
        ensures
            show == self@.show_type,
    {
        self.show_type
    }

    /// The lines of `buffer` under the current decoration.
    pub fn show(&self, buffer: Vec<String>) -> (lines: Vec<String>)
        ensures
            lines.deep_view() == decorated(self@.show_type, buffer.deep_view()),
    {
        match self.show_type {
            ShowType::LineNumber => {
                let mut lines: Vec<String> = Vec::new();
                let mut i: usize = 0;
                while i < buffer.len()
                    invariant
                        i <= buffer.len(),
                        lines.len() == i,
                        forall|j: int|
                            0 <= j < i ==> (#[trigger] lines@[j])@ == numbered_line(
                                j,
                                buffer@[j]@,
                            ),
                    decreases buffer.len() - i,
                {
                    let mut line = decimal_of(i + 1);
                    line.append(" ");
                    proof {
                        reveal_strlit(" ");
                        assert(" "@ == seq![' ']);
                    }
                    line.append(buffer[i].as_str());
                    lines.push(line);
                    i = i + 1;
                }
                assert(lines.deep_view() == numbered(buffer.deep_view()));
                lines
            },
            ShowType::Normal => buffer,
        }
    }

    /// Switches the decoration `typ` on, or back to normal where it is on.
    pub fn toggle_show_type(&mut self, typ: ShowType)
        ensures
            final(self)@ == (ViewerState {
                show_type: toggled(old(self)@.show_type, typ),
                ..old(self)@
            }),
    {
        self.show_type = if self.show_type == typ {
            ShowType::Normal
        } else {
            typ
        };
    }
}

} // verus!
