//! A prompt engine for composing a command line beside its reference text.
//!
//! The user edits the arguments of a command while a panel below the input
//! line shows the manual page, the help text, piped input or a listing of
//! files, scrolled to the first line that contains what is being typed.
//!
//! [`ui::prompt::Prompt`] holds the state and offers the operations;
//! [`ui::state::PromptState`] says what each of them does.  Events reach
//! the prompt through [`ui::prompt::Prompt::dispatch`], and a render comes
//! back from [`ui::prompt::Prompt::show`] as a list of
//! [`ui::cursor::Draw`] for the caller to carry out on the terminal.
//! Reading keys, files and the output of other programs is left to the
//! caller.
pub mod event;
pub mod text;
pub mod ui;
