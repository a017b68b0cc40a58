use man_with::event::{Action, Event};
use man_with::ui::prompt::{Prompt, PromptMode};
use man_with::ui::viewer::{ShowType, SourceType};

fn strings(items: &[&str]) -> Vec<String> {
    items.iter().map(|s| s.to_string()).collect()
}

fn keys(prompt: &mut Prompt, text: &str) {
    for c in text.chars() {
        assert_eq!(Action::Continue, prompt.dispatch(Event::Key(c)));
    }
}

#[test]
fn keys_compose_arguments() {
    let mut prompt = Prompt::new("diff", 10, false, false, None, "x\n-q");
    keys(&mut prompt, "-q a");
    assert_eq!(strings(&["-q", "a"]), prompt.argument);
    assert_eq!(1, prompt.selected());
    assert_eq!(1, prompt.cursor);
}

#[test]
fn keys_are_ignored_while_choosing_or_replaying() {
    let mut prompt = Prompt::new("diff", 10, false, false, None, "");
    prompt.set_mode(PromptMode::Choose);
    keys(&mut prompt, "a b");
    assert_eq!(strings(&[""]), prompt.argument);
    prompt.set_mode(PromptMode::History);
    keys(&mut prompt, "a b");
    assert_eq!(strings(&[""]), prompt.argument);
    prompt.set_mode(PromptMode::File);
    keys(&mut prompt, "a b");
    assert_eq!(strings(&["a", "b"]), prompt.argument);
}

#[test]
fn quit_leaves_the_loop() {
    let mut prompt = Prompt::new("diff", 10, false, false, None, "");
    keys(&mut prompt, "a");
    assert_eq!(Action::Exit, prompt.dispatch(Event::Quit));
    assert_eq!(strings(&["a"]), prompt.argument);
}

#[test]
fn enter_in_prompt_mode() {
    let mut prompt = Prompt::new("diff", 10, false, false, None, "");
    keys(&mut prompt, "a");
    assert_eq!(Action::Continue, prompt.dispatch(Event::Enter));
    assert_eq!(strings(&["a", ""]), prompt.argument);
    assert_eq!(1, prompt.selected());
    prompt.dispatch(Event::Left);
    assert_eq!(0, prompt.cursor);
    assert_eq!(Action::Continue, prompt.dispatch(Event::Enter));
    assert_eq!(0, prompt.selected());
    prompt.dispatch(Event::Right);
    assert_eq!(Action::Exit, prompt.dispatch(Event::Enter));
    assert_eq!(strings(&["a", ""]), prompt.argument);
}

#[test]
fn enter_in_choose_mode_takes_the_choice() {
    let mut prompt = Prompt::new("diff", 10, true, false, None, "");
    keys(&mut prompt, "man");
    prompt.set_mode(PromptMode::Choose);
    assert_eq!(Action::Fetch(SourceType::Help), prompt.dispatch(Event::Enter));
    assert_eq!(PromptMode::Prompt, prompt.mode);

    let mut files = Prompt::new("diff", 10, false, false, None, "");
    keys(&mut files, "file");
    files.set_mode(PromptMode::Choose);
    assert_eq!(Action::Fetch(SourceType::File), files.dispatch(Event::Enter));
    assert_eq!(PromptMode::File, files.mode);

    let mut other = Prompt::new("diff", 10, false, false, None, "");
    keys(&mut other, "fil");
    other.set_mode(PromptMode::Choose);
    assert_eq!(Action::Continue, other.dispatch(Event::Enter));
    assert_eq!(PromptMode::Choose, other.mode);

    let mut piped = Prompt::new("diff", 10, false, true, None, "");
    keys(&mut piped, "man");
    piped.dispatch(Event::ReadLine("one".to_string()));
    piped.set_mode(PromptMode::Choose);
    assert_eq!(Action::Continue, piped.dispatch(Event::Enter));
    assert_eq!(PromptMode::Prompt, piped.mode);
    assert_eq!(&strings(&["one"]), piped.lines());
}

#[test]
fn enter_in_file_mode_takes_the_line() {
    let mut prompt = Prompt::new("cat", 10, false, false, None, "");
    prompt.set_mode(PromptMode::File);
    prompt.load("./a\n./b\n./c");
    prompt.dispatch(Event::Down);
    assert_eq!(Action::Continue, prompt.dispatch(Event::Enter));
    assert_eq!(strings(&["./b", ""]), prompt.argument);
    assert_eq!(1, prompt.selected());
    assert_eq!(0, prompt.cursor);
    keys(&mut prompt, "c");
    assert_eq!(2, prompt.position());
    prompt.dispatch(Event::Enter);
    assert_eq!(strings(&["./b", "./c", ""]), prompt.argument);
}

#[test]
fn enter_in_history_mode_opens_the_next_argument() {
    let mut prompt = Prompt::new("cat", 10, false, false, None, "");
    prompt.set_mode(PromptMode::History);
    assert_eq!(Action::Continue, prompt.dispatch(Event::Enter));
    assert_eq!(strings(&["", ""]), prompt.argument);
    assert_eq!(1, prompt.selected());
}

#[test]
fn editing_events() {
    let mut prompt = Prompt::new("diff", 10, false, false, None, "");
    keys(&mut prompt, "abc");
    prompt.dispatch(Event::Back);
    assert_eq!(2, prompt.cursor);
    prompt.dispatch(Event::Backspace);
    assert_eq!(strings(&["ac"]), prompt.argument);
    prompt.dispatch(Event::Delete);
    assert_eq!(strings(&["a"]), prompt.argument);
    prompt.dispatch(Event::Back);
    prompt.dispatch(Event::Forward);
    assert_eq!(1, prompt.cursor);
    prompt.completion = Some("bc".to_string());
    prompt.dispatch(Event::Tab);
    assert_eq!(strings(&["abc"]), prompt.argument);
    assert_eq!(3, prompt.cursor);
}

#[test]
fn viewport_events() {
    let mut prompt = Prompt::new("diff", 10, false, false, None, "-a\nx\n-b");
    keys(&mut prompt, "-");
    prompt.dispatch(Event::Next);
    assert_eq!(2, prompt.position());
    prompt.dispatch(Event::Prev);
    assert_eq!(0, prompt.position());
    prompt.dispatch(Event::Down);
    assert_eq!(1, prompt.position());
    prompt.dispatch(Event::Up);
    assert_eq!(0, prompt.position());
    prompt.dispatch(Event::ReadLine("-c".to_string()));
    assert_eq!(4, prompt.lines().len());
}

#[test]
fn function_keys() {
    let mut prompt = Prompt::new("diff", 10, false, false, None, "");
    prompt.dispatch(Event::Fn1);
    assert_eq!(ShowType::LineNumber, prompt.viewer.show_type());
    prompt.dispatch(Event::Fn1);
    assert_eq!(ShowType::Normal, prompt.viewer.show_type());
    prompt.dispatch(Event::Fn2);
    assert_eq!(11, prompt.size());
    prompt.dispatch(Event::Fn3);
    prompt.dispatch(Event::Fn3);
    assert_eq!(9, prompt.size());
}

#[test]
fn jumps() {
    let mut prompt = Prompt::new("diff", 10, false, false, None, "");
    keys(&mut prompt, "ab cde");
    prompt.dispatch(Event::MoveTo(0));
    assert_eq!(0, prompt.selected());
    assert_eq!(1, prompt.cursor);
    prompt.dispatch(Event::MoveTo(7));
    assert_eq!(0, prompt.selected());
    assert_eq!(1, prompt.cursor);
    prompt.dispatch(Event::MoveTo(-1));
    assert_eq!(1, prompt.selected());
    assert_eq!(3, prompt.cursor);
}
