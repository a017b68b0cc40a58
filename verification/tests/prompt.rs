use man_with::ui::prompt::{Prompt, PromptMode};
use man_with::ui::viewer::{ShowType, SourceType};

fn strings(items: &[&str]) -> Vec<String> {
    items.iter().map(|s| s.to_string()).collect()
}

fn prompt_over(source: &str) -> Prompt {
    Prompt::new("diff", 10, false, false, None, source)
}

fn typed(prompt: &mut Prompt, text: &str) {
    for c in text.chars() {
        prompt.insert(c);
    }
}

#[test]
fn end_of_line() {
    let mut prompt = Prompt::new(&"diff".to_owned(), 10, false, false, None, "");

    prompt.argument.push("abc".to_string());
    prompt.end_of_line();

    assert_eq!(3, prompt.cursor)
}

#[test]
fn new_prompt_is_empty() {
    let prompt = Prompt::new("diff", 7, true, false, Some("h.json".to_string()), "a\nb\n");
    assert_eq!("diff", prompt.command);
    assert_eq!(strings(&[""]), prompt.argument);
    assert_eq!(0, prompt.cursor);
    assert_eq!(0, prompt.selected());
    assert_eq!(None, prompt.completion);
    assert_eq!(PromptMode::Prompt, prompt.mode);
    assert_eq!(&PromptMode::Prompt, prompt.get_mode());
    assert_eq!(&strings(&["a", "b", ""]), prompt.lines());
    assert_eq!(0, prompt.position());
    assert_eq!(7, prompt.size());
    assert_eq!(&Some("h.json".to_string()), prompt.history_path());
    assert_eq!(Some(SourceType::Help), prompt.viewer.source());
    assert_eq!(ShowType::Normal, prompt.viewer.show_type());
    assert!(prompt.is_last());
}

#[test]
fn new_prompt_chooses_its_source() {
    assert_eq!(None, Prompt::new("x", 1, true, true, None, "").viewer.source());
    assert_eq!(Some(SourceType::Man), Prompt::new("x", 1, false, false, None, "").viewer.source());
}

#[test]
fn end_of_line_selects_the_last_argument() {
    let mut prompt = prompt_over("");
    prompt.argument.push("abc".to_string());
    prompt.end_of_line();
    assert_eq!(3, prompt.cursor);
    assert_eq!(prompt.argument.len() - 1, prompt.selected());
}

#[test]
fn beginning_of_line_selects_the_first_argument() {
    let mut prompt = prompt_over("");
    typed(&mut prompt, "ab");
    prompt.append();
    typed(&mut prompt, "cd");
    prompt.beginning_of_line();
    assert_eq!(0, prompt.selected());
    assert_eq!(1, prompt.cursor);
}

#[test]
fn beginning_of_line_stays_within_the_argument() {
    let mut prompt = prompt_over("");
    prompt.beginning_of_line();
    assert_eq!(0, prompt.cursor);
    typed(&mut prompt, "越x");
    prompt.beginning_of_line();
    assert_eq!(3, prompt.cursor);
}

#[test]
fn insert_at_the_cursor() {
    let mut prompt = prompt_over("");
    typed(&mut prompt, "ac");
    prompt.cursor_back();
    prompt.insert('b');
    assert_eq!(strings(&["abc"]), prompt.argument);
    assert_eq!(2, prompt.cursor);
    prompt.insert('é');
    assert_eq!(strings(&["abéc"]), prompt.argument);
    assert_eq!(4, prompt.cursor);
}

#[test]
fn insert_then_backspace_round_trip() {
    for c in ['a', 'é', '越', '😀', ' '].iter() {
        let mut prompt = prompt_over("");
        typed(&mut prompt, "x越y");
        prompt.cursor_back();
        let argument = prompt.argument.clone();
        let cursor = prompt.cursor;
        prompt.insert(*c);
        assert_eq!(cursor + c.len_utf8(), prompt.cursor);
        prompt.backspace();
        assert_eq!(argument, prompt.argument);
        assert_eq!(cursor, prompt.cursor);
    }
}

#[test]
fn backspace_removes_one_character() {
    let mut prompt = prompt_over("");
    typed(&mut prompt, "a越");
    prompt.backspace();
    assert_eq!(strings(&["a"]), prompt.argument);
    assert_eq!(1, prompt.cursor);
    prompt.backspace();
    assert_eq!(strings(&[""]), prompt.argument);
    assert_eq!(0, prompt.cursor);
    prompt.backspace();
    assert_eq!(strings(&[""]), prompt.argument);
    assert_eq!(0, prompt.cursor);
}

#[test]
fn delete_removes_the_character_at_the_cursor() {
    let mut prompt = prompt_over("");
    typed(&mut prompt, "a越b");
    prompt.delete();
    assert_eq!(strings(&["a越b"]), prompt.argument);
    prompt.cursor_back();
    prompt.cursor_back();
    assert_eq!(1, prompt.cursor);
    prompt.delete();
    assert_eq!(strings(&["ab"]), prompt.argument);
    assert_eq!(1, prompt.cursor);
    prompt.delete();
    assert_eq!(strings(&["a"]), prompt.argument);
    prompt.delete();
    assert_eq!(strings(&["a"]), prompt.argument);
    assert_eq!(1, prompt.cursor);
}

#[test]
fn delete_at_the_end_leaves_the_viewport() {
    let mut prompt = prompt_over("x\ny\nab");
    typed(&mut prompt, "a");
    assert_eq!(2, prompt.position());
    prompt.up();
    prompt.delete();
    assert_eq!(1, prompt.position());
}

#[test]
fn cursor_moves_by_characters_and_stops_at_the_ends() {
    let mut prompt = prompt_over("");
    typed(&mut prompt, "a越😀");
    assert_eq!(8, prompt.cursor);
    prompt.cursor_forward();
    assert_eq!(8, prompt.cursor);
    prompt.cursor_back();
    assert_eq!(4, prompt.cursor);
    prompt.cursor_back();
    assert_eq!(1, prompt.cursor);
    prompt.cursor_back();
    assert_eq!(0, prompt.cursor);
    prompt.cursor_back();
    assert_eq!(0, prompt.cursor);
    prompt.cursor_forward();
    assert_eq!(1, prompt.cursor);
    prompt.cursor_forward();
    assert_eq!(4, prompt.cursor);
    prompt.cursor_forward();
    assert_eq!(8, prompt.cursor);
}

#[test]
fn append_opens_the_next_argument() {
    let mut prompt = prompt_over("");
    typed(&mut prompt, "ab");
    prompt.append();
    assert_eq!(strings(&["ab", ""]), prompt.argument);
    assert_eq!(1, prompt.selected());
    assert_eq!(0, prompt.cursor);
    prompt.select_back();
    prompt.append();
    assert_eq!(strings(&["ab", ""]), prompt.argument);
    assert_eq!(1, prompt.selected());
}

#[test]
fn select_forward_then_back_returns() {
    let mut prompt = prompt_over("");
    typed(&mut prompt, "ab");
    prompt.append();
    typed(&mut prompt, "cd");
    prompt.append();
    prompt.select_back();
    assert_eq!(1, prompt.selected());
    assert_eq!(0, prompt.cursor);
    prompt.cursor_forward();
    prompt.select_forward();
    assert_eq!(2, prompt.selected());
    assert_eq!(0, prompt.cursor);
    prompt.select_back();
    assert_eq!(1, prompt.selected());
    assert_eq!(0, prompt.cursor);
}

#[test]
fn selection_stops_at_the_ends() {
    let mut prompt = prompt_over("");
    typed(&mut prompt, "ab");
    prompt.select_back();
    assert_eq!(0, prompt.selected());
    assert_eq!(2, prompt.cursor);
    prompt.select_forward();
    assert_eq!(0, prompt.selected());
    assert_eq!(2, prompt.cursor);
}

#[test]
fn moving_clears_the_completion() {
    let mut prompt = prompt_over("");
    typed(&mut prompt, "ab");
    prompt.completion = Some("c".to_string());
    prompt.cursor_forward();
    assert_eq!(Some("c".to_string()), prompt.completion);
    prompt.cursor_back();
    assert_eq!(None, prompt.completion);
    prompt.completion = Some("c".to_string());
    prompt.delete();
    assert_eq!(Some("c".to_string()), prompt.completion);
    prompt.backspace();
    assert_eq!(None, prompt.completion);
    prompt.completion = Some("c".to_string());
    prompt.append();
    assert_eq!(None, prompt.completion);
    prompt.completion = Some("c".to_string());
    prompt.select_back();
    assert_eq!(None, prompt.completion);
}

#[test]
fn find_position_gives_the_first_match() {
    let mut prompt = prompt_over("");
    typed(&mut prompt, "qu");
    let buffer = strings(&["x", "--quiet", "quit", ""]);
    assert_eq!(Some(1), prompt.find_position(&buffer));
    assert_eq!(None, prompt.find_position(&strings(&["x", "q u"])));
    assert_eq!(None, prompt.find_position(&Vec::new()));
}

#[test]
fn find_position_of_the_empty_argument_is_zero() {
    let prompt = prompt_over("");
    assert_eq!(Some(0), prompt.find_position(&strings(&["x", "y"])));
    assert_eq!(Some(0), prompt.find_position(&strings(&[""])));
    assert_eq!(None, prompt.find_position(&Vec::new()));
}

#[test]
fn typing_moves_the_viewport_to_the_first_match() {
    let mut prompt = prompt_over("NAME\ndiff\n-q brief\n-s same");
    prompt.insert('-');
    assert_eq!(2, prompt.position());
    prompt.insert('s');
    assert_eq!(3, prompt.position());
    prompt.insert('x');
    assert_eq!(3, prompt.position());
    prompt.backspace();
    prompt.backspace();
    assert_eq!(2, prompt.position());
}

#[test]
fn up_and_down_stay_within_the_buffer() {
    let mut prompt = prompt_over("a\nb");
    prompt.up();
    assert_eq!(0, prompt.position());
    prompt.down();
    assert_eq!(1, prompt.position());
    prompt.down();
    assert_eq!(2, prompt.position());
    prompt.down();
    assert_eq!(2, prompt.position());
    prompt.up();
    assert_eq!(1, prompt.position());
}

#[test]
fn next_and_prev_go_to_matching_lines() {
    let mut prompt = prompt_over("-a\nx\n-b\n-c\ny");
    prompt.insert('-');
    assert_eq!(0, prompt.position());
    prompt.next();
    assert_eq!(2, prompt.position());
    prompt.next();
    assert_eq!(3, prompt.position());
    prompt.next();
    assert_eq!(3, prompt.position());
    prompt.down();
    prompt.down();
    assert_eq!(5, prompt.position());
    prompt.next();
    assert_eq!(5, prompt.position());
    prompt.prev();
    assert_eq!(3, prompt.position());
    prompt.prev();
    assert_eq!(2, prompt.position());
    prompt.prev();
    assert_eq!(0, prompt.position());
    prompt.prev();
    assert_eq!(0, prompt.position());
}

#[test]
fn insert_line_grows_the_buffer() {
    let mut prompt = Prompt::new("grep", 10, false, true, None, "");
    prompt.insert_line("one".to_string());
    prompt.insert_line("two".to_string());
    assert_eq!(&strings(&["", "one", "two"]), prompt.lines());
}

#[test]
fn completion_appends_the_pending_suffix() {
    let mut prompt = prompt_over("a\n--verbose\n");
    typed(&mut prompt, "--v");
    assert_eq!(1, prompt.position());
    prompt.completion = Some("erbose".to_string());
    prompt.completion();
    assert_eq!(strings(&["--verbose"]), prompt.argument);
    assert_eq!(9, prompt.cursor);
    assert_eq!(None, prompt.completion);
    assert_eq!(0, prompt.position());
    prompt.completion();
    assert_eq!(strings(&["--verbose"]), prompt.argument);
}

#[test]
fn completion_without_a_suffix_does_nothing() {
    let mut prompt = prompt_over("a\nb");
    typed(&mut prompt, "b");
    prompt.completion();
    assert_eq!(strings(&["b"]), prompt.argument);
    assert_eq!(1, prompt.cursor);
    assert_eq!(1, prompt.position());
}

#[test]
fn size_grows_and_shrinks_down_to_zero() {
    let mut prompt = Prompt::new("diff", 1, false, false, None, "");
    prompt.incr_size();
    assert_eq!(2, prompt.size());
    prompt.decr_size();
    prompt.decr_size();
    assert_eq!(0, prompt.size());
    prompt.decr_size();
    assert_eq!(0, prompt.size());
    let mut full = Prompt::new("diff", usize::MAX, false, false, None, "");
    full.incr_size();
    assert_eq!(usize::MAX, full.size());
}

#[test]
fn viewpoint_of_a_short_buffer_is_the_whole_buffer() {
    let prompt = prompt_over("1\n2\n3\n4\n5");
    assert_eq!(5, prompt.lines().len());
    assert_eq!((0, 5), prompt.viewpoint());
}

#[test]
fn viewpoint_is_pulled_back_at_the_end() {
    let mut prompt = Prompt::new("diff", 3, false, false, None, "0\n1\n2\n3\n4\n5\n6\n7");
    assert_eq!((0, 3), prompt.viewpoint());
    for _ in 0..5 {
        prompt.down();
    }
    assert_eq!((5, 8), prompt.viewpoint());
    prompt.down();
    assert_eq!((5, 8), prompt.viewpoint());
    prompt.down();
    prompt.down();
    assert_eq!(8, prompt.position());
    assert_eq!((5, 8), prompt.viewpoint());
    let huge = Prompt::new("diff", usize::MAX, false, false, None, "0\n1");
    assert_eq!((0, 2), huge.viewpoint());
    let none = Prompt::new("diff", 0, false, false, None, "0\n1");
    assert_eq!((0, 0), none.viewpoint());
}

#[test]
fn full_command_drops_empty_arguments() {
    let mut prompt = prompt_over("");
    assert_eq!(("diff".to_string(), Vec::<String>::new()), prompt.full_command());
    typed(&mut prompt, "-q");
    prompt.append();
    prompt.append();
    typed(&mut prompt, "a b");
    prompt.append();
    assert_eq!(strings(&["-q", "", "a b", ""]), prompt.argument);
    assert_eq!(("diff".to_string(), strings(&["-q", "a b"])), prompt.full_command());
}

#[test]
fn change_command_replaces_the_command() {
    let mut prompt = prompt_over("");
    typed(&mut prompt, "x");
    prompt.change_command("grep".to_string());
    assert_eq!(("grep".to_string(), strings(&["x"])), prompt.full_command());
    prompt.quit();
    assert_eq!("grep", prompt.command);
}

#[test]
fn current_input_and_line() {
    let mut prompt = prompt_over("a\nb");
    typed(&mut prompt, "b");
    assert_eq!("b", prompt.current_input());
    assert_eq!("b", prompt.current_buffer_line());
    prompt.down();
    assert_eq!("", prompt.current_buffer_line());
    prompt.append_argument("./file".to_string());
    assert_eq!(strings(&["./file"]), prompt.argument);
    assert_eq!(6, prompt.cursor);
}

#[test]
fn set_mode_choose_offers_two_lines() {
    let mut prompt = prompt_over("a\nb\nc\nd");
    prompt.down();
    prompt.down();
    prompt.down();
    assert_eq!(None, prompt.set_mode(PromptMode::Choose));
    assert_eq!(PromptMode::Choose, prompt.mode);
    assert_eq!(&strings(&["man", "file"]), prompt.lines());
    assert_eq!(2, prompt.position());
}

#[test]
fn set_mode_asks_for_what_it_shows() {
    let mut prompt = Prompt::new("diff", 10, true, false, None, "help text");
    assert_eq!(Some(SourceType::File), prompt.set_mode(PromptMode::File));
    assert_eq!(PromptMode::File, prompt.mode);
    assert_eq!(&strings(&["help text"]), prompt.lines());
    prompt.load("./a\n./b");
    assert_eq!(&strings(&["./a", "./b"]), prompt.lines());
    assert_eq!(Some(SourceType::Help), prompt.set_mode(PromptMode::Prompt));
    assert_eq!(None, prompt.set_mode(PromptMode::History));
    assert_eq!(PromptMode::History, prompt.mode);
    assert_eq!(&strings(&["./a", "./b"]), prompt.lines());
}

#[test]
fn set_mode_prompt_shows_what_was_piped() {
    let mut prompt = Prompt::new("grep", 10, false, true, None, "");
    assert_eq!(None, prompt.set_mode(PromptMode::Prompt));
    assert_eq!(&strings(&[""]), prompt.lines());
    prompt.insert_line("one".to_string());
    prompt.insert_line("two".to_string());
    assert_eq!(Some(SourceType::File), prompt.set_mode(PromptMode::File));
    prompt.load("./a");
    assert_eq!(None, prompt.set_mode(PromptMode::Prompt));
    assert_eq!(&strings(&["one", "two"]), prompt.lines());
}

#[test]
fn load_pulls_the_viewport_back() {
    let mut prompt = prompt_over("a\nb\nc\nd");
    prompt.down();
    prompt.down();
    prompt.down();
    prompt.load("x\ny");
    assert_eq!(2, prompt.position());
    prompt.load("1\n2\n3\n4\n5");
    assert_eq!(2, prompt.position());
}

#[test]
fn is_valid_tells_broken_fields() {
    let mut prompt = prompt_over("a");
    assert!(prompt.is_valid());
    typed(&mut prompt, "a越");
    assert!(prompt.is_valid());
    prompt.cursor = 2;
    assert!(!prompt.is_valid());
    prompt.cursor = 5;
    assert!(!prompt.is_valid());
    prompt.cursor = 1;
    assert!(prompt.is_valid());
    prompt.argument.clear();
    assert!(!prompt.is_valid());
    prompt.argument.push(String::new());
    assert!(!prompt.is_valid());
    prompt.cursor = 0;
    assert!(prompt.is_valid());
}
