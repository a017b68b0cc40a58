use man_with::ui::cursor::Draw;
use man_with::ui::prompt::Prompt;
use man_with::ui::viewer::ShowType;

const BOLD: &str = "\x1b[1m";
const RESET: &str = "\x1b[m";
const WHITE: &str = "\x1b[38;5;7m";
const RED: &str = "\x1b[38;5;1m";
const BLUE: &str = "\x1b[38;5;4m";

fn strings(items: &[&str]) -> Vec<String> {
    items.iter().map(|s| s.to_string()).collect()
}

fn write(text: &str) -> Draw {
    Draw::Write(text.to_string())
}

fn wipe() -> Vec<Draw> {
    vec![Draw::Horizon(1), Draw::ClearLine, write("\n")]
}

fn sweep_of(size: usize) -> Vec<Draw> {
    let mut ops = wipe();
    for _ in 0..size {
        ops.extend(wipe());
    }
    ops.push(Draw::Horizon(1));
    ops.push(Draw::Up(size as u64 + 1));
    ops
}

fn typed(prompt: &mut Prompt, text: &str) {
    for c in text.chars() {
        prompt.insert(c);
    }
}

#[test]
fn prompt_sign_is_bold() {
    assert_eq!(format!("{}> {}", BOLD, RESET), Prompt::prompt());
}

#[test]
fn show_input_joins_command_and_arguments() {
    let mut prompt = Prompt::new("diff", 2, false, false, None, "");
    assert_eq!(format!("{}> {}{}{}diff {}", BOLD, RESET, BOLD, WHITE, RESET), prompt.show_input());
    typed(&mut prompt, "-q");
    prompt.append();
    typed(&mut prompt, "a");
    assert_eq!(
        format!("{}> {}{}{}diff -q a{}", BOLD, RESET, BOLD, WHITE, RESET),
        prompt.show_input()
    );
}

#[test]
fn prompt_len_counts_what_stands_before_the_argument() {
    let mut prompt = Prompt::new("diff", 2, false, false, None, "");
    assert_eq!(7, prompt.prompt_len());
    assert_eq!(8, prompt.column());
    typed(&mut prompt, "-q");
    assert_eq!(7, prompt.prompt_len());
    assert_eq!(10, prompt.column());
    prompt.append();
    assert_eq!(10, prompt.prompt_len());
    assert_eq!(11, prompt.column());
    typed(&mut prompt, "é");
    assert_eq!(13, prompt.column());
}

#[test]
fn sweep_clears_input_line_and_panel() {
    let prompt = Prompt::new("diff", 2, false, false, None, "");
    assert_eq!(sweep_of(2), prompt.sweep());
    let flat = Prompt::new("diff", 0, false, false, None, "");
    assert_eq!(
        vec![Draw::Horizon(1), Draw::ClearLine, write("\n"), Draw::Horizon(1), Draw::Up(1)],
        flat.sweep()
    );
}

#[test]
fn show_viewer_gives_the_window() {
    let mut prompt = Prompt::new("diff", 2, false, false, None, "a\nb\nc\nd");
    let mark = format!("{}{}", RED, RESET);
    assert_eq!(strings(&[&format!("{}a{}", mark, mark), "b"]), prompt.show_viewer());
    prompt.down();
    prompt.down();
    prompt.down();
    assert_eq!(strings(&["c", &format!("{}d{}", mark, mark)]), prompt.show_viewer());
    prompt.down();
    assert_eq!(strings(&["c", "d"]), prompt.show_viewer());
}

#[test]
fn show_viewer_highlights_the_argument() {
    let mut prompt = Prompt::new("diff", 1, false, false, None, "x\n-q or -q");
    typed(&mut prompt, "-q");
    assert_eq!(1, prompt.position());
    let mark = format!("{}-q{}", RED, RESET);
    assert_eq!(vec![format!("{} or {}", mark, mark)], prompt.show_viewer());
}

#[test]
fn show_viewer_numbers_lines() {
    let mut prompt = Prompt::new("diff", 2, false, false, None, "a\nb1\nc");
    prompt.viewer.toggle_show_type(ShowType::LineNumber);
    prompt.down();
    typed(&mut prompt, "1");
    assert_eq!(1, prompt.position());
    let mark = format!("{}1{}", RED, RESET);
    assert_eq!(vec![format!("2 b{}", mark), "3 c".to_string()], prompt.show_viewer());
}

#[test]
fn render_without_terminal_only_sweeps() {
    let mut prompt = Prompt::new("diff", 1, false, false, None, "--quiet");
    typed(&mut prompt, "--q");
    prompt.completion = Some("stale".to_string());
    assert_eq!(sweep_of(1), prompt.render(false, &Vec::new()));
    assert_eq!(Some("stale".to_string()), prompt.completion);
}

#[test]
fn render_draws_input_panel_and_hint() {
    let mut prompt = Prompt::new("diff", 2, false, false, None, "NAME\n  --quiet  be quiet\nend");
    typed(&mut prompt, "--q");
    assert_eq!(1, prompt.position());
    let mut expected = sweep_of(2);
    expected.push(write(&format!("{}> {}{}{}diff --q{}", BOLD, RESET, BOLD, WHITE, RESET)));
    expected.push(Draw::Down(1));
    expected.push(Draw::Horizon(1));
    expected.push(write(&format!("  {}--q{}uiet  be quiet", RED, RESET)));
    expected.push(Draw::Down(1));
    expected.push(Draw::Horizon(1));
    expected.push(write("end"));
    expected.push(Draw::Down(1));
    expected.push(Draw::Horizon(1));
    expected.push(Draw::Up(2));
    expected.push(Draw::Up(1));
    expected.push(Draw::Horizon(11));
    expected.push(Draw::Horizon(11));
    expected.push(write(&format!("{}uiet{}", BLUE, RESET)));
    expected.push(Draw::Horizon(11));
    assert_eq!(expected, prompt.render(true, &Vec::new()));
    assert_eq!(Some("uiet".to_string()), prompt.completion);
}

#[test]
fn render_clears_a_completion_that_no_candidate_backs() {
    let mut prompt = Prompt::new("diff", 1, false, false, None, "x");
    typed(&mut prompt, "zz");
    prompt.completion = Some("stale".to_string());
    let ops = prompt.render(true, &Vec::new());
    assert_eq!(None, prompt.completion);
    assert_eq!(Some(&Draw::Horizon(10)), ops.last());
}

#[test]
fn show_draws_at_least_the_sweep() {
    let mut prompt = Prompt::new("diff", 1, false, false, None, "x");
    let ops = prompt.show(&Vec::new());
    let swept = sweep_of(1);
    assert!(ops.len() >= swept.len());
    assert_eq!(swept[..], ops[..swept.len()]);
    let mut same = Prompt::new("diff", 1, false, false, None, "x");
    let drawn = same.render(true, &Vec::new());
    assert!(ops == swept || ops == drawn);
}

#[test]
fn candidates_from_the_buffer_and_the_entries() {
    let mut prompt = Prompt::new("ls", 1, false, false, None, "see ./doc, or ./src;");
    let entries = strings(&["./src", "./doc", "./.git", "other"]);
    assert!(prompt.candidates(&entries).is_empty());
    assert_eq!(None, prompt.show_candidate(&entries));
    typed(&mut prompt, "./");
    assert_eq!(
        strings(&[".doc", ".src", "./src", "./doc", "./.git"]),
        prompt.candidates(&entries)
    );
    assert_eq!(Some("oc".to_string()), prompt.show_candidate(&entries));
    typed(&mut prompt, ".");
    assert_eq!(strings(&["./.git"]), prompt.candidates(&entries));
    assert_eq!(Some("git".to_string()), prompt.show_candidate(&entries));
}

#[test]
fn entries_are_not_candidates_for_plain_words() {
    let mut prompt = Prompt::new("ls", 1, false, false, None, "");
    typed(&mut prompt, "sr");
    assert!(prompt.candidates(&strings(&["src", "sr"])).is_empty());
}

#[test]
fn show_candidate_surfaces_the_suffix_of_a_flag() {
    let mut prompt = Prompt::new(
        "cmd",
        10,
        false,
        false,
        None,
        "OPTIONS\n--verbose    enable verbose output\n--version",
    );
    prompt.insert('-');
    prompt.insert('-');
    prompt.insert('v');
    assert_eq!(Some("erbose".to_string()), prompt.show_candidate(&Vec::new()));
}

#[test]
fn accepting_the_shown_candidate_completes_the_argument() {
    let mut prompt = Prompt::new("cmd", 10, false, false, None, "--verbose    enable");
    typed(&mut prompt, "--v");
    let typed_text = prompt.current_input();
    let suffix = prompt.show_candidate(&Vec::new()).unwrap();
    prompt.render(true, &Vec::new());
    assert_eq!(Some(suffix.clone()), prompt.completion);
    prompt.completion();
    let whole = format!("{}{}", typed_text, suffix);
    assert_eq!("--verbose", whole);
    assert_eq!(whole, prompt.current_input());
    assert_eq!(whole.len(), prompt.cursor);
    assert_eq!(0, prompt.position());
}

#[test]
fn completion_path_for_path_like_arguments() {
    let mut prompt = Prompt::new("ls", 1, false, false, None, "");
    assert_eq!(None, prompt.completion_path());
    typed(&mut prompt, "./sr");
    assert_eq!(Some("./sr".to_string()), prompt.completion_path());
    prompt.beginning_of_line();
    prompt.cursor_back();
    assert_eq!(0, prompt.cursor);
    assert_eq!(None, prompt.completion_path());
    let mut plain = Prompt::new("ls", 1, false, false, None, "");
    typed(&mut plain, "src");
    assert_eq!(None, plain.completion_path());
}

#[test]
fn completion_path_expands_the_tilde() {
    let mut prompt = Prompt::new("ls", 1, false, false, None, "");
    typed(&mut prompt, "~/sr");
    let path = prompt.completion_path().unwrap();
    assert!(path.ends_with("/sr"));
    assert!(!path.starts_with('~'));
    let mut other = Prompt::new("ls", 1, false, false, None, "");
    typed(&mut other, "~nobody/sr");
    assert_eq!(Some("~nobody/sr".to_string()), other.completion_path());
}
