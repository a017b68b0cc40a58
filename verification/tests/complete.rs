use man_with::ui::complete::{
    buffer_hits, is_args, is_path_like, line_hits, path_hits, strip, suffix_of,
};

fn chars(s: &str) -> Vec<char> {
    s.chars().collect()
}

fn strings(items: &[&str]) -> Vec<String> {
    items.iter().map(|s| s.to_string()).collect()
}

#[test]
fn is_args_accepts_flag_characters() {
    for c in "-_=:{}.azAZ09".chars() {
        assert!(is_args(c));
    }
    for c in " ,;[]()<>|/~\"'*+é越\t".chars() {
        assert!(!is_args(c));
    }
}

#[test]
fn strip_keeps_flag_characters_in_order() {
    assert_eq!("--verbose", strip(&chars("--verbose,")));
    assert_eq!("--foo--bar", strip(&chars("[--foo|--bar]")));
    assert_eq!("", strip(&chars("(*)")));
    assert_eq!("", strip(&chars("")));
    assert_eq!("a.b_c=d:{e}", strip(&chars("a.b_c=d:{e}")));
}

#[test]
fn line_hits_picks_words_that_contain_the_needle() {
    let mut hits = strings(&["before"]);
    line_hits(&chars("  -v, --verbose   be (very) verbose"), &chars("ver"), &mut hits);
    assert_eq!(strings(&["before", "--verbose", "very", "verbose"]), hits);
    let mut none = Vec::new();
    line_hits(&chars("nothing here"), &chars("ver"), &mut none);
    assert!(none.is_empty());
}

#[test]
fn buffer_hits_goes_line_by_line() {
    let buffer = strings(&["--quiet  be quiet", "", "-q  same as --quiet;", "other"]);
    assert_eq!(
        strings(&["--quiet", "quiet", "--quiet"]),
        buffer_hits(&buffer, &chars("qu"))
    );
    assert!(buffer_hits(&buffer, &chars("zz")).is_empty());
    assert!(buffer_hits(&Vec::new(), &chars("")).is_empty());
}

#[test]
fn buffer_hits_needle_across_words_gives_nothing() {
    let buffer = strings(&["be quiet"]);
    assert!(buffer_hits(&buffer, &chars("e q")).is_empty());
}

#[test]
fn path_hits_keeps_entries_with_the_prefix() {
    let entries = strings(&["./src", "./target", "./src2", "src", ""]);
    let mut hits = strings(&["x"]);
    path_hits(&entries, &chars("./s"), &mut hits);
    assert_eq!(strings(&["x", "./src", "./src2"]), hits);
    let mut all = Vec::new();
    path_hits(&entries, &chars(""), &mut all);
    assert_eq!(entries, all);
}

#[test]
fn is_path_like_looks_at_the_first_character() {
    assert!(is_path_like(&chars(".")));
    assert!(is_path_like(&chars("./x")));
    assert!(is_path_like(&chars("~")));
    assert!(is_path_like(&chars("~/x")));
    assert!(!is_path_like(&chars("")));
    assert!(!is_path_like(&chars("/x")));
    assert!(!is_path_like(&chars("x.")));
}

#[test]
fn suffix_of_cuts_by_bytes() {
    assert_eq!("erbose", suffix_of("--verbose", "--v"));
    assert_eq!("erbose", suffix_of("--verbose", "erb"));
    assert_eq!("", suffix_of("--verbose", "--verbose"));
    assert_eq!("", suffix_of("-v", "--verbose"));
    assert_eq!("--verbose", suffix_of("--verbose", ""));
    assert_eq!("y", suffix_of("-x-y", "é-"));
    assert_eq!("", suffix_of("越x", "ab"));
    assert_eq!("x", suffix_of("越x", "abc"));
}
