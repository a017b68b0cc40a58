//! Candidates for completing an argument: words of the reference text, and
//! entries of the directory that a path-like argument points into.
use crate::text::{
    after, byte_len, chars_of, contains, is_contained, matches_at, on_boundary, push_char,
    split_index, starts_with, text_of, views, words, words_of,
};
use vstd::prelude::*;
use vstd::string::*;

verus! {

/// Whether `c` belongs to a flag or a path: an ASCII letter or digit, or one
/// of `- _ = : { } .`
pub open spec fn is_arg_char(c: char) -> bool {
    ||| c == '-'
    ||| c == '_'
    ||| c == '='
    ||| c == ':'
    ||| c == '{'
    ||| c == '}'
    ||| c == '.'
    ||| ('a' <= c && c <= 'z')
    ||| ('A' <= c && c <= 'Z')
    ||| ('0' <= c && c <= '9')
}

/// The predicate `is_arg_char`.
pub open spec fn arg_chars() -> spec_fn(char) -> bool {
    |c: char| is_arg_char(c)
}

/// The characters of `token` that belong to a flag or a path, in order.
pub open spec fn stripped(token: Seq<char>) -> Seq<char> {
    token.filter(arg_chars())
}

/// Of the given words those that contain `needle`, each stripped.
pub open spec fn picked(tokens: Seq<Seq<char>>, needle: Seq<char>) -> Seq<Seq<char>>
    decreases tokens.len(),
{
    if tokens.len() == 0 {
        Seq::<Seq<char>>::empty()
    } else {
        let front = picked(tokens.drop_last(), needle);
        if contains(tokens.last(), needle) {
            front.push(stripped(tokens.last()))
        } else {
            front
        }
    }
}

/// The candidates that one line gives: its words that contain `needle`,
/// each stripped.
pub open spec fn line_candidates(line: Seq<char>, needle: Seq<char>) -> Seq<Seq<char>> {
    picked(words(line), needle)
}

/// The candidates that the lines give: those of each line that contains
/// `needle`, line after line.
pub open spec fn buffer_candidates(lines: Seq<Seq<char>>, needle: Seq<char>) -> Seq<Seq<char>>
    decreases lines.len(),
{
    if lines.len() == 0 {
        Seq::<Seq<char>>::empty()
    } else {
        buffer_candidates(lines.drop_last(), needle) + if contains(lines.last(), needle) {
            line_candidates(lines.last(), needle)
        } else {
            Seq::<Seq<char>>::empty()
        }
    }
}

/// Whether `text` looks like a path: it begins with `.` or `~`.
pub open spec fn path_like(text: Seq<char>) -> bool {
    text.len() > 0 && (text[0] == '.' || text[0] == '~')
}

/// Of the given entries those that begin with `needle`, in order.
pub open spec fn path_candidates(entries: Seq<Seq<char>>, needle: Seq<char>) -> Seq<Seq<char>>
    decreases entries.len(),
{
    if entries.len() == 0 {
        Seq::<Seq<char>>::empty()
    } else {
        let front = path_candidates(entries.drop_last(), needle);
        if starts_with(entries.last(), needle) {
            front.push(entries.last())
        } else {
            front
        }
    }
}

/// All candidates for `needle`: those of the buffer, then, where `needle`
/// looks like a path, those among the entries.
pub open spec fn all_candidates(
    lines: Seq<Seq<char>>,
    entries: Seq<Seq<char>>,
    needle: Seq<char>,
) -> Seq<Seq<char>> {
    buffer_candidates(lines, needle) + if path_like(needle) {
        path_candidates(entries, needle)
    } else {
        Seq::<Seq<char>>::empty()
    }
}

/// What `candidate` holds beyond the length of `typed`, measured in bytes;
/// nothing where it is shorter than that.
pub open spec fn suffix(candidate: Seq<char>, typed: Seq<char>) -> Seq<char> {
    if on_boundary(candidate, byte_len(typed) as int) {
        after(candidate, byte_len(typed) as int)
    } else {
        Seq::<char>::empty()
    }
}

/// Whether `ch` belongs to a flag or a path.
pub fn is_args(ch: char) -> (b: bool)
    ensures
        b == is_arg_char(ch),
{
    match ch {
        '-' | '_' | '=' | ':' | '{' | '}' | '.' => true,
        _ => ('a' <= ch && ch <= 'z') || ('A' <= ch && ch <= 'Z') || ('0' <= ch && ch <= '9'),
    }
}

/// The characters of `token` that belong to a flag or a path.
pub fn strip(token: &Vec<char>) -> (out: String)
    ensures
        out@ == stripped(token@),
{
    let mut out = String::new();
    let mut i: usize = 0;
    proof {
        reveal(Seq::filter);
        assert(token@.take(0) == Seq::<char>::empty());
    }
    while i < token.len()
        invariant
            i <= token.len(),
            out@ == token@.take(i as int).filter(arg_chars()),
        decreases token.len() - i,
    {
        proof {
            assert(token@.take(i + 1) == token@.take(i as int).push(token@[i as int]));
            token@.take(i as int).lemma_filter_push(token@[i as int], arg_chars());
        }
        if is_args(token[i]) {
            push_char(&mut out, token[i]);
        }
        i = i + 1;
    }
    assert(token@.take(i as int) == token@);
    out
}

/// Appends the candidates that `line` gives for `needle` to `hits`.
pub fn line_hits(line: &Vec<char>, needle: &Vec<char>, hits: &mut Vec<String>)
    ensures
        final(hits).deep_view() == old(hits).deep_view() + line_candidates(line@, needle@),
{
    let tokens = words_of(line);
    let ghost start = hits.deep_view();
    let mut i: usize = 0;
    proof {
        assert(views(tokens@).take(0) == Seq::<Seq<char>>::empty());
        assert(start + Seq::<Seq<char>>::empty() == start);
    }
    while i < tokens.len()
        invariant
            i <= tokens.len(),
            views(tokens@) == words(line@),
            hits.deep_view() == start + picked(views(tokens@).take(i as int), needle@),
        decreases tokens.len() - i,
    {
        proof {
            let next = views(tokens@).take(i + 1);
            assert(next.drop_last() == views(tokens@).take(i as int));
            assert(next.last() == tokens@[i as int]@);
        }
        if is_contained(&tokens[i], needle) {
            let ghost done = hits.deep_view();
            let word = strip(&tokens[i]);
            let ghost shown = word@;
            hits.push(word);
            assert(hits.deep_view() == done.push(shown));
        }
        i = i + 1;
    }
    assert(views(tokens@).take(i as int) == views(tokens@));
}

/// The candidates that the lines of `buffer` give for `needle`.
pub fn buffer_hits(buffer: &Vec<String>, needle: &Vec<char>) -> (hits: Vec<String>)
    ensures
        hits.deep_view() == buffer_candidates(buffer.deep_view(), needle@),
{
    let mut hits: Vec<String> = Vec::new();
    let mut i: usize = 0;
    proof {
        assert(buffer.deep_view().take(0) == Seq::<Seq<char>>::empty());
        assert(hits.deep_view() == Seq::<Seq<char>>::empty());
    }
    while i < buffer.len()
        invariant
            i <= buffer.len(),
            hits.deep_view() == buffer_candidates(buffer.deep_view().take(i as int), needle@),
        decreases buffer.len() - i,
    {
        let line = chars_of(buffer[i].as_str());
        proof {
            let next = buffer.deep_view().take(i + 1);
            assert(next.drop_last() == buffer.deep_view().take(i as int));
            assert(next.last() == line@);
        }
        if is_contained(&line, needle) {
            line_hits(&line, needle, &mut hits);
        } else {
            assert(hits.deep_view() + Seq::<Seq<char>>::empty() == hits.deep_view());
        }
        i = i + 1;
    }
    assert(buffer.deep_view().take(i as int) == buffer.deep_view());
    hits
}

/// Appends those of `entries` that begin with `needle` to `hits`.
pub fn path_hits(entries: &Vec<String>, needle: &Vec<char>, hits: &mut Vec<String>)
    ensures
        final(hits).deep_view() == old(hits).deep_view() + path_candidates(
            entries.deep_view(),
            needle@,
        ),
{
    let ghost start = hits.deep_view();
    let mut i: usize = 0;
    proof {
        assert(entries.deep_view().take(0) == Seq::<Seq<char>>::empty());
        assert(start + Seq::<Seq<char>>::empty() == start);
    }
    while i < entries.len()
        invariant
            i <= entries.len(),
            hits.deep_view() == start + path_candidates(
                entries.deep_view().take(i as int),
                needle@,
            ),
        decreases entries.len() - i,
    {
        let entry = chars_of(entries[i].as_str());
        proof {
            let next = entries.deep_view().take(i + 1);
            assert(next.drop_last() == entries.deep_view().take(i as int));
            assert(next.last() == entry@);
        }
        if matches_at(&entry, needle, 0) {
            let ghost done = hits.deep_view();
            hits.push(entries[i].clone());
            assert(hits.deep_view() == done.push(entry@));
        }
        i = i + 1;
    }
    assert(entries.deep_view().take(i as int) == entries.deep_view());
}

/// Whether `text` begins with `.` or `~`.
pub fn is_path_like(text: &Vec<char>) -> (b: bool)
    ensures
        b == path_like(text@),
{
    text.len() > 0 && (text[0] == '.' || text[0] == '~')
}

/// What `candidate` holds beyond the first `typed` bytes.
pub fn suffix_of(candidate: &str, typed: &str) -> (out: String)
    ensures
        out@ == suffix(candidate@, typed@),
{
    let chars = chars_of(candidate);
    let k = crate::text::len_of(typed);
    match split_index(&chars, k) {
        Some(i) => {
            let out = text_of(&chars, i, chars.len());
            assert(chars@.subrange(i as int, chars.len() as int) == chars@.skip(i as int));
            out
        },
        None => String::new(),
    }
}

/// `shellexpand::tilde`: the path with a leading `~` replaced by the home
/// directory of the user where that is known.  A path that does not begin
/// with `~` comes back unchanged.
#[verifier::external_body]
pub(crate) fn expand_tilde(path: &str) -> (expanded: String)
    ensures
        !(path@.len() > 0 && path@[0] == '~') ==> expanded@ == path@,
{
    shellexpand::tilde(path).into_owned()
}

} // verus!
