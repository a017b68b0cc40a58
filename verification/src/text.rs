//! Text as sequences of characters, with the UTF-8 byte offsets that cursors
//! and columns are measured in.
//!
//! A `String` is viewed as its `Seq<char>`.  A byte offset into it is related
//! to a character index through [`offset`]: the offset of index `i` is the
//! number of bytes that the first `i` characters occupy in UTF-8.
use vstd::prelude::*;
use vstd::string::*;
use vstd::utf8::*;

verus! {

/// The number of bytes that `c` occupies in UTF-8.
pub open spec fn char_width(c: char) -> nat {
    encode_scalar(c as u32).len()
}

/// The number of bytes that `s` occupies in UTF-8.
pub open spec fn byte_len(s: Seq<char>) -> nat {
    encode_utf8(s).len()
}

/// The byte offset at which the character of index `i` starts in `s`
/// (for `i == s.len()`: the offset of the end of `s`).
pub open spec fn offset(s: Seq<char>, i: int) -> nat {
    byte_len(s.take(i))
}

/// Whether the byte offset `k` falls between two characters of `s`, or at
/// one of its ends.
pub open spec fn on_boundary(s: Seq<char>, k: int) -> bool {
    exists|i: int| 0 <= i <= s.len() && offset(s, i) == k
}

/// The index of the character that starts at byte offset `k` of `s`.
pub open spec fn index_at(s: Seq<char>, k: int) -> int {
    choose|i: int| 0 <= i <= s.len() && offset(s, i) == k
}

/// The part of `s` in front of byte offset `k`.
pub open spec fn before(s: Seq<char>, k: int) -> Seq<char> {
    s.take(index_at(s, k))
}

/// The part of `s` from byte offset `k` on.
pub open spec fn after(s: Seq<char>, k: int) -> Seq<char> {
    s.skip(index_at(s, k))
}

/// Every character takes between one and four bytes.
pub proof fn lemma_char_width(c: char)
    ensures
        1 <= char_width(c) <= 4,
{
    char_is_scalar(c);
}

/// The encoding of a concatenation is the concatenation of the encodings.
pub proof fn lemma_encode_concat(a: Seq<char>, b: Seq<char>)
    ensures
        encode_utf8(a + b) == encode_utf8(a) + encode_utf8(b),
    decreases a.len(),
{
    if a.len() == 0 {
        assert(a + b == b);
        assert(encode_utf8(a) + encode_utf8(b) == encode_utf8(b));
    } else {
        lemma_encode_concat(a.drop_first(), b);
        assert((a + b).drop_first() == a.drop_first() + b);
        assert((a + b)[0] == a[0]);
        let head = encode_scalar(a[0] as u32);
        assert(encode_utf8(a + b) == head + encode_utf8(a.drop_first() + b));
        assert(head + (encode_utf8(a.drop_first()) + encode_utf8(b)) == (head + encode_utf8(
            a.drop_first(),
        )) + encode_utf8(b));
    }
}

/// Byte lengths add up over concatenation.
pub proof fn lemma_byte_len_concat(a: Seq<char>, b: Seq<char>)
    ensures
        byte_len(a + b) == byte_len(a) + byte_len(b),
{
    lemma_encode_concat(a, b);
}

/// A single character occupies its width.
pub proof fn lemma_byte_len_single(c: char)
    ensures
        byte_len(seq![c]) == char_width(c),
{
    let s = seq![c];
    assert(s.drop_first() == Seq::<char>::empty());
    assert(encode_utf8(s.drop_first()) == Seq::<u8>::empty());
    assert(encode_utf8(s) == encode_scalar(c as u32) + encode_utf8(s.drop_first()));
}

/// Appending a character adds its width.
pub proof fn lemma_byte_len_push(s: Seq<char>, c: char)
    ensures
        byte_len(s.push(c)) == byte_len(s) + char_width(c),
{
    assert(s.push(c) == s + seq![c]);
    lemma_byte_len_concat(s, seq![c]);
    lemma_byte_len_single(c);
}

/// One character further, the offset grows by that character's width.
pub proof fn lemma_offset_step(s: Seq<char>, i: int)
    requires
        0 <= i < s.len(),
    ensures
        offset(s, i + 1) == offset(s, i) + char_width(s[i]),
        offset(s, i) < offset(s, i + 1),
{
    assert(s.take(i + 1) == s.take(i).push(s[i]));
    lemma_byte_len_push(s.take(i), s[i]);
    lemma_char_width(s[i]);
}

/// Offsets grow strictly with the index.
pub proof fn lemma_offset_monotone(s: Seq<char>, i: int, j: int)
    requires
        0 <= i < j <= s.len(),
    ensures
        offset(s, i) < offset(s, j),
    decreases j - i,
{
    lemma_offset_step(s, j - 1);
    if i < j - 1 {
        lemma_offset_monotone(s, i, j - 1);
    }
}

/// The ends of a text: offset zero, and its byte length.
pub proof fn lemma_offset_ends(s: Seq<char>)
    ensures
        offset(s, 0) == 0,
        offset(s, s.len() as int) == byte_len(s),
{
    assert(s.take(0) == Seq::<char>::empty());
    assert(s.take(s.len() as int) == s);
}

/// The offset of an index is a boundary, and leads back to that index.
pub proof fn lemma_index_at(s: Seq<char>, i: int)
    requires
        0 <= i <= s.len(),
    ensures
        on_boundary(s, offset(s, i) as int),
        index_at(s, offset(s, i) as int) == i,
        before(s, offset(s, i) as int) == s.take(i),
        after(s, offset(s, i) as int) == s.skip(i),
{
    let k = offset(s, i) as int;
    let j = index_at(s, k);
    assert(0 <= j <= s.len() && offset(s, j) == k);
    if j < i {
        lemma_offset_monotone(s, j, i);
    }
    if i < j {
        lemma_offset_monotone(s, i, j);
    }
}

/// What a boundary gives: its index splits the text in two parts, the first
/// of which occupies exactly `k` bytes.
pub proof fn lemma_boundary(s: Seq<char>, k: int)
    requires
        on_boundary(s, k),
    ensures
        0 <= index_at(s, k) <= s.len(),
        offset(s, index_at(s, k)) == k,
        byte_len(before(s, k)) == k,
        before(s, k) + after(s, k) == s,
        byte_len(after(s, k)) == byte_len(s) - k,
        0 <= k <= byte_len(s),
{
    let i = index_at(s, k);
    assert(s.take(i) + s.skip(i) == s);
    lemma_byte_len_concat(s.take(i), s.skip(i));
}

/// Both ends of a text are boundaries.
pub proof fn lemma_boundary_ends(s: Seq<char>)
    ensures
        on_boundary(s, 0),
        on_boundary(s, byte_len(s) as int),
        before(s, 0) == Seq::<char>::empty(),
        after(s, 0) == s,
        before(s, byte_len(s) as int) == s,
        after(s, byte_len(s) as int) == Seq::<char>::empty(),
{
    lemma_offset_ends(s);
    lemma_index_at(s, 0);
    lemma_index_at(s, s.len() as int);
    assert(s.take(0) == Seq::<char>::empty());
    assert(s.take(s.len() as int) == s);
    assert(s.skip(0) == s);
    assert(s.skip(s.len() as int) == Seq::<char>::empty());
}

/// In `a + b` the end of `a` is a boundary, with `a` before it and `b` after.
pub proof fn lemma_boundary_concat(a: Seq<char>, b: Seq<char>)
    ensures
        on_boundary(a + b, byte_len(a) as int),
        before(a + b, byte_len(a) as int) == a,
        after(a + b, byte_len(a) as int) == b,
{
    let s = a + b;
    assert(s.take(a.len() as int) == a);
    assert(s.skip(a.len() as int) == b);
    lemma_index_at(s, a.len() as int);
}

/// The number of bytes that `c` occupies in UTF-8.
pub fn width_of(c: char) -> (n: usize)
    ensures
        n == char_width(c),
        1 <= n <= 4,
{
    let u: u32 = c as u32;
    proof {
        char_is_scalar(c);
    }
    if u < 0x80 {
        1
    } else if u < 0x800 {
        2
    } else if u < 0x10000 {
        3
    } else {
        4
    }
}

/// The number of bytes that `s` occupies.
pub fn len_of(s: &str) -> (n: usize)
    ensures
        n == byte_len(s@),
{
    s.as_bytes().len()
}

/// The characters of `s`.
pub fn chars_of(s: &str) -> (v: Vec<char>)
    ensures
        v@ == s@,
{
    broadcast use vstd::string::group_string_axioms;

    let mut v: Vec<char> = Vec::new();
    for c in it: s.chars()
        invariant
            it.seq() == s@,
            v@ == it.seq().take(it.index()),
    {
        v.push(c);
    }
    assert(v@ == s@);
    v
}

/// `String::push` of std: appends one character to the end of the string.
#[verifier::external_body]
pub(crate) fn push_char(s: &mut String, c: char)
    ensures
        final(s)@ == old(s)@.push(c),
{
    s.push(c)
}

/// The string made of the characters `v[from..to]`.
pub fn text_of(v: &Vec<char>, from: usize, to: usize) -> (s: String)
    requires
        from <= to <= v.len(),
    ensures
        s@ == v@.subrange(from as int, to as int),
{
    let mut s = String::new();
    let mut i: usize = from;
    while i < to
        invariant
            from <= i <= to <= v.len(),
            s@ == v@.subrange(from as int, i as int),
        decreases to - i,
    {
        push_char(&mut s, v[i]);
        i = i + 1;
    }
    s
}

/// The index of the character that starts at byte offset `k`.
pub fn index_of(v: &Vec<char>, k: usize) -> (i: usize)
    requires
        on_boundary(v@, k as int),
    ensures
        i == index_at(v@, k as int),
        i <= v.len(),
{
    let mut i: usize = 0;
    let mut at: usize = 0;
    proof {
        lemma_boundary(v@, k as int);
        lemma_offset_ends(v@);
    }
    while at < k
        invariant
            on_boundary(v@, k as int),
            0 <= i <= index_at(v@, k as int) <= v.len(),
            at == offset(v@, i as int),
            at <= k,
        decreases k - at,
    {
        proof {
            lemma_boundary(v@, k as int);
            let j = index_at(v@, k as int);
            if i as int == j {
                assert(false);
            }
            lemma_offset_step(v@, i as int);
            if i + 1 < j {
                lemma_offset_monotone(v@, i + 1, j);
            }
        }
        at = at + width_of(v[i]);
        i = i + 1;
    }
    proof {
        lemma_boundary(v@, k as int);
        lemma_index_at(v@, i as int);
    }
    i
}

/// Whether `needle` stands in `hay` at index `i`.
pub open spec fn occurs_at(hay: Seq<char>, needle: Seq<char>, i: int) -> bool {
    0 <= i && i + needle.len() <= hay.len() && hay.subrange(i, i + needle.len()) == needle
}

/// Whether `needle` is a substring of `hay`.  The empty text is a substring
/// of every text.
pub open spec fn contains(hay: Seq<char>, needle: Seq<char>) -> bool {
    exists|i: int| occurs_at(hay, needle, i)
}

/// Whether `s` begins with `prefix`.
pub open spec fn starts_with(s: Seq<char>, prefix: Seq<char>) -> bool {
    occurs_at(s, prefix, 0)
}

/// The empty text occurs at the start of every text.
pub proof fn lemma_contains_empty(hay: Seq<char>)
    ensures
        contains(hay, Seq::<char>::empty()),
        starts_with(hay, Seq::<char>::empty()),
{
    assert(hay.subrange(0, 0) == Seq::<char>::empty());
    assert(occurs_at(hay, Seq::<char>::empty(), 0));
}

/// Whether `needle` stands in `hay` at index `i`.
pub fn matches_at(hay: &Vec<char>, needle: &Vec<char>, i: usize) -> (found: bool)
    ensures
        found == occurs_at(hay@, needle@, i as int),
{
    if i > hay.len() || needle.len() > hay.len() - i {
        return false;
    }
    let mut j: usize = 0;
    while j < needle.len()
        invariant
            i + needle.len() <= hay.len(),
            j <= needle.len(),
            forall|t: int| 0 <= t < j ==> hay@[i + t] == needle@[t],
        decreases needle.len() - j,
    {
        if hay[i + j] != needle[j] {
            assert(hay@.subrange(i as int, i + needle.len())[j as int] != needle@[j as int]);
            return false;
        }
        j = j + 1;
    }
    assert(hay@.subrange(i as int, i + needle.len()) == needle@);
    true
}

/// Whether `needle` is a substring of `hay`.
pub fn is_contained(hay: &Vec<char>, needle: &Vec<char>) -> (found: bool)
    ensures
        found == contains(hay@, needle@),
{
    if needle.len() > hay.len() {
        return false;
    }
    let last: usize = hay.len() - needle.len();
    let mut i: usize = 0;
    while i < last
        invariant
            last == hay.len() - needle.len(),
            i <= last,
            forall|t: int| 0 <= t < i ==> !occurs_at(hay@, needle@, t),
        decreases last - i,
    {
        if matches_at(hay, needle, i) {
            return true;
        }
        i = i + 1;
    }
    matches_at(hay, needle, last)
}

/// The pieces of `s` between the occurrences of `sep`: one more piece than
/// there are separators, empty pieces included.
pub open spec fn split(s: Seq<char>, sep: char) -> Seq<Seq<char>>
    decreases s.len(),
{
    if s.len() == 0 {
        seq![Seq::<char>::empty()]
    } else {
        let front = split(s.drop_last(), sep);
        if s.last() == sep {
            front.push(Seq::<char>::empty())
        } else {
            front.drop_last().push(front.last().push(s.last()))
        }
    }
}

/// What makes the pieces of a split text: there is at least one, none
/// holds the separator, and joined by the separator they give the text
/// back.
pub proof fn lemma_split(s: Seq<char>, sep: char)
    ensures
        split(s, sep).len() >= 1,
        forall|i: int, j: int|
            0 <= i < split(s, sep).len() && 0 <= j < split(s, sep)[i].len() ==> split(
                s,
                sep,
            )[i][j] != sep,
        join(split(s, sep), seq![sep]) == s,
    decreases s.len(),
{
    let pieces = split(s, sep);
    if s.len() == 0 {
        assert(pieces[0] == Seq::<char>::empty());
    } else {
        let front = split(s.drop_last(), sep);
        lemma_split(s.drop_last(), sep);
        assert(s == s.drop_last().push(s.last()));
        if s.last() == sep {
            assert(pieces.drop_last() == front);
            assert(join(pieces, seq![sep]) == join(front, seq![sep]) + seq![sep]
                + Seq::<char>::empty());
        } else {
            let last = front.last().push(s.last());
            assert(pieces.last() == last);
            assert(pieces.drop_last() == front.drop_last());
            if front.len() == 1 {
                assert(join(front, seq![sep]) == front[0]);
                assert(join(pieces, seq![sep]) == last);
            } else {
                let head = join(front.drop_last(), seq![sep]) + seq![sep];
                assert(join(front, seq![sep]) == head + front.last());
                assert(join(pieces, seq![sep]) == head + last);
                assert(head + last == (head + front.last()).push(s.last()));
            }
            assert forall|i: int, j: int|
                0 <= i < pieces.len() && 0 <= j < pieces[i].len() implies pieces[i][j]
                != sep by {
                if i < pieces.len() - 1 {
                    assert(pieces[i] == front[i]);
                } else if j < front.last().len() {
                    assert(pieces[i][j] == front.last()[j]);
                }
            }
        }
    }
}

/// The lines of `text`, split at each line feed.
pub fn split_lines(text: &str) -> (lines: Vec<String>)
    ensures
        lines.deep_view() == split(text@, '\n'),
        lines.len() >= 1,
{
    let chars = chars_of(text);
    let mut lines: Vec<String> = Vec::new();
    let mut current = String::new();
    let mut i: usize = 0;
    while i < chars.len()
        invariant
            i <= chars.len(),
            lines.deep_view().push(current@) == split(chars@.take(i as int), '\n'),
        decreases chars.len() - i,
    {
        let c = chars[i];
        proof {
            let s = chars@.take(i + 1);
            assert(s.drop_last() == chars@.take(i as int));
            assert(s.last() == c);
            let front = split(s.drop_last(), '\n');
            assert(front.drop_last() == lines.deep_view());
            assert(front.last() == current@);
        }
        if c == '\n' {
            let ghost before = lines.deep_view();
            lines.push(current);
            current = String::new();
            assert(lines.deep_view() == before.push(lines@[lines.len() - 1]@));
        } else {
            push_char(&mut current, c);
        }
        i = i + 1;
    }
    assert(chars@.take(i as int) == text@);
    let ghost before = lines.deep_view();
    lines.push(current);
    assert(lines.deep_view() == before.push(lines@[lines.len() - 1]@));
    lines
}

/// Whether `c` has the Unicode property White_Space, as `char::is_whitespace`
/// of std tells it.
pub uninterp spec fn is_whitespace(c: char) -> bool;

/// `char::is_whitespace` of std: whether the character has the Unicode
/// property White_Space.
#[verifier::external_body]
fn whitespace(c: char) -> (b: bool)
    ensures
        b == is_whitespace(c),
{
    c.is_whitespace()
}

/// The words of `s`: its maximal runs of characters that are not white
/// space, in order.
pub open spec fn words(s: Seq<char>) -> Seq<Seq<char>>
    decreases s.len(),
{
    if s.len() == 0 {
        Seq::<Seq<char>>::empty()
    } else {
        let front = words(s.drop_last());
        if is_whitespace(s.last()) {
            front
        } else if s.len() >= 2 && !is_whitespace(s[s.len() - 2]) {
            front.drop_last().push(front.last().push(s.last()))
        } else {
            front.push(seq![s.last()])
        }
    }
}

/// What makes the words of a text: none is empty, none holds white space,
/// and each occurs in the text.
pub proof fn lemma_words(s: Seq<char>)
    ensures
        forall|i: int|
            0 <= i < words(s).len() ==> {
                &&& (#[trigger] words(s)[i]).len() > 0
                &&& contains(s, words(s)[i])
                &&& forall|j: int| 0 <= j < words(s)[i].len() ==> !is_whitespace(words(s)[i][j])
            },
        s.len() > 0 && !is_whitespace(s.last()) ==> words(s).len() > 0 && occurs_at(
            s,
            words(s).last(),
            s.len() - words(s).last().len(),
        ),
    decreases s.len(),
{
    if s.len() > 0 {
        let rest = s.drop_last();
        let front = words(rest);
        let c = s.last();
        lemma_words(rest);
        assert(s == rest.push(c));
        assert forall|i: int| 0 <= i < front.len() implies contains(s, #[trigger] front[i]) by {
            let k = choose|k: int| occurs_at(rest, front[i], k);
            assert(s.subrange(k, k + front[i].len()) == rest.subrange(k, k + front[i].len()));
            assert(occurs_at(s, front[i], k));
        }
        if is_whitespace(c) {
        } else if s.len() >= 2 && !is_whitespace(s[s.len() - 2]) {
            assert(rest.last() == s[s.len() - 2]);
            let word = front.last().push(c);
            let k = rest.len() - front.last().len();
            assert(s.subrange(k, s.len() as int) == rest.subrange(k, rest.len() as int).push(c));
            assert(occurs_at(s, word, k));
            assert forall|i: int| 0 <= i < words(s).len() implies {
                &&& (#[trigger] words(s)[i]).len() > 0
                &&& contains(s, words(s)[i])
                &&& forall|j: int| 0 <= j < words(s)[i].len() ==> !is_whitespace(words(s)[i][j])
            } by {
                if i < front.len() - 1 {
                    assert(words(s)[i] == front[i]);
                } else {
                    assert(words(s)[i] == word);
                    assert forall|j: int| 0 <= j < word.len() implies !is_whitespace(
                        word[j],
                    ) by {
                        if j < front.last().len() {
                            assert(word[j] == front.last()[j]);
                        }
                    }
                }
            }
        } else {
            let word = seq![c];
            assert(s.subrange(s.len() - 1, s.len() as int) == word);
            assert(occurs_at(s, word, s.len() - 1));
            assert forall|i: int| 0 <= i < words(s).len() implies {
                &&& (#[trigger] words(s)[i]).len() > 0
                &&& contains(s, words(s)[i])
                &&& forall|j: int| 0 <= j < words(s)[i].len() ==> !is_whitespace(words(s)[i][j])
            } by {
                if i < front.len() {
                    assert(words(s)[i] == front[i]);
                } else {
                    assert(words(s)[i] == word);
                }
            }
        }
    }
}

/// The texts that a vector of character vectors holds.
pub open spec fn views(v: Seq<Vec<char>>) -> Seq<Seq<char>> {
    v.map_values(|w: Vec<char>| w@)
}

/// The words of `line`, split at white space.
pub fn words_of(line: &Vec<char>) -> (out: Vec<Vec<char>>)
    ensures
        views(out@) == words(line@),
{
    let mut out: Vec<Vec<char>> = Vec::new();
    let mut current: Vec<char> = Vec::new();
    let mut open: bool = false;
    let mut i: usize = 0;
    assert(views(out@) == Seq::<Seq<char>>::empty());
    while i < line.len()
        invariant
            i <= line.len(),
            open <==> (i > 0 && !is_whitespace(line@[i - 1])),
            open ==> views(out@).push(current@) == words(line@.take(i as int)),
            !open ==> views(out@) == words(line@.take(i as int)),
        decreases line.len() - i,
    {
        let c = line[i];
        proof {
            let s = line@.take(i + 1);
            assert(s.drop_last() == line@.take(i as int));
            assert(s.last() == c);
            if i > 0 {
                assert(s[s.len() - 2] == line@[i - 1]);
            }
        }
        if whitespace(c) {
            if open {
                let ghost done = views(out@);
                let ghost word = current@;
                out.push(current);
                assert(views(out@) == done.push(word));
                current = Vec::new();
                open = false;
            }
        } else {
            if !open {
                current = Vec::new();
                open = true;
                current.push(c);
                assert(current@ == seq![c]);
            } else {
                let ghost front = words(line@.take(i as int));
                assert(front.drop_last() == views(out@));
                assert(front.last() == current@);
                current.push(c);
            }
        }
        i = i + 1;
    }
    assert(line@.take(i as int) == line@);
    if open {
        let ghost done = views(out@);
        let ghost word = current@;
        out.push(current);
        assert(views(out@) == done.push(word));
    }
    out
}

/// The parts joined into one text, with `sep` between each two of them.
pub open spec fn join(parts: Seq<Seq<char>>, sep: Seq<char>) -> Seq<char>
    decreases parts.len(),
{
    if parts.len() == 0 {
        Seq::<char>::empty()
    } else if parts.len() == 1 {
        parts[0]
    } else {
        join(parts.drop_last(), sep) + sep + parts.last()
    }
}

/// The strings `parts[0..to]` joined into one, with `sep` between each two of
/// them.
pub fn join_of(parts: &Vec<String>, to: usize, sep: &str) -> (out: String)
    requires
        to <= parts.len(),
    ensures
        out@ == join(parts.deep_view().take(to as int), sep@),
{
    let mut out = String::new();
    let mut i: usize = 0;
    while i < to
        invariant
            i <= to <= parts.len(),
            out@ == join(parts.deep_view().take(i as int), sep@),
        decreases to - i,
    {
        proof {
            let next = parts.deep_view().take(i + 1);
            assert(next.drop_last() == parts.deep_view().take(i as int));
            assert(next.last() == parts@[i as int]@);
            if i == 0 {
                assert(out@ + parts@[0]@ == parts@[0]@);
            }
        }
        if i > 0 {
            out.append(sep);
        }
        out.append(parts[i].as_str());
        i = i + 1;
    }
    out
}

/// The text `s` with every occurrence of `pattern` replaced by `with`, the
/// occurrences taken from the left and not overlapping.  The empty pattern
/// occurs in front of every character and at the end.
pub open spec fn replace_all(s: Seq<char>, pattern: Seq<char>, with: Seq<char>) -> Seq<char>
    decreases s.len(),
{
    if pattern.len() == 0 {
        if s.len() == 0 {
            with
        } else {
            with + seq![s[0]] + replace_all(s.drop_first(), pattern, with)
        }
    } else if s.len() == 0 {
        Seq::<char>::empty()
    } else if occurs_at(s, pattern, 0) {
        with + replace_all(s.skip(pattern.len() as int), pattern, with)
    } else {
        seq![s[0]] + replace_all(s.drop_first(), pattern, with)
    }
}

/// The string `s` with every occurrence of `pattern` replaced by `with`.
pub fn replace(s: &str, pattern: &str, with: &str) -> (out: String)
    ensures
        out@ == replace_all(s@, pattern@, with@),
{
    let hay = chars_of(s);
    let needle = chars_of(pattern);
    let mut out = String::new();
    let mut i: usize = 0;
    proof {
        assert(hay@.skip(0) == hay@);
        assert(out@ + replace_all(hay@, needle@, with@) == replace_all(hay@, needle@, with@));
    }
    while i < hay.len()
        invariant
            i <= hay.len(),
            hay@ == s@,
            needle@ == pattern@,
            out@ + replace_all(hay@.skip(i as int), needle@, with@) == replace_all(
                hay@,
                needle@,
                with@,
            ),
        decreases hay.len() - i,
    {
        let ghost rest = hay@.skip(i as int);
        proof {
            assert(rest.len() > 0);
            assert(rest[0] == hay@[i as int]);
            assert(rest.drop_first() == hay@.skip(i + 1));
            assert(occurs_at(rest, needle@, 0) == occurs_at(hay@, needle@, i as int)) by {
                if i + needle@.len() <= hay@.len() {
                    assert(rest.subrange(0, needle@.len() as int) == hay@.subrange(
                        i as int,
                        i + needle@.len(),
                    ));
                }
            }
        }
        if needle.len() == 0 {
            out.append(with);
            push_char(&mut out, hay[i]);
            i = i + 1;
        } else if matches_at(&hay, &needle, i) {
            out.append(with);
            proof {
                assert(rest.skip(needle@.len() as int) == hay@.skip(i + needle@.len()));
            }
            i = i + needle.len();
        } else {
            push_char(&mut out, hay[i]);
            i = i + 1;
        }
    }
    if needle.len() == 0 {
        out.append(with);
    }
    proof {
        assert(hay@.skip(i as int).len() == 0);
    }
    out
}

/// The decimal digit of value `d`.
pub open spec fn digit(d: nat) -> char
    recommends
        d < 10,
{
    ((48 + d) as u8) as char
}

/// The decimal numeral of `n`, without leading zeros.
pub open spec fn decimal(n: nat) -> Seq<char>
    decreases n,
{
    if n < 10 {
        seq![digit(n)]
    } else {
        decimal(n / 10).push(digit(n % 10))
    }
}

/// The decimal numeral of `n`.
pub fn decimal_of(n: usize) -> (out: String)
    ensures
        out@ == decimal(n as nat),
{
    let mut digits: Vec<char> = Vec::new();
    let mut rest: usize = n;
    while rest >= 10
        invariant
            decimal(n as nat) == decimal(rest as nat) + digits@.reverse(),
        decreases rest,
    {
        let d: u8 = (rest % 10) as u8;
        let c: char = (48u8 + d) as char;
        proof {
            let ghost shown = digits@.reverse();
            assert(digits@.push(c).reverse() == seq![c] + shown);
            assert(decimal(rest as nat) == decimal((rest / 10) as nat).push(c));
        }
        digits.push(c);
        rest = rest / 10;
    }
    let mut out = String::new();
    push_char(&mut out, (48u8 + (rest as u8)) as char);
    let mut i: usize = digits.len();
    while i > 0
        invariant
            i <= digits.len(),
            out@ == decimal(rest as nat) + digits@.reverse().take(digits.len() - i),
        decreases i,
    {
        i = i - 1;
        proof {
            let r = digits@.reverse();
            assert(r.take(digits.len() - i) == r.take(digits.len() - i - 1).push(digits@[i as int]));
        }
        push_char(&mut out, digits[i]);
    }
    assert(digits@.reverse().take(digits.len() as int) == digits@.reverse());
    out
}

/// The index of the character that starts at byte offset `k`, if one does
/// (or if `k` is the end of the text).
pub fn split_index(v: &Vec<char>, k: usize) -> (found: Option<usize>)
    ensures
        match found {
            Some(i) => on_boundary(v@, k as int) && i == index_at(v@, k as int) && i <= v.len(),
            None => !on_boundary(v@, k as int),
        },
{
    let mut i: usize = 0;
    let mut at: usize = 0;
    proof {
        lemma_offset_ends(v@);
    }
    while at < k && i < v.len()
        invariant
            i <= v.len(),
            at == offset(v@, i as int),
            forall|j: int| 0 <= j < i ==> offset(v@, j) < k,
        decreases v.len() - i,
    {
        proof {
            lemma_offset_step(v@, i as int);
        }
        let w = width_of(v[i]);
        if w > k - at {
            proof {
                assert forall|j: int| 0 <= j <= v.len() implies offset(v@, j) != k by {
                    if j > i + 1 {
                        lemma_offset_monotone(v@, i + 1, j);
                    }
                }
            }
            return None;
        }
        at = at + w;
        i = i + 1;
    }
    if at == k {
        proof {
            lemma_index_at(v@, i as int);
        }
        Some(i)
    } else {
        proof {
            assert forall|j: int| 0 <= j <= v.len() implies offset(v@, j) != k by {
                if j > i {
                    lemma_offset_monotone(v@, i as int, j);
                }
            }
        }
        None
    }
}

/// `String::from_utf8` of std: the string that the bytes encode, if they
/// are valid UTF-8.
#[verifier::external_body]
fn from_utf8(bytes: Vec<u8>) -> (text: Option<String>)
    ensures
        text is Some <==> valid_utf8(bytes@),
        text matches Some(s) ==> s@ == decode_utf8(bytes@),
{
    match String::from_utf8(bytes) {
        Ok(s) => Some(s),
        Err(_) => None,
    }
}

/// The bytes without one trailing line feed or NUL.
pub open spec fn chomped(bytes: Seq<u8>) -> Seq<u8> {
    if bytes.len() > 0 && (bytes.last() == 10 || bytes.last() == 0) {
        bytes.drop_last()
    } else {
        bytes
    }
}

/// The text of a line that was read as bytes: what they encode without
/// their terminator, or the empty text where that is no valid UTF-8.
pub open spec fn line_text(bytes: Seq<u8>) -> Seq<char> {
    if valid_utf8(chomped(bytes)) {
        decode_utf8(chomped(bytes))
    } else {
        Seq::<char>::empty()
    }
}

/// The text of a line that was read as bytes.
pub fn decode_line(bytes: Vec<u8>) -> (line: String)
    ensures
        line@ == line_text(bytes@),
{
    let mut bytes = bytes;
    let n = bytes.len();
    if n > 0 && (bytes[n - 1] == 10 || bytes[n - 1] == 0) {
        bytes.pop();
    }
    match from_utf8(bytes) {
        Some(line) => line,
        None => String::new(),
    }
}

} // verus!
