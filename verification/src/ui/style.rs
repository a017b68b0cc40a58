//! The escape sequences that style the text of a render.
use vstd::prelude::*;

verus! {

/// The sequence that switches bold text on.
pub open spec fn bold_code() -> Seq<char> {
    seq!['\u{1b}', '[', '1', 'm']
}

/// The sequence that resets every style.
pub open spec fn reset_code() -> Seq<char> {
    seq!['\u{1b}', '[', 'm']
}

/// The sequence that sets the foreground to the colour of the given digit in
/// the palette of 256.
pub open spec fn foreground_code(digit: char) -> Seq<char> {
    seq!['\u{1b}', '[', '3', '8', ';', '5', ';', digit, 'm']
}

/// `Display` of `termion::style::Bold`: CSI followed by `1m`.
#[verifier::external_body]
pub(crate) fn bold() -> (code: String)
    ensures
        code@ == bold_code(),
{
    format!("{}", termion::style::Bold)
}

/// `Display` of `termion::style::Reset`: CSI followed by `m`.
#[verifier::external_body]
pub(crate) fn reset() -> (code: String)
    ensures
        code@ == reset_code(),
{
    format!("{}", termion::style::Reset)
}

/// `Display` of `termion::color::Fg` on `termion::color::White`: CSI followed
/// by `38;5;7m`.
#[verifier::external_body]
pub(crate) fn white() -> (code: String)
    ensures
        code@ == foreground_code('7'),
{
    format!("{}", termion::color::Fg(termion::color::White))
}

/// `Display` of `termion::color::Fg` on `termion::color::Red`: CSI followed
/// by `38;5;1m`.
#[verifier::external_body]
pub(crate) fn red() -> (code: String)
    ensures
        code@ == foreground_code('1'),
{
    format!("{}", termion::color::Fg(termion::color::Red))
}

/// `Display` of `termion::color::Fg` on `termion::color::Blue`: CSI followed
/// by `38;5;4m`.
#[verifier::external_body]
pub(crate) fn blue() -> (code: String)
    ensures
        code@ == foreground_code('4'),
{
    format!("{}", termion::color::Fg(termion::color::Blue))
}

} // verus!
