use vstd::prelude::*;

use colored::Colorize;

verus! {

#[verifier::external_type_specification]
pub struct ExColor(colored::Color);

/// The select-graphic-rendition code that selects `color` as the foreground
/// colour of a terminal.
pub open spec fn foreground_code(color: colored::Color) -> Seq<char> {
    match color {
        colored::Color::Black => seq!['3', '0'],
        colored::Color::Red => seq!['3', '1'],
        colored::Color::Green => seq!['3', '2'],
        colored::Color::Yellow => seq!['3', '3'],
        colored::Color::Blue => seq!['3', '4'],
        colored::Color::Magenta => seq!['3', '5'],
        colored::Color::Cyan => seq!['3', '6'],
        colored::Color::White => seq!['3', '7'],
        colored::Color::BrightBlack => seq!['9', '0'],
        colored::Color::BrightRed => seq!['9', '1'],
        colored::Color::BrightGreen => seq!['9', '2'],
        colored::Color::BrightYellow => seq!['9', '3'],
        colored::Color::BrightBlue => seq!['9', '4'],
        colored::Color::BrightMagenta => seq!['9', '5'],
        colored::Color::BrightCyan => seq!['9', '6'],
        colored::Color::BrightWhite => seq!['9', '7'],
        colored::Color::TrueColor { .. } => Seq::empty(),
    }
}

/// The escape sequence `ESC [ code m`.
pub open spec fn sgr(code: Seq<char>) -> Seq<char> {
    seq!['\x1b', '['] + code + seq!['m']
}

/// The escape sequence `ESC [ 0 m`, which resets every colour and style.
pub open spec fn reset_sequence() -> Seq<char> {
    seq!['\x1b', '[', '0', 'm']
}

/// `text` with `opening` inserted after each reset sequence in it, scanning
/// from the left for occurrences that do not overlap.
pub open spec fn reopened(text: Seq<char>, opening: Seq<char>) -> Seq<char>
    decreases text.len(),
{
    if text.len() == 0 {
        Seq::empty()
    } else if text.len() >= 4 && text.take(4) == reset_sequence() {
        reset_sequence() + opening + reopened(text.skip(4), opening)
    } else {
        seq![text[0]] + reopened(text.drop_first(), opening)
    }
}

/// `out` is `text` as the terminal-colouring library renders it in the
/// colour with foreground `code`: unchanged where colouring is switched off
/// for this process, otherwise opened with that colour, reopened after every
/// reset inside it, and closed with a reset.
pub open spec fn painted(out: Seq<char>, text: Seq<char>, code: Seq<char>) -> bool {
    ||| out == text
    ||| out == sgr(code) + reopened(text, sgr(code)) + reset_sequence()
}

/// Relies on `colored::Colorize::color` on a `&str` and on the `Display` of
/// the `ColoredString` it returns: where the crate decides (from the
/// environment and the terminal) not to colour, the text comes back as it
/// is; otherwise it is wrapped in `ESC [ code m` ... `ESC [ 0 m`, and every
/// `ESC [ 0 m` inside it is followed by `ESC [ code m` again. A true colour
/// takes its code from the environment too, so it is left out.
#[verifier::external_body]
pub(crate) fn paint(text: &str, color: colored::Color) -> (r: String)
    requires
        !(color is TrueColor),
    ensures
        painted(r@, text@, foreground_code(color)),
{
    text.color(color).to_string()
}

} // verus!
