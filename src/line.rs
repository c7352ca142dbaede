use vstd::prelude::*;

use crate::escape::{
    escaping_after, lemma_strip_concat, lemma_strip_plain, lemma_strip_without_open, strip_from,
    stripped_chars,
};
use crate::level::LogLevel;
use crate::paint::{foreground_code, paint, painted, reopened, reset_sequence, sgr};

verus! {

/// The five-character tag that names `level` in a log line.
pub open spec fn tag_of(level: LogLevel) -> Seq<char> {
    match level {
        LogLevel::Trace => seq!['T', 'R', 'A', 'C', 'E'],
        LogLevel::Debug => seq!['D', 'E', 'B', 'U', 'G'],
        LogLevel::Info => seq!['I', 'N', 'F', 'O', ' '],
        LogLevel::Warn => seq!['W', 'A', 'R', 'N', ' '],
        LogLevel::Error => seq!['E', 'R', 'R', 'O', 'R'],
        LogLevel::Off => Seq::empty(),
    }
}

/// The colour of the tag of `level`; `Trace` keeps the terminal's default.
pub open spec fn tag_color_of(level: LogLevel) -> Option<colored::Color> {
    match level {
        LogLevel::Debug => Some(colored::Color::Magenta),
        LogLevel::Info => Some(colored::Color::Cyan),
        LogLevel::Warn => Some(colored::Color::Yellow),
        LogLevel::Error => Some(colored::Color::Red),
        _ => None,
    }
}

/// `out` is the tag of `level` in its colour.
pub open spec fn tag_painted(out: Seq<char>, level: LogLevel) -> bool {
    match tag_color_of(level) {
        Some(color) => painted(out, tag_of(level), foreground_code(color)),
        None => out == tag_of(level),
    }
}

/// `line` is the log line for `message` at `level` stamped `stamp`: the
/// stamp in cyan, the tag in its colour, a space, the message in white and a
/// line break.
pub open spec fn rendered(line: Seq<char>, stamp: Seq<char>, level: LogLevel, message: Seq<char>) -> bool {
    exists|a: Seq<char>, b: Seq<char>, c: Seq<char>|
        #![trigger painted(a, stamp, foreground_code(colored::Color::Cyan)), tag_painted(b, level), painted(c, message, foreground_code(colored::Color::White))]
        {
            &&& line == a + b + seq![' '] + c + seq!['\n']
            &&& painted(a, stamp, foreground_code(colored::Color::Cyan))
            &&& tag_painted(b, level)
            &&& painted(c, message, foreground_code(colored::Color::White))
        }
}

/// The tag that names `level` in a log line.
pub fn level_tag(level: LogLevel) -> (r: &'static str)
    ensures
        r@ == tag_of(level),
{
    proof {
        reveal_strlit("TRACE");
        reveal_strlit("DEBUG");
        reveal_strlit("INFO ");
        reveal_strlit("WARN ");
        reveal_strlit("ERROR");
        reveal_strlit("");
    }
    match level {
        LogLevel::Trace => "TRACE",
        LogLevel::Debug => "DEBUG",
        LogLevel::Info => "INFO ",
        LogLevel::Warn => "WARN ",
        LogLevel::Error => "ERROR",
        LogLevel::Off => "",
    }
}

/// The colour of the tag of `level`.
pub fn tag_color(level: LogLevel) -> (r: Option<colored::Color>)
    ensures
        r == tag_color_of(level),
{
    match level {
        LogLevel::Debug => Some(colored::Color::Magenta),
        LogLevel::Info => Some(colored::Color::Cyan),
        LogLevel::Warn => Some(colored::Color::Yellow),
        LogLevel::Error => Some(colored::Color::Red),
        _ => None,
    }
}

/// Joins the parts of a log line: stamp, tag, a space, message, line break.
pub fn compose_line(stamp: &str, tag: &str, message: &str) -> (r: String)
    ensures
        r@ == stamp@ + tag@ + seq![' '] + message@ + seq!['\n'],
{
    let space: &str = " ";
    let line_break: &str = "\n";
    proof {
        reveal_strlit(" ");
        reveal_strlit("\n");
    }
    let mut line: String = String::from_str(stamp);
    line.append(tag);
    line.append(space);
    line.append(message);
    line.append(line_break);
    line
}

/// Renders the log line for `message` at `level`, stamped `stamp`, with the
/// colours of the terminal-colouring library.
pub fn render_line(stamp: &str, level: LogLevel, message: &str) -> (r: String)
    ensures
        rendered(r@, stamp@, level, message@),
{
    let stamp_painted: String = paint(stamp, colored::Color::Cyan);
    let tag: &str = level_tag(level);
    let tag_text: String = match tag_color(level) {
        Some(color) => paint(tag, color),
        None => tag.to_owned(),
    };
    let message_painted: String = paint(message, colored::Color::White);
    let line: String = compose_line(
        stamp_painted.as_str(),
        tag_text.as_str(),
        message_painted.as_str(),
    );
    assert(tag_painted(tag_text@, level));
    line
}

/// No character of `s` is ESC.
pub open spec fn free_of_escape(s: Seq<char>) -> bool {
    forall|i: int| 0 <= i < s.len() ==> s[i] != '\x1b'
}

/// Neither ESC nor `m` occurs in `code`.
pub open spec fn inert_code(code: Seq<char>) -> bool {
    forall|i: int| 0 <= i < code.len() ==> code[i] != '\x1b' && code[i] != 'm'
}

/// Every basic foreground code is made of digits.
proof fn lemma_foreground_code_inert(color: colored::Color)
    requires
        !(color is TrueColor),
    ensures
        inert_code(foreground_code(color)),
{
    let code = foreground_code(color);
    assert(code.len() == 2);
    assert('0' <= code[0] <= '9' && '0' <= code[1] <= '9');
}

/// A text without ESC holds no reset sequence, so nothing is reopened in it.
proof fn lemma_reopened_plain(text: Seq<char>, opening: Seq<char>)
    requires
        free_of_escape(text),
    ensures
        reopened(text, opening) == text,
    decreases text.len(),
{
    if text.len() > 0 {
        if text.len() >= 4 {
            assert(text.take(4)[0] != reset_sequence()[0]);
        }
        lemma_reopened_plain(text.drop_first(), opening);
        assert(seq![text[0]] + text.drop_first() =~= text);
    }
}

/// A complete escape sequence with an inert code is dropped whole and ends
/// the scan outside any sequence.
proof fn lemma_sgr_dropped(code: Seq<char>)
    requires
        inert_code(code),
    ensures
        strip_from(sgr(code), '\x1b', 'm', false) == Seq::<char>::empty(),
        !escaping_after(sgr(code), '\x1b', 'm', false),
{
    let middle = seq!['['] + code;
    let opening = seq!['\x1b'];
    let closing = seq!['m'];
    assert(sgr(code) =~= opening + (middle + closing));
    assert forall|i: int| 0 <= i < middle.len() implies #[trigger] middle[i] != '\x1b' && middle[i]
        != 'm' by {
        if i > 0 {
            assert(middle[i] == code[i - 1]);
        }
    }
    lemma_strip_plain(middle, '\x1b', 'm', true);
    lemma_strip_concat(middle, closing, '\x1b', 'm', true);
    lemma_strip_concat(opening, middle + closing, '\x1b', 'm', false);
    assert(opening.drop_first() =~= Seq::<char>::empty());
    assert(closing.drop_first() =~= Seq::<char>::empty());
    assert(strip_from(opening.drop_first(), '\x1b', 'm', true) =~= Seq::<char>::empty());
    assert(strip_from(closing.drop_first(), '\x1b', 'm', false) =~= Seq::<char>::empty());
    assert(escaping_after(opening.drop_first(), '\x1b', 'm', true));
    assert(!escaping_after(closing.drop_first(), '\x1b', 'm', false));
    assert(strip_from(opening, '\x1b', 'm', false) =~= Seq::<char>::empty());
    assert(escaping_after(opening, '\x1b', 'm', false));
    assert(strip_from(closing, '\x1b', 'm', true) =~= Seq::<char>::empty());
    assert(!escaping_after(closing, '\x1b', 'm', true));
    assert(Seq::<char>::empty() + Seq::<char>::empty() =~= Seq::<char>::empty());
}

/// A painted text without ESC strips back to the text, whether or not it
/// was coloured, and leaves the scan outside any escape sequence.
proof fn lemma_painted_stripped(out: Seq<char>, text: Seq<char>, code: Seq<char>)
    requires
        painted(out, text, code),
        free_of_escape(text),
        inert_code(code),
    ensures
        strip_from(out, '\x1b', 'm', false) == text,
        !escaping_after(out, '\x1b', 'm', false),
{
    lemma_strip_without_open(text, '\x1b', 'm');
    if out != text {
        lemma_reopened_plain(text, sgr(code));
        lemma_sgr_dropped(code);
        assert(reset_sequence() =~= sgr(seq!['0']));
        assert(inert_code(seq!['0']));
        lemma_sgr_dropped(seq!['0']);
        lemma_strip_concat(sgr(code), text, '\x1b', 'm', false);
        lemma_strip_concat(sgr(code) + text, reset_sequence(), '\x1b', 'm', false);
        assert(Seq::<char>::empty() + text =~= text);
        assert(text + Seq::<char>::empty() =~= text);
    }
}

/// Once escape sequences are taken out, a log line whose stamp and message
/// hold no ESC is exactly the stamp, the tag, a space, the message and a line
/// break, whether or not the terminal-colouring library coloured it.
pub proof fn lemma_rendered_line_stripped(
    line: Seq<char>,
    stamp: Seq<char>,
    level: LogLevel,
    message: Seq<char>,
)
    requires
        rendered(line, stamp, level, message),
        free_of_escape(stamp),
        free_of_escape(message),
    ensures
        stripped_chars(line) == stamp + tag_of(level) + seq![' '] + message + seq!['\n'],
{
    let (a, b, c) = choose|a: Seq<char>, b: Seq<char>, c: Seq<char>|
        {
            &&& line == a + b + seq![' '] + c + seq!['\n']
            &&& painted(a, stamp, foreground_code(colored::Color::Cyan))
            &&& tag_painted(b, level)
            &&& painted(c, message, foreground_code(colored::Color::White))
        };
    let tag = tag_of(level);
    let space = seq![' '];
    let line_break = seq!['\n'];
    lemma_foreground_code_inert(colored::Color::Cyan);
    lemma_foreground_code_inert(colored::Color::White);
    lemma_painted_stripped(a, stamp, foreground_code(colored::Color::Cyan));
    lemma_painted_stripped(c, message, foreground_code(colored::Color::White));
    assert(free_of_escape(tag));
    match tag_color_of(level) {
        Some(color) => {
            lemma_foreground_code_inert(color);
            lemma_painted_stripped(b, tag, foreground_code(color));
        },
        None => {
            lemma_strip_without_open(tag, '\x1b', 'm');
        },
    }
    lemma_strip_without_open(space, '\x1b', 'm');
    lemma_strip_without_open(line_break, '\x1b', 'm');
    lemma_strip_concat(a, b, '\x1b', 'm', false);
    lemma_strip_concat(a + b, space, '\x1b', 'm', false);
    lemma_strip_concat(a + b + space, c, '\x1b', 'm', false);
    lemma_strip_concat(a + b + space + c, line_break, '\x1b', 'm', false);
}

} // verus!
