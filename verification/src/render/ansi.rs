//! Terminal colours, written with owo-colors.

use vstd::prelude::*;
use owo_colors::{AnsiColors, OwoColorize, Style};
use crate::text::{find, lemma_find, lemma_find_first, matches_at};

verus! {

/// The standard colours the fetch uses.
#[derive(Debug, Clone, Copy, PartialEq, Eq, Structural)]
pub enum Color {
    Cyan,
    Blue,
    Magenta,
    Red,
    Yellow,
    Green,
}

/// The ANSI foreground code of a colour.
pub open spec fn ansi_code(c: Color) -> Seq<char> {
    match c {
        Color::Cyan => "36"@,
        Color::Blue => "34"@,
        Color::Magenta => "35"@,
        Color::Red => "31"@,
        Color::Yellow => "33"@,
        Color::Green => "32"@,
    }
}

/// Text in a foreground colour: the colour's escape code, the text, and the
/// reset to the default foreground.
pub open spec fn painted(text: Seq<char>, c: Color) -> Seq<char> {
    "\x1b["@ + ansi_code(c) + "m"@ + text + "\x1b[39m"@
}

/// The text with its escape sequences (an `ESC [` up to the next `m`) taken
/// out: the characters that the terminal shows.
pub open spec fn strip_ansi(s: Seq<char>) -> Seq<char>
    decreases s.len(),
{
    if s.len() == 0 {
        seq![]
    } else if s.len() > 1 && s[0] == '\x1b' && s[1] == '[' {
        match find(s, seq!['m']) {
            Some(i) => {
                proof {
                    lemma_find(s, seq!['m']);
                }
                strip_ansi(s.skip(i + 1))
            },
            None => seq![],
        }
    } else {
        seq![s[0]] + strip_ansi(s.drop_first())
    }
}

/// An escape sequence of four characters and an `m` is taken out whole.
proof fn lemma_strip_escape(e: Seq<char>, rest: Seq<char>)
    requires
        e.len() == 4,
        e[0] == '\x1b',
        e[1] == '[',
        e[2] != 'm',
        e[3] != 'm',
    ensures
        strip_ansi(e + seq!['m'] + rest) == strip_ansi(rest),
{
    let s = e + seq!['m'] + rest;
    let m = seq!['m'];
    assert(s.subrange(4, 5) =~= m);
    assert forall|j: int| 0 <= j < 4 implies !#[trigger] matches_at(s, m, j) by {
        assert(s.subrange(j, j + 1)[0] == e[j]);
    }
    lemma_find_first(s, m, 4);
    assert(s.skip(5) =~= rest);
}

/// A painted character that is not an escape shows as itself.
pub proof fn lemma_strip_painted(g: char, c: Color, rest: Seq<char>)
    requires
        g != '\x1b',
    ensures
        strip_ansi(painted(seq![g], c) + rest) == seq![g] + strip_ansi(rest),
{
    reveal_strlit("\x1b[");
    reveal_strlit("m");
    reveal_strlit("\x1b[39m");
    reveal_strlit("36");
    reveal_strlit("34");
    reveal_strlit("35");
    reveal_strlit("31");
    reveal_strlit("33");
    reveal_strlit("32");
    let code = ansi_code(c);
    assert(code.len() == 2 && code[0] == '3' && code[1] != 'm');
    let e1 = seq!['\x1b', '[', code[0], code[1]];
    let e2 = seq!['\x1b', '[', '3', '9'];
    let tail = seq![g] + e2 + seq!['m'] + rest;
    assert(painted(seq![g], c) + rest =~= e1 + seq!['m'] + tail);
    lemma_strip_escape(e1, tail);
    assert(tail[0] == g);
    assert(tail.drop_first() =~= e2 + seq!['m'] + rest);
    lemma_strip_escape(e2, rest);
}

/// Text dimmed: the dim escape code, the text, and the full reset.
pub open spec fn dimmed(text: Seq<char>) -> Seq<char> {
    "\x1b[2m"@ + text + "\x1b[0m"@
}

/// Text in a style with only a foreground colour: the colour's escape code,
/// the text, and the full reset.
pub open spec fn styled(text: Seq<char>, c: Color) -> Seq<char> {
    "\x1b["@ + ansi_code(c) + "m"@ + text + "\x1b[0m"@
}

/// `OwoColorize::color` with a standard colour, written with `to_string`.
/// As owo-colors' source writes it, the result is the colour's foreground
/// escape (`ESC[3Nm`), the text, and `ESC[39m`.
#[verifier::external_body]
pub(crate) fn paint(text: &str, c: Color) -> (r: String)
    ensures
        r@ == painted(text@, c),
{
    let ansi = match c {
        Color::Cyan => AnsiColors::Cyan,
        Color::Blue => AnsiColors::Blue,
        Color::Magenta => AnsiColors::Magenta,
        Color::Red => AnsiColors::Red,
        Color::Yellow => AnsiColors::Yellow,
        Color::Green => AnsiColors::Green,
    };
    text.color(ansi).to_string()
}

/// `OwoColorize::dimmed`, written with `to_string`. As owo-colors' source
/// writes it, the result is `ESC[2m`, the text, and `ESC[0m`.
#[verifier::external_body]
pub(crate) fn dim(text: &str) -> (r: String)
    ensures
        r@ == dimmed(text@),
{
    text.dimmed().to_string()
}

/// `OwoColorize::style` with a `Style` that sets only a foreground colour,
/// written with `to_string`. As owo-colors' source writes such a style, the
/// result is the colour's foreground escape (`ESC[3Nm`), the text, and
/// `ESC[0m`.
#[verifier::external_body]
pub(crate) fn style_text(text: &str, c: Color) -> (r: String)
    ensures
        r@ == styled(text@, c),
{
    let ansi = match c {
        Color::Cyan => AnsiColors::Cyan,
        Color::Blue => AnsiColors::Blue,
        Color::Magenta => AnsiColors::Magenta,
        Color::Red => AnsiColors::Red,
        Color::Yellow => AnsiColors::Yellow,
        Color::Green => AnsiColors::Green,
    };
    text.style(Style::new().color(ansi)).to_string()
}

} // verus!
