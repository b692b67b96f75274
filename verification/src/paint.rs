//! Text painted for a terminal: the text between the escape sequence that
//! sets its colours and the one that resets them.

use vstd::prelude::*;
use crate::color::Rgb;
use crate::number::decimal_of;

verus! {

/// The parameters that select `color` after the `3` of a foreground or the
/// `4` of a background: `8;2;` and the three parts, separated by `;`.
pub open spec fn color_code(color: Rgb) -> Seq<char> {
    seq!['8', ';', '2', ';'] + decimal_of(color.0 as nat) + seq![';'] + decimal_of(color.1 as nat)
        + seq![';'] + decimal_of(color.2 as nat)
}

/// The escape sequence that sets the style: `ESC [`, `1;` where the text is
/// bold, the background, `;`, the foreground, and `m`.
pub open spec fn style_prefix(foreground: Rgb, background: Rgb, bold: bool) -> Seq<char> {
    seq!['\x1b', '['] + (if bold {
        seq!['1', ';']
    } else {
        Seq::empty()
    }) + seq!['4'] + color_code(background) + seq![';', '3'] + color_code(foreground) + seq!['m']
}

/// The escape sequence that resets the style: `ESC [ 0 m`.
pub open spec fn style_reset() -> Seq<char> {
    seq!['\x1b', '[', '0', 'm']
}

/// `text` in the colours `foreground` on `background`.
pub open spec fn painted(text: Seq<char>, foreground: Rgb, background: Rgb, bold: bool) -> Seq<
    char,
> {
    style_prefix(foreground, background, bold) + text + style_reset()
}

/// `n` spaces.
pub open spec fn blanks(n: nat) -> Seq<char> {
    Seq::new(n, |i: int| ' ')
}

/// Builds an `ansi_term::Style` with both colours, paints `text` with
/// `Style::paint` and writes the result out with `to_string`: `ESC [`, the
/// background as `48;2;r;g;b`, `;`, the foreground as `38;2;r;g;b`, `m`, the
/// text as it is, and the reset sequence `ESC [ 0 m`.
#[verifier::external_body]
pub(crate) fn paint(text: &str, foreground: Rgb, background: Rgb) -> (r: String)
    ensures
        r@ == painted(text@, foreground, background, false),
{
    ansi_term::Style::new()
        .fg(ansi_term::Colour::RGB(foreground.0, foreground.1, foreground.2))
        .on(ansi_term::Colour::RGB(background.0, background.1, background.2))
        .paint(text)
        .to_string()
}

/// As `paint`, with `Style::bold` applied to the style: the escape sequence
/// then holds `1;` before the colours.
#[verifier::external_body]
pub(crate) fn paint_bold(text: &str, foreground: Rgb, background: Rgb) -> (r: String)
    ensures
        r@ == painted(text@, foreground, background, true),
{
    ansi_term::Style::new()
        .fg(ansi_term::Colour::RGB(foreground.0, foreground.1, foreground.2))
        .on(ansi_term::Colour::RGB(background.0, background.1, background.2))
        .bold()
        .paint(text)
        .to_string()
}

/// A string of `n` spaces.
pub fn spaces(n: u128) -> (r: String)
    ensures
        r@ == blanks(n as nat),
{
    let mut r = String::new();
    let mut i: u128 = 0;
    while i < n
        invariant
            i <= n,
            r@ == blanks(i as nat),
        decreases n - i,
    {
        r.push(' ');
        i += 1;
        assert(blanks(i as nat) =~= blanks((i - 1) as nat).push(' '));
    }
    r
}

} // verus!
