//! Colours: 8-bit RGB triples, read from CSS colour expressions.

use vstd::prelude::*;

verus! {

/// A colour as its red, green and blue parts.
pub type Rgb = (u8, u8, u8);

/// The colour that the CSS colour expression `text` denotes, alpha left out;
/// `None` where `text` is no colour expression.
///
/// This is the result of `csscolorparser::parse` on `text`, turned into
/// 8-bit parts by `Color::to_rgba8`.
pub uninterp spec fn css_color(text: Seq<char>) -> Option<Rgb>;

/// Calls `csscolorparser::parse` and, on a colour, `Color::to_rgba8`, of
/// which the first three parts are handed back. The parser reads its
/// argument and nothing else, so what comes back is `css_color` of the text.
#[verifier::external_body]
pub(crate) fn parse_color(color: &str) -> (rgb: Option<Rgb>)
    ensures
        rgb == css_color(color@),
{
    match csscolorparser::parse(color) {
        Ok(parsed) => {
            let parts = parsed.to_rgba8();
            Some((parts[0], parts[1], parts[2]))
        },
        Err(_) => None,
    }
}

/// The colour to keep once a colour expression was read: the one that was
/// read, or `current` where the expression was malformed.
pub fn chosen_color(current: Rgb, parsed: Option<Rgb>) -> (rgb: Rgb)
    ensures
        rgb == match parsed {
            Some(color) => color,
            None => current,
        },
{
    match parsed {
        Some(color) => color,
        None => current,
    }
}

} // verus!
