//! The line of the clock: label, date and time between painted separators,
//! padded to the width of the terminal.
//!
//! The style of a line (its colours, its painted separators and the width
//! that separators and spacing take) is computed once, when the colours or
//! the configuration change; a line is then composed from it for each
//! label, date, time and width.

use vstd::prelude::*;
use vstd::string::StringExecFns;
use vstd::utf8::encode_utf8;
use crate::color::Rgb;
use crate::paint::{blanks, paint, paint_bold, painted, spaces};

verus! {

/// The columns that separators and spacing take where every separator is
/// one column wide.
pub const BASE_WIDTH: i64 = 9;

/// Where the text stands in the line.
#[derive(Clone, Copy, Debug, PartialEq, Eq, Structural)]
pub enum TextAlign {
    Right,
    Left,
    Center,
}

/// The style of a line, once computed.
pub struct LineView {
    pub background_color: Rgb,
    pub foreground_color: Rgb,
    pub pane_color: Rgb,
    /// The painted separators: before the label (after the time where the
    /// text is aligned left), between label and date, between date and time.
    pub separator: (Seq<char>, Seq<char>, Seq<char>),
    /// One painted space.
    pub space: Seq<char>,
    /// The columns that separators and spacing take.
    pub padding: int,
    pub text_align: TextAlign,
}

/// The alignment that `name` names: `left`, `center`, or `right`, which any
/// other name stands for too.
pub open spec fn alignment_of(name: Seq<char>) -> TextAlign {
    if name == "left"@ {
        TextAlign::Left
    } else if name == "center"@ {
        TextAlign::Center
    } else {
        TextAlign::Right
    }
}

/// The style of a line in the given colours, with the given separators
/// (unpainted), adjustment of the width, and name of the alignment.
///
/// A space is painted in the background colour. The first separator is
/// painted bold in the background colour on the pane colour, the other two
/// bold in the pane colour on the background colour. The first stands
/// before a space, or after it where the text is aligned left; the other
/// two stand between two spaces.
pub open spec fn styled(
    background_color: Rgb,
    foreground_color: Rgb,
    pane_color: Rgb,
    separator: (Seq<char>, Seq<char>, Seq<char>),
    padding_adjust: i32,
    text_align: Seq<char>,
) -> LineView {
    let space = painted(seq![' '], background_color, background_color, false);
    let first = painted(separator.0, background_color, pane_color, true);
    let second = painted(separator.1, pane_color, background_color, true);
    let third = painted(separator.2, pane_color, background_color, true);
    LineView {
        background_color,
        foreground_color,
        pane_color,
        separator: (
            if alignment_of(text_align) == TextAlign::Left {
                space + first
            } else {
                first + space
            },
            space + second + space,
            space + third + space,
        ),
        space,
        padding: BASE_WIDTH + padding_adjust,
        text_align: alignment_of(text_align),
    }
}

/// The style of a line that was never styled: black, without separators.
pub open spec fn blank_style() -> LineView {
    LineView {
        background_color: (0, 0, 0),
        foreground_color: (0, 0, 0),
        pane_color: (0, 0, 0),
        separator: (Seq::empty(), Seq::empty(), Seq::empty()),
        space: Seq::empty(),
        padding: 0,
        text_align: TextAlign::Right,
    }
}

/// The columns that a character of a label is taken to fill: one for an
/// ASCII character, two for any other.
pub open spec fn char_width(c: char) -> nat {
    if (c as u32) < 128 {
        1
    } else {
        2
    }
}

/// The columns that a label is taken to fill.
pub open spec fn label_width(label: Seq<char>) -> nat
    decreases label.len(),
{
    if label.len() == 0 {
        0
    } else {
        label_width(label.drop_last()) + char_width(label.last())
    }
}

/// The columns that label, date and time are taken to fill. Date and time
/// count one column for each byte of their UTF-8 encoding.
pub open spec fn content_width(label: Seq<char>, date: Seq<char>, time: Seq<char>) -> nat {
    label_width(label) + encode_utf8(date).len() + encode_utf8(time).len()
}

/// The columns of a terminal `cols` wide that the text and its separators
/// leave free. Negative where the terminal is too narrow.
pub open spec fn free_columns(
    v: LineView,
    cols: int,
    label: Seq<char>,
    date: Seq<char>,
    time: Seq<char>,
) -> int {
    cols - (content_width(label, date, time) + v.padding)
}

/// The length of a run of padding: nothing where no column is free, half of
/// the free columns, rounded down, where the text is centred (the run then
/// stands on both sides), and all free columns otherwise.
pub open spec fn padding_columns(text_align: TextAlign, free: int) -> nat {
    if free <= 0 {
        0
    } else if text_align == TextAlign::Center {
        (free / 2) as nat
    } else {
        free as nat
    }
}

/// A run of padding: spaces painted in the foreground colour on the pane
/// colour, and nothing at all where no column is free.
pub open spec fn padding_text(v: LineView, free: int) -> Seq<char> {
    if free > 0 {
        painted(blanks(padding_columns(v.text_align, free)), v.foreground_color, v.pane_color, false)
    } else {
        Seq::empty()
    }
}

/// The line for a terminal `cols` wide. Label, date and time are painted in
/// the foreground colour on the background colour.
pub open spec fn rendered(
    v: LineView,
    cols: int,
    label: Seq<char>,
    date: Seq<char>,
    time: Seq<char>,
) -> Seq<char> {
    let padding = padding_text(v, free_columns(v, cols, label, date, time));
    let text = painted(label, v.foreground_color, v.background_color, false) + v.separator.1
        + painted(date, v.foreground_color, v.background_color, false) + v.separator.2 + painted(
        time,
        v.foreground_color,
        v.background_color,
        false,
    );
    match v.text_align {
        TextAlign::Right => padding + v.separator.0 + text + v.space,
        TextAlign::Left => v.space + text + v.separator.0 + padding,
        TextAlign::Center => padding + v.separator.0 + text + padding,
    }
}

/// The padding is never negative: a terminal too narrow for the text gets
/// none.
pub proof fn law_no_padding_when_narrow(v: LineView, free: int)
    requires
        free <= 0,
    ensures
        padding_columns(v.text_align, free) == 0,
        padding_text(v, free).len() == 0,
{
}

/// A line that fits is as wide as the terminal, counted as the line itself
/// counts: the text, the columns of separators and spacing, and the padding
/// make up `cols`. Where the text is centred the two runs of padding may
/// leave one column over, since each is half of the free columns, rounded
/// down.
pub proof fn law_line_fills_the_width(
    v: LineView,
    cols: int,
    label: Seq<char>,
    date: Seq<char>,
    time: Seq<char>,
)
    requires
        free_columns(v, cols, label, date, time) >= 0,
    ensures
        ({
            let run = padding_columns(v.text_align, free_columns(v, cols, label, date, time));
            let text = content_width(label, date, time) + v.padding;
            if v.text_align == TextAlign::Center {
                cols - 1 <= run + text + run <= cols
            } else {
                run + text == cols
            }
        }),
{
}

/// The columns that `label` is taken to fill.
pub fn measure(label: &str) -> (width: u128)
    ensures
        width == label_width(label@),
        width <= 2 * usize::MAX,
{
    let mut width: u128 = 0;
    let n = vstd::string::StrSliceExecFns::unicode_len(label);
    for c in it: label.chars()
        invariant
            it.seq() == label@,
            n == label@.len(),
            width == label_width(label@.take(it.index() as int)),
            width <= 2 * it.index(),
    {
        assert(label@.take(it.index() + 1).drop_last() =~= label@.take(it.index() as int));
        if (c as u32) < 128 {
            width += 1;
        } else {
            width += 2;
        }
    }
    assert(label@.take(label@.len() as int) =~= label@);
    width
}

/// The length of a run of padding where `free` columns are free.
pub fn run_length(text_align: TextAlign, free: i128) -> (columns: u128)
    ensures
        columns == padding_columns(text_align, free as int),
{
    if free <= 0 {
        0
    } else {
        match text_align {
            TextAlign::Right | TextAlign::Left => free as u128,
            TextAlign::Center => (free / 2) as u128,
        }
    }
}

/// A line of the clock with its style.
pub struct Line {
    background_color: Rgb,
    foreground_color: Rgb,
    pane_color: Rgb,
    separator: (String, String, String),
    space: String,
    padding: i64,
    text_align: TextAlign,
}

impl View for Line {
    type V = LineView;

    closed spec fn view(&self) -> LineView {
        LineView {
            background_color: self.background_color,
            foreground_color: self.foreground_color,
            pane_color: self.pane_color,
            separator: (self.separator.0@, self.separator.1@, self.separator.2@),
            space: self.space@,
            padding: self.padding as int,
            text_align: self.text_align,
        }
    }
}

impl Default for TextAlign {
    fn default() -> (text_align: TextAlign)
        ensures
            text_align == TextAlign::Right,
    {
        TextAlign::Right
    }
}

impl Default for Line {
    fn default() -> (line: Line)
        ensures
            line@ == blank_style(),
    {
        Line {
            background_color: (0, 0, 0),
            foreground_color: (0, 0, 0),
            pane_color: (0, 0, 0),
            separator: (String::new(), String::new(), String::new()),
            space: String::new(),
            padding: 0,
            text_align: TextAlign::Right,
        }
    }
}

impl Line {
    /// Computes the style anew.
    pub fn update_style(
        &mut self,
        background_color: Rgb,
        foreground_color: Rgb,
        pane_color: Rgb,
        separator: &(String, String, String),
        padding_adjust: i32,
        text_align: &str,
    )
        ensures
            final(self)@ == styled(
                background_color,
                foreground_color,
                pane_color,
                (separator.0@, separator.1@, separator.2@),
                padding_adjust,
                text_align@,
            ),
    {
        self.background_color = background_color;
        self.foreground_color = foreground_color;
        self.pane_color = pane_color;
        self.text_align = if *text_align == *"left" {
            TextAlign::Left
        } else if *text_align == *"center" {
            TextAlign::Center
        } else {
            TextAlign::Right
        };
        let space = paint(" ", background_color, background_color);
        proof {
            reveal_strlit(" ");
            assert(" "@ =~= seq![' ']);
        }
        let first = paint_bold(separator.0.as_str(), background_color, pane_color);
        let second = paint_bold(separator.1.as_str(), pane_color, background_color);
        let third = paint_bold(separator.2.as_str(), pane_color, background_color);
        let mut lead = String::new();
        match self.text_align {
            TextAlign::Right | TextAlign::Center => {
                lead.append(first.as_str());
                lead.append(space.as_str());
            },
            TextAlign::Left => {
                lead.append(space.as_str());
                lead.append(first.as_str());
            },
        }
        let mut mid = String::new();
        mid.append(space.as_str());
        mid.append(second.as_str());
        mid.append(space.as_str());
        let mut tail = String::new();
        tail.append(space.as_str());
        tail.append(third.as_str());
        tail.append(space.as_str());
        assert(lead@ =~= if alignment_of(text_align@) == TextAlign::Left {
            space@ + first@
        } else {
            first@ + space@
        });
        assert(mid@ =~= space@ + second@ + space@);
        assert(tail@ =~= space@ + third@ + space@);
        self.separator = (lead, mid, tail);
        self.space = space;
        self.padding = BASE_WIDTH + padding_adjust as i64;
    }

    /// The columns that label, date, time and their separators leave free
    /// in a terminal `cols` wide; negative where they do not fit.
    pub fn columns_left(&self, cols: usize, timezone: &str, date: &str, time: &str) -> (free: i128)
        ensures
            free == free_columns(self@, cols as int, timezone@, date@, time@),
    {
        let content: u128 = measure(timezone) + date.as_bytes().len() as u128
            + time.as_bytes().len() as u128;
        cols as i128 - (content as i128 + self.padding as i128)
    }

    /// The length of a run of padding in a line for a terminal `cols` wide.
    pub fn padding_length(&self, cols: usize, timezone: &str, date: &str, time: &str) -> (columns:
        u128)
        ensures
            columns == padding_columns(
                self@.text_align,
                free_columns(self@, cols as int, timezone@, date@, time@),
            ),
    {
        run_length(self.text_align, self.columns_left(cols, timezone, date, time))
    }

    /// Composes the line for a terminal `cols` wide.
    pub fn create(&self, cols: usize, timezone: &str, date: &str, time: &str) -> (line: String)
        ensures
            line@ == rendered(self@, cols as int, timezone@, date@, time@),
    {
        let free = self.columns_left(cols, timezone, date, time);
        let padding: String = if free > 0 {
            let run = spaces(run_length(self.text_align, free));
            paint(run.as_str(), self.foreground_color, self.pane_color)
        } else {
            String::new()
        };
        let timezone = paint(timezone, self.foreground_color, self.background_color);
        let date = paint(date, self.foreground_color, self.background_color);
        let time = paint(time, self.foreground_color, self.background_color);
        let mut text = String::new();
        text.append(timezone.as_str());
        text.append(self.separator.1.as_str());
        text.append(date.as_str());
        text.append(self.separator.2.as_str());
        text.append(time.as_str());
        let mut line = String::new();
        match self.text_align {
            TextAlign::Right => {
                line.append(padding.as_str());
                line.append(self.separator.0.as_str());
                line.append(text.as_str());
                line.append(self.space.as_str());
            },
            TextAlign::Left => {
                line.append(self.space.as_str());
                line.append(text.as_str());
                line.append(self.separator.0.as_str());
                line.append(padding.as_str());
            },
            TextAlign::Center => {
                line.append(padding.as_str());
                line.append(self.separator.0.as_str());
                line.append(text.as_str());
                line.append(padding.as_str());
            },
        }
        assert(text@ =~= timezone@ + self.separator.1@ + date@ + self.separator.2@ + time@);
        line
    }
}

} // verus!
