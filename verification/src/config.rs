//! The configuration: the timezone table with its default label, and the
//! settings of the display.
//!
//! A configuration is loaded from pairs of a key and a value, taken in the
//! order in which they are given. Each pair is judged by itself: a value
//! that is malformed leaves its setting as it was. The timezone table is
//! replaced as a whole, and only where at least one definition is valid.

use vstd::prelude::*;
use crate::color::{chosen_color, css_color, parse_color, Rgb};
use crate::number::{flag_of, integer_of, parse_flag, parse_integer};
use crate::offset::{offset_of_text, parse_offset};
use crate::table::{
    defined_by, definitions_view, has_label, is_table, lemma_defined_by, next_in, offset_in,
    previous_in, Entry, TimezoneTable,
};
use crate::text::{
    chars_of, find_char, first_char_of, first_index, lowercase_of, string_of, to_lowercase, trim,
    trimmed,
};

verus! {

/// A pair of a key and a value, as characters.
pub type Pair = (Seq<char>, Seq<char>);

/// What a configuration holds.
pub struct ConfigView {
    pub timezone: Seq<Entry>,
    pub default_timezone: Seq<char>,
    pub date_format: Seq<char>,
    pub time_format: Seq<char>,
    pub background_color: Rgb,
    pub foreground_color: Rgb,
    pub pane_color: Rgb,
    pub enable_right_click: bool,
    pub separator: (Seq<char>, Seq<char>, Seq<char>),
    pub padding_adjust: i32,
    pub text_align: Seq<char>,
    pub enable_debug: bool,
}

/// The configuration before anything is loaded: the table holds `UTC` with
/// the offset 0, which is the default label too.
pub open spec fn default_settings() -> ConfigView {
    ConfigView {
        timezone: seq![("UTC"@, 0i32)],
        default_timezone: "UTC"@,
        date_format: "%Y-%m-%d %a"@,
        time_format: "%H:%M"@,
        background_color: (0x00, 0x80, 0xa0),
        foreground_color: (0xff, 0xff, 0xff),
        pane_color: (0x1e, 0x1e, 0x1e),
        enable_right_click: false,
        separator: ("\u{e0b2}"@, "\u{e0b3}"@, "\u{e0b3}"@),
        padding_adjust: 0,
        text_align: "right"@,
        enable_debug: false,
    }
}

/// The keys that define a timezone: `timezone1` to `timezone9`.
pub open spec fn is_timezone_key(key: Seq<char>) -> bool {
    ||| key == "timezone1"@
    ||| key == "timezone2"@
    ||| key == "timezone3"@
    ||| key == "timezone4"@
    ||| key == "timezone5"@
    ||| key == "timezone6"@
    ||| key == "timezone7"@
    ||| key == "timezone8"@
    ||| key == "timezone9"@
}

/// The keys that name a setting of the display.
pub open spec fn is_setting_key(key: Seq<char>) -> bool {
    ||| key == "date_format"@
    ||| key == "time_format"@
    ||| key == "background_color"@
    ||| key == "foreground_color"@
    ||| key == "pane_color"@
    ||| key == "enable_right_click"@
    ||| key == "arrow_separator1"@
    ||| key == "arrow_separator2"@
    ||| key == "arrow_separator3"@
    ||| key == "padding_adjust"@
    ||| key == "text_align"@
    ||| key == "enable_debug"@
}

/// The names of the three alignments.
pub open spec fn is_alignment_name(name: Seq<char>) -> bool {
    name == "right"@ || name == "left"@ || name == "center"@
}

/// The entry that the value `label/offset` defines. The value holds exactly
/// one `/`; the label is what stands before it, trimmed, and the offset is
/// what follows it, as it is.
pub open spec fn definition_of(value: Seq<char>) -> Option<Entry> {
    let slash = first_index(value, '/') as int;
    let rest = value.skip(slash + 1);
    if slash < value.len() && first_index(rest, '/') == rest.len() {
        match offset_of_text(rest) {
            Some(offset) => Some((trimmed(value.take(slash)), offset)),
            None => None,
        }
    } else {
        None
    }
}

/// Whether a pair is a valid definition of a timezone.
pub open spec fn is_definition(pair: Pair) -> bool {
    is_timezone_key(pair.0) && definition_of(pair.1) is Some
}

/// The valid definitions among `pairs`, in the order of the pairs.
pub open spec fn definitions_in(pairs: Seq<Pair>) -> Seq<Entry>
    decreases pairs.len(),
{
    if pairs.len() == 0 {
        Seq::empty()
    } else if is_definition(pairs.last()) {
        definitions_in(pairs.drop_last()).push(definition_of(pairs.last().1).unwrap())
    } else {
        definitions_in(pairs.drop_last())
    }
}

/// The default label that `pairs` ask for: the trimmed value of the last
/// pair with the key `default_timezone`.
pub open spec fn requested_default(pairs: Seq<Pair>) -> Option<Seq<char>>
    decreases pairs.len(),
{
    if pairs.len() == 0 {
        None
    } else if pairs.last().0 == "default_timezone"@ {
        Some(trimmed(pairs.last().1))
    } else {
        requested_default(pairs.drop_last())
    }
}

/// The default label of a new table: the label that was asked for where the
/// table holds it, the first label of the table otherwise.
pub open spec fn default_of(table: Seq<Entry>, requested: Option<Seq<char>>) -> Seq<char> {
    match requested {
        Some(label) if has_label(table, label) => label,
        _ => table[0].0,
    }
}

/// The configuration after one pair, as far as the settings of the display
/// go. A key that names no setting, and a value that is malformed, leave the
/// configuration as it is.
pub open spec fn with_setting(v: ConfigView, key: Seq<char>, value: Seq<char>) -> ConfigView {
    if key == "date_format"@ {
        ConfigView { date_format: trimmed(value), ..v }
    } else if key == "time_format"@ {
        ConfigView { time_format: trimmed(value), ..v }
    } else if key == "background_color"@ {
        match css_color(value) {
            Some(color) => ConfigView { background_color: color, ..v },
            None => v,
        }
    } else if key == "foreground_color"@ {
        match css_color(value) {
            Some(color) => ConfigView { foreground_color: color, ..v },
            None => v,
        }
    } else if key == "pane_color"@ {
        match css_color(value) {
            Some(color) => ConfigView { pane_color: color, ..v },
            None => v,
        }
    } else if key == "enable_right_click"@ {
        match flag_of(trimmed(value)) {
            Some(flag) => ConfigView { enable_right_click: flag, ..v },
            None => v,
        }
    } else if key == "arrow_separator1"@ {
        ConfigView {
            separator: (first_char_of(trimmed(value)), v.separator.1, v.separator.2),
            ..v
        }
    } else if key == "arrow_separator2"@ {
        ConfigView {
            separator: (v.separator.0, first_char_of(trimmed(value)), v.separator.2),
            ..v
        }
    } else if key == "arrow_separator3"@ {
        ConfigView {
            separator: (v.separator.0, v.separator.1, first_char_of(trimmed(value))),
            ..v
        }
    } else if key == "padding_adjust"@ {
        match integer_of(trimmed(value)) {
            Some(columns) => ConfigView { padding_adjust: columns, ..v },
            None => v,
        }
    } else if key == "text_align"@ {
        if is_alignment_name(lowercase_of(trimmed(value))) {
            ConfigView { text_align: lowercase_of(trimmed(value)), ..v }
        } else {
            v
        }
    } else if key == "enable_debug"@ {
        match flag_of(trimmed(value)) {
            Some(flag) => ConfigView { enable_debug: flag, ..v },
            None => v,
        }
    } else {
        v
    }
}

/// The configuration after the settings of all `pairs`, taken in order.
pub open spec fn with_settings(v: ConfigView, pairs: Seq<Pair>) -> ConfigView
    decreases pairs.len(),
{
    if pairs.len() == 0 {
        v
    } else {
        with_setting(with_settings(v, pairs.drop_last()), pairs.last().0, pairs.last().1)
    }
}

/// The configuration `v` after `pairs` are loaded. The settings of the
/// display follow the pairs one by one. The table and the default label stay
/// unless a pair is a valid definition; then the table is what the
/// definitions define, and the default label is chosen anew.
pub open spec fn loaded(v: ConfigView, pairs: Seq<Pair>) -> ConfigView {
    let settings = with_settings(v, pairs);
    let definitions = definitions_in(pairs);
    if definitions.len() == 0 {
        settings
    } else {
        ConfigView {
            timezone: defined_by(definitions),
            default_timezone: default_of(defined_by(definitions), requested_default(pairs)),
            ..settings
        }
    }
}

/// The view of a list of pairs.
pub open spec fn pairs_view(pairs: Seq<(String, String)>) -> Seq<Pair> {
    Seq::new(pairs.len(), |i: int| (pairs[i].0@, pairs[i].1@))
}

/// The settings of the display never touch the table or the default label.
pub proof fn lemma_settings_keep_table(v: ConfigView, pairs: Seq<Pair>)
    ensures
        with_settings(v, pairs).timezone == v.timezone,
        with_settings(v, pairs).default_timezone == v.default_timezone,
    decreases pairs.len(),
{
    if pairs.len() > 0 {
        lemma_settings_keep_table(v, pairs.drop_last());
    }
}

/// There are definitions among the pairs exactly when one of the pairs is a
/// valid definition.
pub proof fn lemma_definitions_in(pairs: Seq<Pair>)
    ensures
        definitions_in(pairs).len() > 0 <==> exists|i: int|
            0 <= i < pairs.len() && is_definition(#[trigger] pairs[i]),
    decreases pairs.len(),
{
    if pairs.len() > 0 {
        let front = pairs.drop_last();
        lemma_definitions_in(front);
        if definitions_in(front).len() > 0 {
            let i = choose|i: int| 0 <= i < front.len() && is_definition(#[trigger] front[i]);
            assert(is_definition(pairs[i]));
        }
        if is_definition(pairs.last()) {
            assert(is_definition(pairs[pairs.len() - 1]));
        }
        if exists|i: int| 0 <= i < pairs.len() && is_definition(#[trigger] pairs[i]) {
            let i = choose|i: int| 0 <= i < pairs.len() && is_definition(#[trigger] pairs[i]);
            if i < front.len() {
                assert(is_definition(front[i]));
            }
        }
    }
}

/// A load that names no setting and holds no valid timezone definition
/// changes nothing at all. A load of no pairs is such a load.
pub proof fn law_load_of_nothing(v: ConfigView, pairs: Seq<Pair>)
    requires
        forall|i: int| 0 <= i < pairs.len() ==> !is_setting_key((#[trigger] pairs[i]).0),
        forall|i: int| 0 <= i < pairs.len() ==> !is_definition(#[trigger] pairs[i]),
    ensures
        loaded(v, pairs) == v,
        loaded(v, Seq::empty()) == v,
    decreases pairs.len(),
{
    lemma_definitions_in(pairs);
    if pairs.len() > 0 {
        let front = pairs.drop_last();
        assert forall|i: int| 0 <= i < front.len() implies !is_setting_key(
            (#[trigger] front[i]).0,
        ) by {
            assert(front[i] == pairs[i]);
        }
        assert forall|i: int| 0 <= i < front.len() implies !is_definition(#[trigger] front[i]) by {
            assert(front[i] == pairs[i]);
        }
        law_load_of_nothing(v, front);
        lemma_definitions_in(front);
        assert(with_settings(v, front) == v);
        assert(!is_setting_key(pairs[pairs.len() - 1].0));
    }
}

/// A load without a valid timezone definition leaves the table and the
/// default label as they were.
pub proof fn law_load_without_definitions(v: ConfigView, pairs: Seq<Pair>)
    requires
        forall|i: int| 0 <= i < pairs.len() ==> !is_definition(#[trigger] pairs[i]),
    ensures
        loaded(v, pairs).timezone == v.timezone,
        loaded(v, pairs).default_timezone == v.default_timezone,
{
    lemma_definitions_in(pairs);
    lemma_settings_keep_table(v, pairs);
}

/// A load with at least one valid definition replaces the table by what the
/// definitions define. Where the load asks for a default label that the new
/// table does not hold, or for none, the default label is the first label of
/// the new table; where the new table holds the label asked for, that label
/// is the default.
pub proof fn law_default_after_load(v: ConfigView, pairs: Seq<Pair>)
    requires
        exists|i: int| 0 <= i < pairs.len() && is_definition(#[trigger] pairs[i]),
    ensures
        loaded(v, pairs).timezone == defined_by(definitions_in(pairs)),
        match requested_default(pairs) {
            Some(label) if has_label(loaded(v, pairs).timezone, label) => loaded(
                v,
                pairs,
            ).default_timezone == label,
            _ => loaded(v, pairs).default_timezone == loaded(v, pairs).timezone[0].0,
        },
{
    lemma_definitions_in(pairs);
}

/// Loading keeps a configuration valid: the table is not empty, its labels
/// are distinct, and it holds the default label.
pub proof fn law_load_keeps_valid(v: ConfigView, pairs: Seq<Pair>)
    requires
        is_table(v.timezone),
        has_label(v.timezone, v.default_timezone),
    ensures
        is_table(loaded(v, pairs).timezone),
        has_label(loaded(v, pairs).timezone, loaded(v, pairs).default_timezone),
{
    lemma_settings_keep_table(v, pairs);
    let definitions = definitions_in(pairs);
    if definitions.len() > 0 {
        lemma_defined_by(definitions);
        let table = defined_by(definitions);
        assert(table[0].0 == table[0].0);
    }
}

/// The settings of a timezone clock.
pub struct Config {
    timezone: TimezoneTable,
    default_timezone: String,
    date_format: String,
    time_format: String,
    background_color: Rgb,
    foreground_color: Rgb,
    pane_color: Rgb,
    enable_right_click: bool,
    separator: (String, String, String),
    padding_adjust: i32,
    text_align: String,
    enable_debug: bool,
}

impl View for Config {
    type V = ConfigView;

    closed spec fn view(&self) -> ConfigView {
        ConfigView {
            timezone: self.timezone@,
            default_timezone: self.default_timezone@,
            date_format: self.date_format@,
            time_format: self.time_format@,
            background_color: self.background_color,
            foreground_color: self.foreground_color,
            pane_color: self.pane_color,
            enable_right_click: self.enable_right_click,
            separator: (self.separator.0@, self.separator.1@, self.separator.2@),
            padding_adjust: self.padding_adjust,
            text_align: self.text_align@,
            enable_debug: self.enable_debug,
        }
    }
}

impl Default for Config {
    fn default() -> (config: Config)
        ensures
            config.wf(),
            config@ == default_settings(),
    {
        let config = Config {
            timezone: TimezoneTable::new("UTC", 0),
            default_timezone: "UTC".to_owned(),
            date_format: "%Y-%m-%d %a".to_owned(),
            time_format: "%H:%M".to_owned(),
            background_color: (0x00, 0x80, 0xa0),
            foreground_color: (0xff, 0xff, 0xff),
            pane_color: (0x1e, 0x1e, 0x1e),
            enable_right_click: false,
            separator: ("\u{e0b2}".to_owned(), "\u{e0b3}".to_owned(), "\u{e0b3}".to_owned()),
            padding_adjust: 0,
            text_align: "right".to_owned(),
            enable_debug: false,
        };
        assert(config@.timezone[0].0 == "UTC"@);
        config
    }
}

/// Reads the definition of a timezone, `label/offset`.
pub fn parse_definition(value: &str) -> (definition: Option<(String, i32)>)
    ensures
        match definition {
            Some(entry) => definition_of(value@) == Some((entry.0@, entry.1)),
            None => definition_of(value@) is None,
        },
{
    let chars = chars_of(value);
    let n = chars.len();
    let slash = find_char(&chars, 0, '/');
    assert(chars@.skip(0) =~= chars@);
    if slash == n {
        return None;
    }
    let second = find_char(&chars, slash + 1, '/');
    if second < n {
        return None;
    }
    let offset_text = string_of(&chars, slash + 1, n);
    assert(chars@.subrange(slash + 1, n as int) =~= chars@.skip(slash + 1));
    match parse_offset(offset_text.as_str()) {
        Some(offset) => {
            let label_text = string_of(&chars, 0, slash);
            assert(chars@.subrange(0, slash as int) =~= chars@.take(slash as int));
            let label = trim(label_text.as_str());
            Some((label, offset))
        },
        None => None,
    }
}

/// Whether `key` is one of `timezone1` to `timezone9`.
pub fn names_timezone(key: &str) -> (b: bool)
    ensures
        b == is_timezone_key(key@),
{
    *key == *"timezone1" || *key == *"timezone2" || *key == *"timezone3" || *key == *"timezone4"
        || *key == *"timezone5" || *key == *"timezone6" || *key == *"timezone7" || *key
        == *"timezone8" || *key == *"timezone9"
}

/// The first character of `string` as a string of its own, or the empty
/// string where there is none.
pub fn get_first_char_or_blank(string: &str) -> (r: String)
    ensures
        r@ == first_char_of(string@),
{
    let mut r = String::new();
    let mut it = string.chars();
    if let Some(first) = it.next() {
        r.push(first);
        assert(r@ =~= seq![string@[0]]);
    }
    r
}

impl Config {
    /// The invariant of a configuration: the table is not empty, its labels
    /// are distinct, and the default label is one of them.
    pub open spec fn wf(&self) -> bool {
        is_table(self@.timezone) && has_label(self@.timezone, self@.default_timezone)
    }

    /// The default label: the one that is shown after a load.
    pub fn get_default_timezone(&self) -> (label: String)
        ensures
            label@ == self@.default_timezone,
    {
        self.default_timezone.clone()
    }

    /// The label after `timezone` in the table, the first after the last;
    /// the first label where the table does not hold `timezone`.
    pub fn get_next_timezone(&self, timezone: &str) -> (label: String)
        requires
            self.wf(),
        ensures
            label@ == next_in(self@.timezone, timezone@),
            has_label(self@.timezone, label@),
    {
        self.timezone.next(timezone)
    }

    /// The label before `timezone` in the table, the last before the first;
    /// the last label where the table does not hold `timezone`.
    pub fn get_prev_timezone(&self, timezone: &str) -> (label: String)
        requires
            self.wf(),
        ensures
            label@ == previous_in(self@.timezone, timezone@),
            has_label(self@.timezone, label@),
    {
        self.timezone.previous(timezone)
    }

    /// The offset of `timezone` in seconds east of UTC; 0 where the table
    /// does not hold `timezone`.
    pub fn get_timezone_offset(&self, timezone: &str) -> (offset: i32)
        requires
            self.wf(),
        ensures
            offset == offset_in(self@.timezone, timezone@),
            !has_label(self@.timezone, timezone@) ==> offset == 0,
    {
        self.timezone.offset_of(timezone)
    }

    /// The template of the date.
    pub fn get_date_format(&self) -> (format: &String)
        ensures
            format@ == self@.date_format,
    {
        &self.date_format
    }

    /// The template of the time.
    pub fn get_time_format(&self) -> (format: &String)
        ensures
            format@ == self@.time_format,
    {
        &self.time_format
    }

    /// The colour behind label, date and time.
    pub fn get_background_color(&self) -> (color: Rgb)
        ensures
            color == self@.background_color,
    {
        self.background_color
    }

    /// The colour of label, date and time.
    pub fn get_foreground_color(&self) -> (color: Rgb)
        ensures
            color == self@.foreground_color,
    {
        self.foreground_color
    }

    /// The colour of the pane around the clock.
    pub fn get_pane_color(&self) -> (color: Rgb)
        ensures
            color == self@.pane_color,
    {
        self.pane_color
    }

    /// Whether a right click writes date and time to the focused pane.
    pub fn get_enable_right_click(&self) -> (enabled: bool)
        ensures
            enabled == self@.enable_right_click,
    {
        self.enable_right_click
    }

    /// The three separators, each one character or empty.
    pub fn get_separator(&self) -> (separator: &(String, String, String))
        ensures
            (separator.0@, separator.1@, separator.2@) == self@.separator,
    {
        &self.separator
    }

    /// The columns to add to the width that the separators are taken to
    /// fill.
    pub fn get_padding_adjust(&self) -> (columns: i32)
        ensures
            columns == self@.padding_adjust,
    {
        self.padding_adjust
    }

    /// The name of the alignment: `right`, `left` or `center`.
    pub fn get_text_align(&self) -> (name: &String)
        ensures
            name@ == self@.text_align,
    {
        &self.text_align
    }

    /// Whether debugging is switched on.
    pub fn get_enable_debug(&self) -> (enabled: bool)
        ensures
            enabled == self@.enable_debug,
    {
        self.enable_debug
    }

    /// Applies one pair to the settings of the display. A pair that names
    /// no setting, and a value that is malformed, change nothing.
    pub fn apply_setting(&mut self, key: &str, value: &str)
        ensures
            final(self)@ == with_setting(old(self)@, key@, value@),
    {
        if *key == *"date_format" {
            self.date_format = trim(value);
        } else if *key == *"time_format" {
            self.time_format = trim(value);
        } else if *key == *"background_color" {
            self.background_color = chosen_color(self.background_color, parse_color(value));
        } else if *key == *"foreground_color" {
            self.foreground_color = chosen_color(self.foreground_color, parse_color(value));
        } else if *key == *"pane_color" {
            self.pane_color = chosen_color(self.pane_color, parse_color(value));
        } else if *key == *"enable_right_click" {
            if let Some(flag) = parse_flag(trim(value).as_str()) {
                self.enable_right_click = flag;
            }
        } else if *key == *"arrow_separator1" {
            self.separator.0 = get_first_char_or_blank(trim(value).as_str());
        } else if *key == *"arrow_separator2" {
            self.separator.1 = get_first_char_or_blank(trim(value).as_str());
        } else if *key == *"arrow_separator3" {
            self.separator.2 = get_first_char_or_blank(trim(value).as_str());
        } else if *key == *"padding_adjust" {
            if let Some(columns) = parse_integer(trim(value).as_str()) {
                self.padding_adjust = columns;
            }
        } else if *key == *"text_align" {
            let name = to_lowercase(trim(value).as_str());
            if *name.as_str() == *"right" || *name.as_str() == *"left" || *name.as_str()
                == *"center" {
                self.text_align = name;
            }
        } else if *key == *"enable_debug" {
            if let Some(flag) = parse_flag(trim(value).as_str()) {
                self.enable_debug = flag;
            }
        }
    }

    /// Loads the pairs `configuration`, in their order.
    pub fn configuration(&mut self, configuration: &Vec<(String, String)>)
        requires
            old(self).wf(),
        ensures
            final(self).wf(),
            final(self)@ == loaded(old(self)@, pairs_view(configuration@)),
    {
        let ghost before = self@;
        let ghost pairs = pairs_view(configuration@);
        let mut definitions: Vec<(String, i32)> = Vec::new();
        let mut default_timezone: Option<String> = None;
        let mut i: usize = 0;
        assert(pairs.take(0) =~= Seq::<Pair>::empty());
        assert(definitions_view(definitions@) =~= Seq::<Entry>::empty());
        while i < configuration.len()
            invariant
                i <= configuration@.len(),
                pairs == pairs_view(configuration@),
                self@ == with_settings(before, pairs.take(i as int)),
                definitions_view(definitions@) == definitions_in(pairs.take(i as int)),
                match default_timezone {
                    Some(label) => requested_default(pairs.take(i as int)) == Some(label@),
                    None => requested_default(pairs.take(i as int)) is None,
                },
            decreases configuration@.len() - i,
        {
            let key = configuration[i].0.as_str();
            let value = configuration[i].1.as_str();
            proof {
                assert(pairs.take(i + 1).drop_last() =~= pairs.take(i as int));
                assert(pairs.take(i + 1).last() == (key@, value@));
            }
            if names_timezone(key) {
                if let Some(definition) = parse_definition(value) {
                    let ghost earlier = definitions_view(definitions@);
                    definitions.push(definition);
                    assert(definitions_view(definitions@) =~= earlier.push(
                        (definition.0@, definition.1),
                    ));
                }
            }
            if *key == *"default_timezone" {
                default_timezone = Some(trim(value));
            }
            self.apply_setting(key, value);
            i += 1;
        }
        assert(pairs.take(pairs.len() as int) =~= pairs);
        proof {
            lemma_settings_keep_table(before, pairs);
            law_load_keeps_valid(before, pairs);
        }
        if definitions.len() > 0 {
            self.timezone.replace(&definitions);
            self.default_timezone = self.timezone.first_label();
            if let Some(label) = default_timezone {
                if self.timezone.contains(label.as_str()) {
                    self.default_timezone = label;
                }
            }
        }
    }
}

} // verus!
