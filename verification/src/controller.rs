//! The controller of the clock: it owns the configuration and the line,
//! holds the timezone that is shown, and answers each event of the host by
//! a new state and the actions that the host is to take.
//!
//! The timezone that is shown is always a label of the table. It changes by
//! navigation to the next or the previous label only, and goes back to the
//! default label when a configuration is loaded.

use vstd::prelude::*;
use crate::clock::{
    date_of, date_text, minute_at, read_clock, read_minute, reading_of, stamp_of, stamp_text,
    time_of, time_text, CivilTime,
};
use crate::config::{loaded, pairs_view, Config, ConfigView};
use crate::line::{rendered, styled, Line, LineView};
use crate::table::{has_label, is_table, next_in, offset_in, previous_in};

verus! {

/// What the mouse did.
#[derive(Clone, Copy, Debug, PartialEq, Eq, Structural)]
pub enum Mouse {
    LeftClick,
    RightClick,
    ScrollUp,
    ScrollDown,
    Other,
}

/// An event of the host.
#[derive(Clone, Copy, Debug, PartialEq, Eq, Structural)]
pub enum Event {
    /// The user answered the request for permissions.
    PermissionRequestResult { granted: bool },
    /// The clock became visible or hidden.
    Visible(bool),
    /// A timer ran out, at the instant `now`.
    Timer { now: i64 },
    Mouse(Mouse),
    Other,
}

/// When the host is to send the next `Timer` event.
#[derive(Clone, Copy, Debug, PartialEq, Eq, Structural)]
pub enum Timeout {
    /// At once.
    Now,
    /// After the interval between two looks at the clock.
    Interval,
}

/// What the host is to do after an event.
#[derive(Debug, PartialEq, Eq)]
pub struct Reaction {
    /// Draw the line anew.
    pub render: bool,
    /// Set a timer.
    pub timeout: Option<Timeout>,
    /// Make the pane of the clock unselectable.
    pub unselectable: bool,
    /// Ask for the permission to write to the focused pane.
    pub request_permission: bool,
    /// Write this text to the focused pane.
    pub write: Option<String>,
}

/// The view of a reaction.
pub struct ReactionView {
    pub render: bool,
    pub timeout: Option<Timeout>,
    pub unselectable: bool,
    pub request_permission: bool,
    pub write: Option<Seq<char>>,
}

impl View for Reaction {
    type V = ReactionView;

    open spec fn view(&self) -> ReactionView {
        ReactionView {
            render: self.render,
            timeout: self.timeout,
            unselectable: self.unselectable,
            request_permission: self.request_permission,
            write: match self.write {
                Some(text) => Some(text@),
                None => None,
            },
        }
    }
}

/// What a controller holds.
pub struct ControllerView {
    /// The instant of the last minute that was drawn.
    pub now: Option<i64>,
    /// The label that is shown.
    pub timezone: Seq<char>,
    /// Its offset in seconds.
    pub timezone_offset: i32,
    /// The minute of the hour that was drawn last.
    pub before_minute: Option<u32>,
    pub visible: bool,
    pub line: LineView,
    pub config: ConfigView,
    pub permission_granted: bool,
}

/// Nothing to do.
pub open spec fn no_reaction() -> ReactionView {
    ReactionView {
        render: false,
        timeout: None,
        unselectable: false,
        request_permission: false,
        write: None,
    }
}

/// The state `v` with `label` shown.
pub open spec fn showing(v: ControllerView, label: Seq<char>) -> ControllerView {
    ControllerView {
        timezone: label,
        timezone_offset: offset_in(v.config.timezone, label),
        ..v
    }
}

/// The state after the pairs `pairs` are loaded: the configuration is
/// loaded, its default label is shown, the line is styled by its settings,
/// no minute counts as drawn, and no permission as granted.
pub open spec fn after_load(v: ControllerView, pairs: Seq<(Seq<char>, Seq<char>)>) -> ControllerView {
    let config = loaded(v.config, pairs);
    ControllerView {
        now: v.now,
        timezone: config.default_timezone,
        timezone_offset: offset_in(config.timezone, config.default_timezone),
        before_minute: None,
        visible: v.visible,
        line: styled(
            config.background_color,
            config.foreground_color,
            config.pane_color,
            config.separator,
            config.padding_adjust,
            config.text_align,
        ),
        config,
        permission_granted: false,
    }
}

/// What the host is to do after a load: ask for the permission to write
/// where the right click is enabled, and make the pane unselectable where
/// it is not.
pub open spec fn load_reaction(config: ConfigView) -> ReactionView {
    ReactionView {
        unselectable: !config.enable_right_click,
        request_permission: config.enable_right_click,
        ..no_reaction()
    }
}

/// Whether a tick at the minute `minute` begins a minute that was not drawn.
pub open spec fn is_new_minute(v: ControllerView, minute: Option<u32>) -> bool {
    minute is Some && v.before_minute != minute
}

/// The state after a timer ran out at `now`, in the minute `minute` of the
/// hour: a new minute is noted with its instant.
pub open spec fn after_tick(v: ControllerView, now: i64, minute: Option<u32>) -> ControllerView {
    if is_new_minute(v, minute) {
        ControllerView { now: Some(now), before_minute: minute, ..v }
    } else {
        v
    }
}

/// What the host is to do after a timer ran out: draw a new minute, and set
/// the timer again while the clock is visible.
pub open spec fn tick_reaction(v: ControllerView, minute: Option<u32>) -> ReactionView {
    ReactionView {
        render: is_new_minute(v, minute),
        timeout: if v.visible {
            Some(Timeout::Interval)
        } else {
            None
        },
        ..no_reaction()
    }
}

/// What the clock shows in the state `v`: nothing before the first tick.
pub open spec fn reading_in(v: ControllerView) -> Option<CivilTime> {
    match v.now {
        Some(now) => reading_of(now, v.timezone_offset),
        None => None,
    }
}

/// The text that a right click writes, given what the clock shows: nothing
/// unless the right click is enabled and the permission granted.
pub open spec fn written(v: ControllerView, reading: Option<CivilTime>) -> Option<Seq<char>> {
    match reading {
        Some(time) if v.config.enable_right_click && v.permission_granted => Some(stamp_of(time)),
        _ => None,
    }
}

/// The line for a terminal `cols` wide, given what the clock shows.
pub open spec fn drawn(v: ControllerView, cols: int, reading: Option<CivilTime>) -> Option<
    Seq<char>,
> {
    match reading {
        Some(time) => Some(rendered(v.line, cols, v.timezone, date_of(time), time_of(time))),
        None => None,
    }
}

/// The state after an event.
pub open spec fn after_event(v: ControllerView, event: Event) -> ControllerView {
    match event {
        Event::PermissionRequestResult { granted } => ControllerView {
            permission_granted: v.permission_granted || granted,
            ..v
        },
        Event::Visible(visible) => ControllerView { visible, ..v },
        Event::Timer { now } => after_tick(v, now, minute_at(now)),
        Event::Mouse(Mouse::LeftClick) | Event::Mouse(Mouse::ScrollDown) => showing(
            v,
            next_in(v.config.timezone, v.timezone),
        ),
        Event::Mouse(Mouse::ScrollUp) => showing(v, previous_in(v.config.timezone, v.timezone)),
        _ => v,
    }
}

/// What the host is to do after an event.
pub open spec fn reaction_to(v: ControllerView, event: Event) -> ReactionView {
    match event {
        Event::PermissionRequestResult { granted } => ReactionView {
            unselectable: true,
            ..no_reaction()
        },
        Event::Visible(visible) => ReactionView {
            timeout: if visible {
                Some(Timeout::Now)
            } else {
                None
            },
            ..no_reaction()
        },
        Event::Timer { now } => tick_reaction(v, minute_at(now)),
        Event::Mouse(Mouse::LeftClick) | Event::Mouse(Mouse::ScrollDown) | Event::Mouse(
            Mouse::ScrollUp,
        ) => ReactionView { render: true, ..no_reaction() },
        Event::Mouse(Mouse::RightClick) => ReactionView {
            write: written(v, reading_in(v)),
            ..no_reaction()
        },
        _ => no_reaction(),
    }
}

/// What makes a state valid: the configuration is valid, the label that is
/// shown is a label of the table, and the offset is the one of that label.
pub open spec fn is_valid(v: ControllerView) -> bool {
    &&& is_table(v.config.timezone)
    &&& has_label(v.config.timezone, v.config.default_timezone)
    &&& has_label(v.config.timezone, v.timezone)
    &&& v.timezone_offset == offset_in(v.config.timezone, v.timezone)
}

/// Every event leaves a valid state valid: the label that is shown stays a
/// label of the table.
pub proof fn law_events_keep_valid(v: ControllerView, event: Event)
    requires
        is_valid(v),
    ensures
        is_valid(after_event(v, event)),
{
    crate::table::law_navigation_stays(v.config.timezone, v.timezone);
}

/// A load leaves a valid state valid, and shows the default label of the
/// configuration that was loaded.
pub proof fn law_load_keeps_valid(v: ControllerView, pairs: Seq<(Seq<char>, Seq<char>)>)
    requires
        is_valid(v),
    ensures
        is_valid(after_load(v, pairs)),
        after_load(v, pairs).timezone == after_load(v, pairs).config.default_timezone,
{
    crate::config::law_load_keeps_valid(v.config, pairs);
}

/// Whether an event navigates: a left click and scrolling down lead to the
/// next label, scrolling up leads to the previous one.
pub open spec fn navigates(event: Event) -> bool {
    event == Event::Mouse(Mouse::LeftClick) || event == Event::Mouse(Mouse::ScrollDown) || event
        == Event::Mouse(Mouse::ScrollUp)
}

/// No event changes the configuration, and only navigation changes the
/// label that is shown and its offset.
pub proof fn law_selection_changes_by_navigation(v: ControllerView, event: Event)
    ensures
        after_event(v, event).config == v.config,
        !navigates(event) ==> after_event(v, event).timezone == v.timezone && after_event(
            v,
            event,
        ).timezone_offset == v.timezone_offset,
{
}

/// The controller of a clock.
pub struct Controller {
    now: Option<i64>,
    timezone: String,
    timezone_offset: i32,
    before_minute: Option<u32>,
    visible: bool,
    line: Line,
    config: Config,
    permission_granted: bool,
}

impl View for Controller {
    type V = ControllerView;

    closed spec fn view(&self) -> ControllerView {
        ControllerView {
            now: self.now,
            timezone: self.timezone@,
            timezone_offset: self.timezone_offset,
            before_minute: self.before_minute,
            visible: self.visible,
            line: self.line@,
            config: self.config@,
            permission_granted: self.permission_granted,
        }
    }
}

impl Default for Controller {
    /// The controller before anything is loaded: it shows the default label
    /// of the default configuration, on a line without style.
    fn default() -> (controller: Controller)
        ensures
            controller.wf(),
            controller@ == (ControllerView {
                now: None,
                timezone: crate::config::default_settings().default_timezone,
                timezone_offset: 0,
                before_minute: None,
                visible: false,
                line: crate::line::blank_style(),
                config: crate::config::default_settings(),
                permission_granted: false,
            }),
    {
        let config = Config::default();
        let timezone = config.get_default_timezone();
        let timezone_offset = config.get_timezone_offset(timezone.as_str());
        proof {
            crate::table::lemma_position(config@.timezone, 0);
        }
        Controller {
            now: None,
            timezone,
            timezone_offset,
            before_minute: None,
            visible: false,
            line: Line::default(),
            config,
            permission_granted: false,
        }
    }
}

/// A reaction that asks for nothing.
pub fn quiet() -> (reaction: Reaction)
    ensures
        reaction@ == no_reaction(),
{
    Reaction {
        render: false,
        timeout: None,
        unselectable: false,
        request_permission: false,
        write: None,
    }
}

impl Controller {
    /// The invariant of a controller.
    pub open spec fn wf(&self) -> bool {
        is_valid(self@)
    }

    /// The configuration.
    pub fn config(&self) -> (config: &Config)
        ensures
            config@ == self@.config,
    {
        &self.config
    }

    /// The label that is shown.
    pub fn timezone(&self) -> (label: &String)
        ensures
            label@ == self@.timezone,
    {
        &self.timezone
    }

    /// The offset of the label that is shown, in seconds east of UTC.
    pub fn timezone_offset(&self) -> (offset: i32)
        ensures
            offset == self@.timezone_offset,
    {
        self.timezone_offset
    }

    /// Shows `timezone`, a label of the table.
    pub fn change_timezone(&mut self, timezone: String)
        requires
            old(self).wf(),
            has_label(old(self)@.config.timezone, timezone@),
        ensures
            final(self).wf(),
            final(self)@ == showing(old(self)@, timezone@),
    {
        self.timezone_offset = self.config.get_timezone_offset(timezone.as_str());
        self.timezone = timezone;
    }

    /// Shows the default label.
    pub fn reset_default_timezone(&mut self)
        requires
            old(self).wf(),
        ensures
            final(self).wf(),
            final(self)@ == showing(old(self)@, old(self)@.config.default_timezone),
    {
        self.change_timezone(self.config.get_default_timezone());
    }

    /// Shows the label after the one that is shown.
    pub fn change_timezone_next(&mut self)
        requires
            old(self).wf(),
        ensures
            final(self).wf(),
            final(self)@ == showing(old(self)@, next_in(old(self)@.config.timezone, old(self)@.timezone)),
    {
        self.change_timezone(self.config.get_next_timezone(self.timezone.as_str()));
    }

    /// Shows the label before the one that is shown.
    pub fn change_timezone_prev(&mut self)
        requires
            old(self).wf(),
        ensures
            final(self).wf(),
            final(self)@ == showing(
                old(self)@,
                previous_in(old(self)@.config.timezone, old(self)@.timezone),
            ),
    {
        self.change_timezone(self.config.get_prev_timezone(self.timezone.as_str()));
    }

    /// Loads a configuration and says what the host is to do then.
    pub fn load(&mut self, configuration: &Vec<(String, String)>) -> (reaction: Reaction)
        requires
            old(self).wf(),
        ensures
            final(self).wf(),
            final(self)@ == after_load(old(self)@, pairs_view(configuration@)),
            reaction@ == load_reaction(final(self)@.config),
    {
        self.config.configuration(configuration);
        self.timezone = self.config.get_default_timezone();
        self.timezone_offset = self.config.get_timezone_offset(self.timezone.as_str());
        self.line.update_style(
            self.config.get_background_color(),
            self.config.get_foreground_color(),
            self.config.get_pane_color(),
            self.config.get_separator(),
            self.config.get_padding_adjust(),
            self.config.get_text_align().as_str(),
        );
        self.before_minute = None;
        self.permission_granted = false;
        let ask = self.config.get_enable_right_click();
        Reaction {
            render: false,
            timeout: None,
            unselectable: !ask,
            request_permission: ask,
            write: None,
        }
    }

    /// Takes note of a timer that ran out at `now`, in the minute `minute`
    /// of the hour.
    pub fn tick(&mut self, now: i64, minute: Option<u32>) -> (reaction: Reaction)
        ensures
            final(self)@ == after_tick(old(self)@, now, minute),
            reaction@ == tick_reaction(old(self)@, minute),
    {
        let mut reaction = quiet();
        if let Some(now_minute) = minute {
            let new = match self.before_minute {
                Some(before) => before != now_minute,
                None => true,
            };
            if new {
                self.before_minute = Some(now_minute);
                self.now = Some(now);
                reaction.render = true;
            }
        }
        if self.visible {
            reaction.timeout = Some(Timeout::Interval);
        }
        reaction
    }

    /// What the clock shows: the instant of the last minute that was drawn,
    /// at the offset of the label that is shown.
    pub fn now(&self) -> (reading: Option<CivilTime>)
        ensures
            reading == reading_in(self@),
    {
        match self.now {
            Some(now) => read_clock(now, self.timezone_offset),
            None => None,
        }
    }

    /// The text that a right click writes when the clock shows `reading`.
    pub fn stamp(&self, reading: Option<CivilTime>) -> (text: Option<String>)
        ensures
            match text {
                Some(text) => written(self@, reading) == Some(text@),
                None => written(self@, reading) is None,
            },
    {
        match reading {
            Some(time) => {
                if self.config.get_enable_right_click() && self.permission_granted {
                    Some(stamp_text(&time))
                } else {
                    None
                }
            },
            None => None,
        }
    }

    /// The line for a terminal `cols` wide when the clock shows `reading`.
    pub fn draw(&self, cols: usize, reading: Option<CivilTime>) -> (line: Option<String>)
        ensures
            match line {
                Some(line) => drawn(self@, cols as int, reading) == Some(line@),
                None => drawn(self@, cols as int, reading) is None,
            },
    {
        match reading {
            Some(time) => {
                let date = date_text(&time);
                let time = time_text(&time);
                Some(self.line.create(cols, self.timezone.as_str(), date.as_str(), time.as_str()))
            },
            None => None,
        }
    }

    /// The text that a right click writes now.
    pub fn write_now(&self) -> (text: Option<String>)
        ensures
            match text {
                Some(text) => written(self@, reading_in(self@)) == Some(text@),
                None => written(self@, reading_in(self@)) is None,
            },
    {
        self.stamp(self.now())
    }

    /// Answers an event: the state changes, and the host is told what to do.
    pub fn update(&mut self, event: Event) -> (reaction: Reaction)
        requires
            old(self).wf(),
        ensures
            final(self).wf(),
            final(self)@ == after_event(old(self)@, event),
            reaction@ == reaction_to(old(self)@, event),
    {
        proof {
            law_events_keep_valid(self@, event);
        }
        let mut reaction = quiet();
        match event {
            Event::PermissionRequestResult { granted } => {
                if granted {
                    self.permission_granted = true;
                }
                reaction.unselectable = true;
            },
            Event::Visible(visible) => {
                if visible {
                    reaction.timeout = Some(Timeout::Now);
                }
                self.visible = visible;
            },
            Event::Timer { now } => {
                reaction = self.tick(now, read_minute(now));
            },
            Event::Mouse(mouse) => match mouse {
                Mouse::LeftClick => {
                    self.change_timezone_next();
                    reaction.render = true;
                },
                Mouse::RightClick => {
                    reaction.write = self.write_now();
                },
                Mouse::ScrollUp => {
                    self.change_timezone_prev();
                    reaction.render = true;
                },
                Mouse::ScrollDown => {
                    self.change_timezone_next();
                    reaction.render = true;
                },
                Mouse::Other => {},
            },
            Event::Other => {},
        }
        reaction
    }

    /// The line for a terminal `cols` wide; nothing before the first tick.
    pub fn render(&self, cols: usize) -> (line: Option<String>)
        ensures
            match line {
                Some(line) => drawn(self@, cols as int, reading_in(self@)) == Some(line@),
                None => drawn(self@, cols as int, reading_in(self@)) is None,
            },
    {
        self.draw(cols, self.now())
    }
}

} // verus!
