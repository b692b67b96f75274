use zellij_datetime::clock::{CivilTime, Weekday};
use zellij_datetime::controller::{quiet, Controller, Event, Mouse, Reaction, Timeout};

const NEW_YEAR_2024: i64 = 1_704_067_200;

fn pairs(entries: &[(&str, &str)]) -> Vec<(String, String)> {
    entries.iter().map(|(key, value)| (key.to_string(), value.to_string())).collect()
}

fn loaded(entries: &[(&str, &str)]) -> Controller {
    let mut controller = Controller::default();
    controller.load(&pairs(entries));
    controller
}

fn three_zones() -> Controller {
    loaded(&[
        ("default_timezone", "JST"),
        ("timezone1", "UTC/0"),
        ("timezone2", "JST/9"),
        ("timezone3", "IST/5.5"),
    ])
}

fn strip(painted: &str) -> String {
    let mut visible = String::new();
    let mut escaped = false;
    for c in painted.chars() {
        if escaped {
            escaped = c != 'm';
        } else if c == '\u{1b}' {
            escaped = true;
        } else {
            visible.push(c);
        }
    }
    visible
}

#[test]
fn a_new_controller_shows_utc_and_draws_nothing() {
    let controller = Controller::default();
    assert_eq!(controller.timezone(), "UTC");
    assert_eq!(controller.timezone_offset(), 0);
    assert_eq!(controller.config().get_default_timezone(), "UTC");
    assert_eq!(controller.now(), None);
    assert_eq!(controller.render(80), None);
    assert_eq!(controller.write_now(), None);
}

#[test]
fn quiet_asks_for_nothing() {
    assert_eq!(
        quiet(),
        Reaction { render: false, timeout: None, unselectable: false, request_permission: false, write: None }
    );
}

#[test]
fn a_load_shows_the_default_label() {
    let controller = three_zones();
    assert_eq!(controller.timezone(), "JST");
    assert_eq!(controller.timezone_offset(), 32400);
    let controller = loaded(&[("timezone1", "PST/-8"), ("default_timezone", "nowhere")]);
    assert_eq!(controller.timezone(), "PST");
    assert_eq!(controller.timezone_offset(), -28800);
}

#[test]
fn a_load_asks_for_permission_where_the_right_click_is_enabled() {
    let mut controller = Controller::default();
    let reaction = controller.load(&pairs(&[("enable_right_click", "true")]));
    assert_eq!(reaction, Reaction { request_permission: true, ..quiet() });
    let reaction = controller.load(&pairs(&[("enable_right_click", "false")]));
    assert_eq!(reaction, Reaction { unselectable: true, ..quiet() });
    let reaction = Controller::default().load(&Vec::new());
    assert_eq!(reaction, Reaction { unselectable: true, ..quiet() });
}

#[test]
fn a_reload_goes_back_to_the_default_label() {
    let mut controller = three_zones();
    controller.update(Event::Mouse(Mouse::LeftClick));
    assert_eq!(controller.timezone(), "IST");
    controller.load(&Vec::new());
    assert_eq!(controller.timezone(), "JST");
    assert_eq!(controller.timezone_offset(), 32400);
}

#[test]
fn clicks_and_scrolling_navigate() {
    let mut controller = three_zones();
    let render = Reaction { render: true, ..quiet() };
    assert_eq!(controller.update(Event::Mouse(Mouse::LeftClick)), render);
    assert_eq!(controller.timezone(), "IST");
    assert_eq!(controller.timezone_offset(), 19800);
    assert_eq!(controller.update(Event::Mouse(Mouse::ScrollDown)), render);
    assert_eq!(controller.timezone(), "UTC");
    assert_eq!(controller.timezone_offset(), 0);
    assert_eq!(controller.update(Event::Mouse(Mouse::ScrollUp)), render);
    assert_eq!(controller.timezone(), "IST");
    assert_eq!(controller.update(Event::Mouse(Mouse::ScrollUp)), render);
    assert_eq!(controller.timezone(), "JST");
    assert_eq!(controller.update(Event::Mouse(Mouse::Other)), quiet());
    assert_eq!(controller.update(Event::Other), quiet());
    assert_eq!(controller.timezone(), "JST");
}

#[test]
fn navigation_by_name() {
    let mut controller = three_zones();
    controller.change_timezone_next();
    assert_eq!(controller.timezone(), "IST");
    controller.change_timezone_prev();
    controller.change_timezone_prev();
    assert_eq!(controller.timezone(), "UTC");
    assert_eq!(controller.timezone_offset(), 0);
    controller.reset_default_timezone();
    assert_eq!(controller.timezone(), "JST");
    assert_eq!(controller.timezone_offset(), 32400);
}

#[test]
fn becoming_visible_starts_the_timer() {
    let mut controller = three_zones();
    assert_eq!(controller.update(Event::Visible(true)), Reaction { timeout: Some(Timeout::Now), ..quiet() });
    assert_eq!(controller.update(Event::Visible(false)), quiet());
}

#[test]
fn a_tick_draws_each_minute_once() {
    let mut controller = three_zones();
    controller.update(Event::Visible(true));
    let first = controller.update(Event::Timer { now: NEW_YEAR_2024 });
    assert_eq!(first, Reaction { render: true, timeout: Some(Timeout::Interval), ..quiet() });
    let same = controller.update(Event::Timer { now: NEW_YEAR_2024 + 59 });
    assert_eq!(same, Reaction { render: false, timeout: Some(Timeout::Interval), ..quiet() });
    let next = controller.update(Event::Timer { now: NEW_YEAR_2024 + 60 });
    assert_eq!(next, Reaction { render: true, timeout: Some(Timeout::Interval), ..quiet() });
    controller.update(Event::Visible(false));
    let hidden = controller.update(Event::Timer { now: NEW_YEAR_2024 + 120 });
    assert_eq!(hidden, Reaction { render: true, timeout: None, ..quiet() });
}

#[test]
fn tick_takes_the_minute_as_it_is_given() {
    let mut controller = three_zones();
    assert_eq!(controller.tick(100, Some(7)), Reaction { render: true, ..quiet() });
    assert_eq!(controller.tick(101, Some(7)), quiet());
    assert_eq!(controller.tick(102, None), quiet());
    assert_eq!(controller.tick(103, Some(0)), Reaction { render: true, ..quiet() });
    assert_eq!(controller.now().map(|reading| reading.minute), Some(1));
}

#[test]
fn a_tick_beyond_the_calendar_is_not_drawn() {
    let mut controller = three_zones();
    assert_eq!(controller.update(Event::Timer { now: i64::MAX }), quiet());
    assert_eq!(controller.render(80), None);
}

#[test]
fn a_load_makes_the_next_tick_draw() {
    let mut controller = three_zones();
    assert!(controller.update(Event::Timer { now: NEW_YEAR_2024 }).render);
    assert!(!controller.update(Event::Timer { now: NEW_YEAR_2024 + 1 }).render);
    controller.load(&Vec::new());
    assert!(controller.update(Event::Timer { now: NEW_YEAR_2024 + 2 }).render);
}

#[test]
fn the_clock_shows_the_time_of_the_label() {
    let mut controller = three_zones();
    controller.update(Event::Timer { now: NEW_YEAR_2024 });
    assert_eq!(
        controller.now(),
        Some(CivilTime { year: 2024, month: 1, day: 1, weekday: Weekday::Mon, hour: 9, minute: 0 })
    );
    controller.update(Event::Mouse(Mouse::LeftClick));
    assert_eq!(
        controller.now(),
        Some(CivilTime { year: 2024, month: 1, day: 1, weekday: Weekday::Mon, hour: 5, minute: 30 })
    );
}

#[test]
fn the_line_shows_label_date_and_time() {
    let mut controller = three_zones();
    controller.update(Event::Timer { now: NEW_YEAR_2024 });
    let line = controller.render(40).unwrap();
    assert_eq!(strip(&line), "         \u{e0b2} JST \u{e0b3} 2024-01-01 Mon \u{e0b3} 09:00 ");
    assert_eq!(strip(&line).chars().count(), 40);
    controller.update(Event::Mouse(Mouse::ScrollUp));
    let line = controller.render(10).unwrap();
    assert_eq!(strip(&line), "\u{e0b2} UTC \u{e0b3} 2024-01-01 Mon \u{e0b3} 00:00 ");
}

#[test]
fn draw_takes_the_reading_as_it_is_given() {
    let controller = loaded(&[("text_align", "left"), ("arrow_separator1", "<"), ("arrow_separator2", "|"), ("arrow_separator3", "|")]);
    let reading = CivilTime { year: 1999, month: 12, day: 31, weekday: Weekday::Fri, hour: 23, minute: 59 };
    let line = controller.draw(35, Some(reading)).unwrap();
    assert_eq!(strip(&line), " UTC | 1999-12-31 Fri | 23:59 <    ");
    assert_eq!(controller.draw(35, None), None);
}

#[test]
fn a_right_click_writes_the_time_with_permission_only() {
    let mut controller = loaded(&[("enable_right_click", "true"), ("timezone1", "JST/9")]);
    controller.update(Event::Timer { now: NEW_YEAR_2024 + 5 * 60 });
    assert_eq!(controller.update(Event::Mouse(Mouse::RightClick)), quiet());
    let denied = controller.update(Event::PermissionRequestResult { granted: false });
    assert_eq!(denied, Reaction { unselectable: true, ..quiet() });
    assert_eq!(controller.update(Event::Mouse(Mouse::RightClick)), quiet());
    let granted = controller.update(Event::PermissionRequestResult { granted: true });
    assert_eq!(granted, Reaction { unselectable: true, ..quiet() });
    assert_eq!(
        controller.update(Event::Mouse(Mouse::RightClick)),
        Reaction { write: Some("20240101_0905".to_string()), ..quiet() }
    );
    assert_eq!(controller.write_now(), Some("20240101_0905".to_string()));
}

#[test]
fn a_right_click_writes_nothing_where_it_is_not_enabled() {
    let mut controller = loaded(&[("timezone1", "JST/9")]);
    controller.update(Event::Timer { now: NEW_YEAR_2024 });
    controller.update(Event::PermissionRequestResult { granted: true });
    assert_eq!(controller.update(Event::Mouse(Mouse::RightClick)), quiet());
    let reading = controller.now();
    assert!(reading.is_some());
    assert_eq!(controller.stamp(reading), None);
}

#[test]
fn a_right_click_before_the_first_tick_writes_nothing() {
    let mut controller = loaded(&[("enable_right_click", "true")]);
    controller.update(Event::PermissionRequestResult { granted: true });
    assert_eq!(controller.update(Event::Mouse(Mouse::RightClick)), quiet());
}

#[test]
fn the_answer_on_permissions_keeps_the_label() {
    let mut controller = three_zones();
    controller.update(Event::Mouse(Mouse::LeftClick));
    controller.update(Event::PermissionRequestResult { granted: true });
    assert_eq!(controller.timezone(), "IST");
}

#[test]
fn an_offset_that_no_timezone_has_shows_utc() {
    let mut controller = loaded(&[("timezone1", "Far/100")]);
    assert_eq!(controller.timezone_offset(), 360000);
    controller.update(Event::Timer { now: NEW_YEAR_2024 });
    assert_eq!(strip(&controller.render(0).unwrap()), "\u{e0b2} Far \u{e0b3} 2024-01-01 Mon \u{e0b3} 00:00 ");
}
