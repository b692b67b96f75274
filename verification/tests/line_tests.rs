use zellij_datetime::config::Config;
use zellij_datetime::line::{measure, run_length, Line, TextAlign};
use zellij_datetime::paint::spaces;

const BACKGROUND: (u8, u8, u8) = (0, 128, 160);
const FOREGROUND: (u8, u8, u8) = (255, 255, 255);
const PANE: (u8, u8, u8) = (30, 30, 30);

fn painted(text: &str, foreground: (u8, u8, u8), background: (u8, u8, u8), bold: bool) -> String {
    format!(
        "\u{1b}[{}48;2;{};{};{};38;2;{};{};{}m{}\u{1b}[0m",
        if bold { "1;" } else { "" },
        background.0,
        background.1,
        background.2,
        foreground.0,
        foreground.1,
        foreground.2,
        text
    )
}

fn line(text_align: &str, padding_adjust: i32) -> Line {
    let mut line = Line::default();
    let separator = ("<".to_string(), "|".to_string(), ":".to_string());
    line.update_style(BACKGROUND, FOREGROUND, PANE, &separator, padding_adjust, text_align);
    line
}

fn space() -> String {
    painted(" ", BACKGROUND, BACKGROUND, false)
}

fn lead() -> String {
    painted("<", BACKGROUND, PANE, true)
}

fn text(label: &str, date: &str, time: &str) -> String {
    format!(
        "{}{}{}{}{}{}{}{}{}",
        painted(label, FOREGROUND, BACKGROUND, false),
        space(),
        painted("|", PANE, BACKGROUND, true),
        space(),
        painted(date, FOREGROUND, BACKGROUND, false),
        space(),
        painted(":", PANE, BACKGROUND, true),
        space(),
        painted(time, FOREGROUND, BACKGROUND, false)
    )
}

fn padding(columns: usize) -> String {
    painted(&" ".repeat(columns), FOREGROUND, PANE, false)
}

#[test]
fn text_align_defaults_to_right() {
    assert_eq!(TextAlign::default(), TextAlign::Right);
}

#[test]
fn a_run_of_padding_is_never_negative() {
    for text_align in [TextAlign::Right, TextAlign::Left, TextAlign::Center] {
        assert_eq!(run_length(text_align, 0), 0);
        assert_eq!(run_length(text_align, -1), 0);
        assert_eq!(run_length(text_align, i128::MIN), 0);
    }
    assert_eq!(run_length(TextAlign::Right, 5), 5);
    assert_eq!(run_length(TextAlign::Left, 5), 5);
    assert_eq!(run_length(TextAlign::Center, 5), 2);
    assert_eq!(run_length(TextAlign::Center, 4), 2);
    assert_eq!(run_length(TextAlign::Center, 1), 0);
}

#[test]
fn spaces_are_spaces() {
    assert_eq!(spaces(0), "");
    assert_eq!(spaces(1), " ");
    assert_eq!(spaces(5), "     ");
}

#[test]
fn measure_counts_two_columns_for_what_is_not_ascii() {
    assert_eq!(measure(""), 0);
    assert_eq!(measure("UTC"), 3);
    assert_eq!(measure("東京"), 4);
    assert_eq!(measure("Zürich"), 7);
    assert_eq!(measure("\u{7f}\u{80}"), 3);
}

#[test]
fn padding_is_what_the_text_leaves_of_the_width() {
    let line = line("right", 0);
    assert_eq!(line.padding_length(40, "JP", "2024-01-01 Mon", "12:34"), 10);
    assert_eq!(line.padding_length(31, "JP", "2024-01-01 Mon", "12:34"), 1);
    assert_eq!(line.padding_length(40, "東京", "2024-01-01 Mon", "12:34"), 8);
    assert_eq!(line.padding_length(40, "", "", ""), 31);
}

#[test]
fn no_padding_where_the_width_is_used_up() {
    let line = line("right", 0);
    assert_eq!(line.padding_length(30, "JP", "2024-01-01 Mon", "12:34"), 0);
    assert_eq!(line.padding_length(25, "JP", "2024-01-01 Mon", "12:34"), 0);
    assert_eq!(line.padding_length(0, "JP", "2024-01-01 Mon", "12:34"), 0);
    assert_eq!(line.columns_left(30, "JP", "2024-01-01 Mon", "12:34"), 0);
    assert_eq!(line.columns_left(25, "JP", "2024-01-01 Mon", "12:34"), -5);
    assert_eq!(line.columns_left(31, "JP", "2024-01-01 Mon", "12:34"), 1);
    let narrow = format!("{}{}{}{}", lead(), space(), text("JP", "2024-01-01 Mon", "12:34"), space());
    assert_eq!(line.create(30, "JP", "2024-01-01 Mon", "12:34"), narrow);
    assert_eq!(line.create(25, "JP", "2024-01-01 Mon", "12:34"), narrow);
    assert_eq!(line.create(0, "JP", "2024-01-01 Mon", "12:34"), narrow);
}

#[test]
fn centred_text_gets_half_of_the_padding_on_each_side() {
    let line = line("center", 0);
    assert_eq!(line.padding_length(35, "JP", "2024-01-01 Mon", "12:34"), 2);
    assert_eq!(line.padding_length(34, "JP", "2024-01-01 Mon", "12:34"), 2);
    assert_eq!(line.padding_length(31, "JP", "2024-01-01 Mon", "12:34"), 0);
    assert_eq!(
        line.create(35, "JP", "2024-01-01 Mon", "12:34"),
        format!("{}{}{}{}{}", padding(2), lead(), space(), text("JP", "2024-01-01 Mon", "12:34"), padding(2))
    );
    assert_eq!(
        line.create(31, "JP", "2024-01-01 Mon", "12:34"),
        format!("{}{}{}{}{}", padding(0), lead(), space(), text("JP", "2024-01-01 Mon", "12:34"), padding(0))
    );
    assert_eq!(
        line.create(30, "JP", "2024-01-01 Mon", "12:34"),
        format!("{}{}{}", lead(), space(), text("JP", "2024-01-01 Mon", "12:34"))
    );
}

#[test]
fn right_aligned_text_stands_after_the_padding() {
    let line = line("right", 0);
    assert_eq!(
        line.create(40, "UTC", "2024-01-01 Mon", "12:34"),
        format!("{}{}{}{}{}", padding(9), lead(), space(), text("UTC", "2024-01-01 Mon", "12:34"), space())
    );
}

#[test]
fn left_aligned_text_stands_before_the_padding() {
    let line = line("left", 0);
    assert_eq!(
        line.create(40, "UTC", "2024-01-01 Mon", "12:34"),
        format!("{}{}{}{}{}", space(), text("UTC", "2024-01-01 Mon", "12:34"), space(), lead(), padding(9))
    );
}

#[test]
fn an_unknown_alignment_is_right() {
    let known = line("right", 0).create(40, "UTC", "d", "t");
    assert_eq!(line("middle", 0).create(40, "UTC", "d", "t"), known);
    assert_eq!(line("", 0).create(40, "UTC", "d", "t"), known);
    assert_eq!(line("Left", 0).create(40, "UTC", "d", "t"), known);
}

#[test]
fn the_painted_line_in_full() {
    let mut line = Line::default();
    let separator = ("<".to_string(), "|".to_string(), ":".to_string());
    line.update_style((1, 20, 255), (9, 10, 99), (100, 0, 7), &separator, 0, "right");
    let expected = concat_all(&[
        "\u{1b}[48;2;100;0;7;38;2;9;10;99m  \u{1b}[0m",
        "\u{1b}[1;48;2;100;0;7;38;2;1;20;255m<\u{1b}[0m",
        "\u{1b}[48;2;1;20;255;38;2;1;20;255m \u{1b}[0m",
        "\u{1b}[48;2;1;20;255;38;2;9;10;99mA\u{1b}[0m",
        "\u{1b}[48;2;1;20;255;38;2;1;20;255m \u{1b}[0m",
        "\u{1b}[1;48;2;1;20;255;38;2;100;0;7m|\u{1b}[0m",
        "\u{1b}[48;2;1;20;255;38;2;1;20;255m \u{1b}[0m",
        "\u{1b}[48;2;1;20;255;38;2;9;10;99mB\u{1b}[0m",
        "\u{1b}[48;2;1;20;255;38;2;1;20;255m \u{1b}[0m",
        "\u{1b}[1;48;2;1;20;255;38;2;100;0;7m:\u{1b}[0m",
        "\u{1b}[48;2;1;20;255;38;2;1;20;255m \u{1b}[0m",
        "\u{1b}[48;2;1;20;255;38;2;9;10;99mC\u{1b}[0m",
        "\u{1b}[48;2;1;20;255;38;2;1;20;255m \u{1b}[0m",
    ]);
    assert_eq!(line.create(14, "A", "B", "C"), expected);
}

fn concat_all(parts: &[&str]) -> String {
    let mut all = String::new();
    for part in parts {
        all.push_str(part);
    }
    all
}

#[test]
fn padding_adjust_shifts_the_width_of_the_separators() {
    assert_eq!(line("right", 3).padding_length(40, "UTC", "2024-01-01 Mon", "12:34"), 6);
    assert_eq!(line("right", -3).padding_length(40, "UTC", "2024-01-01 Mon", "12:34"), 12);
    assert_eq!(line("right", -100).padding_length(0, "", "", ""), 91);
    assert_eq!(line("right", i32::MAX).padding_length(usize::MAX, "", "", ""),
        usize::MAX as u128 - 9 - i32::MAX as u128);
    assert_eq!(line("right", i32::MIN).padding_length(0, "", "", ""), (1u128 << 31) - 9);
    assert_eq!(
        line("right", -10).create(0, "", "", ""),
        format!("{}{}{}{}{}", padding(1), lead(), space(), text("", "", ""), space())
    );
}

#[test]
fn a_line_that_was_never_styled_is_black_and_bare() {
    let line = Line::default();
    let black = |text: &str| painted(text, (0, 0, 0), (0, 0, 0), false);
    assert_eq!(line.create(0, "UTC", "d", "t"), format!("{}{}{}", black("UTC"), black("d"), black("t")));
    assert_eq!(line.padding_length(10, "UTC", "d", "t"), 5);
    assert_eq!(
        line.create(10, "UTC", "d", "t"),
        format!("{}{}{}{}", black("     "), black("UTC"), black("d"), black("t"))
    );
}

#[test]
fn a_line_styled_from_the_default_configuration() {
    let config = Config::default();
    let mut line = Line::default();
    line.update_style(
        config.get_background_color(),
        config.get_foreground_color(),
        config.get_pane_color(),
        config.get_separator(),
        config.get_padding_adjust(),
        config.get_text_align(),
    );
    let rendered = line.create(32, "UTC", "2024-01-01 Mon", "12:34");
    let visible: String = strip(&rendered);
    assert_eq!(visible, " \u{e0b2} UTC \u{e0b3} 2024-01-01 Mon \u{e0b3} 12:34 ");
    assert_eq!(visible.chars().count(), 32);
}

fn strip(painted: &str) -> String {
    let mut visible = String::new();
    let mut escaped = false;
    for c in painted.chars() {
        if escaped {
            escaped = c != 'm';
        } else if c == '\u{1b}' {
            escaped = true;
        } else {
            visible.push(c);
        }
    }
    visible
}
