use zellij_datetime::table::TimezoneTable;

fn table_of(entries: &[(&str, i32)]) -> TimezoneTable {
    let mut table = TimezoneTable::new("UTC", 0);
    let definitions: Vec<(String, i32)> =
        entries.iter().map(|(label, offset)| (label.to_string(), *offset)).collect();
    table.replace(&definitions);
    table
}

#[test]
fn a_new_table_holds_one_entry() {
    let table = TimezoneTable::new("UTC", 0);
    assert_eq!(table.len(), 1);
    assert_eq!(table.labels(), vec!["UTC".to_string()]);
    assert_eq!(table.first_label(), "UTC");
    assert!(table.contains("UTC"));
    assert!(!table.contains("JST"));
    assert_eq!(table.offset_of("UTC"), 0);
}

#[test]
fn the_default_table_is_utc() {
    let table = TimezoneTable::default();
    assert_eq!(table.labels(), vec!["UTC".to_string()]);
    assert_eq!(table.offset_of("UTC"), 0);
}

#[test]
fn offset_of_gives_the_stored_offset() {
    let table = table_of(&[("UTC", 0), ("JST", 32400), ("PST", -28800)]);
    assert_eq!(table.offset_of("UTC"), 0);
    assert_eq!(table.offset_of("JST"), 32400);
    assert_eq!(table.offset_of("PST"), -28800);
}

#[test]
fn offset_of_an_absent_label_is_zero() {
    let table = table_of(&[("JST", 32400), ("PST", -28800)]);
    assert_eq!(table.offset_of("UTC"), 0);
    assert_eq!(table.offset_of(""), 0);
    assert_eq!(table.offset_of("jst"), 0);
    assert_eq!(TimezoneTable::new("X", 5).offset_of("Y"), 0);
}

#[test]
fn next_follows_the_order_of_definition() {
    let table = table_of(&[("a", 1), ("b", 2), ("c", 3)]);
    assert_eq!(table.next("a"), "b");
    assert_eq!(table.next("b"), "c");
    assert_eq!(table.previous("c"), "b");
    assert_eq!(table.previous("b"), "a");
}

#[test]
fn navigation_wraps_around() {
    let table = table_of(&[("a", 1), ("b", 2), ("c", 3)]);
    assert_eq!(table.next("c"), "a");
    assert_eq!(table.previous("a"), "c");
}

#[test]
fn navigation_from_an_absent_label_fails_open() {
    let table = table_of(&[("a", 1), ("b", 2), ("c", 3)]);
    assert_eq!(table.next("x"), "a");
    assert_eq!(table.previous("x"), "c");
    assert_eq!(table.next(""), "a");
    assert_eq!(table.previous(""), "c");
}

#[test]
fn next_and_previous_are_inverse() {
    let table = table_of(&[("UTC", 0), ("JST", 32400), ("PST", -28800), ("IST", 19800)]);
    for label in table.labels() {
        assert_eq!(table.next(&table.previous(&label)), label);
        assert_eq!(table.previous(&table.next(&label)), label);
    }
}

#[test]
fn a_sole_entry_is_its_own_neighbour() {
    let table = TimezoneTable::new("UTC", 0);
    assert_eq!(table.next("UTC"), "UTC");
    assert_eq!(table.previous("UTC"), "UTC");
    assert_eq!(table.next(&table.previous("UTC")), "UTC");
    assert_eq!(table.next("JST"), "UTC");
    assert_eq!(table.previous("JST"), "UTC");
}

#[test]
fn replace_swaps_all_entries() {
    let mut table = table_of(&[("a", 1), ("b", 2)]);
    table.replace(&vec![("x".to_string(), 10), ("y".to_string(), 20), ("z".to_string(), 30)]);
    assert_eq!(table.labels(), vec!["x".to_string(), "y".to_string(), "z".to_string()]);
    assert_eq!(table.len(), 3);
    assert!(!table.contains("a"));
    assert_eq!(table.offset_of("a"), 0);
    assert_eq!(table.offset_of("y"), 20);
}

#[test]
fn replace_with_nothing_is_refused() {
    let mut table = table_of(&[("a", 1), ("b", 2)]);
    table.replace(&Vec::new());
    assert_eq!(table.labels(), vec!["a".to_string(), "b".to_string()]);
    assert_eq!(table.offset_of("b"), 2);
}

#[test]
fn a_label_defined_again_moves_to_the_back() {
    let table = table_of(&[("a", 1), ("b", 2), ("a", 3), ("c", 4)]);
    assert_eq!(table.labels(), vec!["b".to_string(), "a".to_string(), "c".to_string()]);
    assert_eq!(table.offset_of("a"), 3);
    assert_eq!(table.first_label(), "b");
    assert_eq!(table.next("b"), "a");
    let same = table_of(&[("a", 1), ("a", 2)]);
    assert_eq!(same.len(), 1);
    assert_eq!(same.offset_of("a"), 2);
}

#[test]
fn the_order_of_navigation_is_the_order_of_the_load() {
    let one = table_of(&[("a", 1), ("b", 2), ("c", 3)]);
    let other = table_of(&[("c", 3), ("b", 2), ("a", 1)]);
    assert_eq!(one.next("a"), "b");
    assert_eq!(other.next("a"), "c");
}
