use tz_dmenu::entry::ResolvedEntry;
use tz_dmenu::error::TzError;
use tz_dmenu::order::sort_by_offset;
use tz_dmenu::render::{format_entries, max_name_width, render_block, render_line};

const NEW_YEAR_2024: i64 = 1704067200;

fn entry(name: &str, offset: i32) -> ResolvedEntry {
    ResolvedEntry { display_name: name.to_string(), instant: NEW_YEAR_2024, offset_seconds: offset }
}

fn names(v: &[ResolvedEntry]) -> Vec<String> {
    v.iter().map(|e| e.display_name.clone()).collect()
}

#[test]
fn sort_descends_by_offset() {
    let sorted = sort_by_offset(vec![entry("UTC", 0), entry("Tokyo", 32400), entry("NYC", -18000)]);
    assert_eq!(names(&sorted), vec!["Tokyo", "UTC", "NYC"]);
}

#[test]
fn sort_keeps_input_order_for_equal_offsets() {
    let input = vec![entry("b", 0), entry("a", 3600), entry("c", 0), entry("d", 0), entry("e", 3600)];
    let sorted = sort_by_offset(input.clone());
    assert_eq!(names(&sorted), vec!["a", "e", "b", "c", "d"]);
    let again = sort_by_offset(input);
    assert_eq!(names(&again), names(&sorted));
}

#[test]
fn sort_compares_offsets_numerically() {
    // Offsets of both signs and of different widths.
    let sorted = sort_by_offset(vec![entry("w", -36000), entry("e", 34200), entry("z", 0)]);
    assert_eq!(names(&sorted), vec!["e", "z", "w"]);
}

#[test]
fn max_width_counts_characters() {
    let v = vec![entry("Zürich", 3600), entry("Rome", 3600)];
    assert_eq!(max_name_width(&v), 6);
}

#[test]
fn line_pads_name_to_width_plus_one() {
    assert_eq!(render_line(&entry("UTC", 0), 5), "UTC   12:00 AM +0000");
}

#[test]
fn block_has_one_line_per_entry_and_aligned_column() {
    let v = vec![entry("Tokyo", 32400), entry("UTC", 0), entry("Zürich", 3600)];
    let block = render_block(&v);
    let lines: Vec<&str> = block.lines().collect();
    assert_eq!(lines.len(), 3);
    assert!(block.ends_with('\n'));
    for (line, e) in lines.iter().zip(v.iter()) {
        let chars: Vec<char> = line.chars().collect();
        let time: String = chars[7..].iter().collect();
        assert!(!line.is_empty());
        assert_eq!(chars[6], ' ');
        assert!(line.starts_with(&e.display_name));
        assert_eq!(time.len(), 14);
    }
    assert_eq!(block, "Tokyo   9:00 AM +0900\nUTC    12:00 AM +0000\nZürich  1:00 AM +0100\n");
}

#[test]
fn format_refuses_empty_list() {
    assert_eq!(format_entries(Vec::new()), Err(TzError::EmptyConfigError));
}

#[test]
fn format_sorts_then_renders() {
    let out = format_entries(vec![entry("UTC", 0), entry("Tokyo", 32400)]).unwrap();
    assert_eq!(out, "Tokyo  9:00 AM +0900\nUTC   12:00 AM +0000\n");
}

#[test]
fn single_entry_gets_one_space_of_padding() {
    let out = format_entries(vec![entry("Home", 0)]).unwrap();
    assert_eq!(out, "Home 12:00 AM +0000\n");
}
