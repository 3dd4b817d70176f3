use tz_dmenu::entry::ZoneEntry;
use tz_dmenu::error::TzError;
use tz_dmenu::pipeline::menu_block_at;
use tz_dmenu::resolve::resolve_entries_at;
use tz_dmenu::selector::{count_lines, selector_command};

const NEW_YEAR_2024: i64 = 1704067200;

fn zone(name: &str, id: &str) -> ZoneEntry {
    ZoneEntry { display_name: name.to_string(), zone_id: id.to_string() }
}

#[test]
fn resolves_offsets_at_the_given_instant() {
    let v = resolve_entries_at(&vec![zone("UTC", "UTC"), zone("Tokyo", "Asia/Tokyo")], NEW_YEAR_2024).unwrap();
    assert_eq!(v.len(), 2);
    assert_eq!(v[0].display_name, "UTC");
    assert_eq!(v[0].offset_seconds, 0);
    assert_eq!(v[1].display_name, "Tokyo");
    assert_eq!(v[1].offset_seconds, 32400);
    assert!(v.iter().all(|e| e.instant == NEW_YEAR_2024));
}

#[test]
fn daylight_saving_changes_the_offset() {
    let winter = resolve_entries_at(&vec![zone("NYC", "America/New_York")], NEW_YEAR_2024).unwrap();
    let summer = resolve_entries_at(&vec![zone("NYC", "America/New_York")], NEW_YEAR_2024 + 182 * 86400).unwrap();
    assert_eq!(winter[0].offset_seconds, -18000);
    assert_eq!(summer[0].offset_seconds, -14400);
}

#[test]
fn unknown_zone_fails_the_whole_run() {
    let r = resolve_entries_at(&vec![zone("UTC", "UTC"), zone("Base", "Mars/Colony")], NEW_YEAR_2024);
    assert_eq!(r.unwrap_err(), TzError::UnknownTimeZoneError);
}

#[test]
fn resolving_shares_one_instant() {
    let v = resolve_entries_at(
        &vec![zone("UTC", "UTC"), zone("Tokyo", "Asia/Tokyo"), zone("LA", "America/Los_Angeles")],
        NEW_YEAR_2024 + 12345,
    )
    .unwrap();
    assert_eq!(v.len(), 3);
    assert!(v.iter().all(|e| e.instant == v[0].instant));
}

#[test]
fn tokyo_comes_before_utc_on_new_year() {
    let block = menu_block_at("[timezones]\nUTC = \"UTC\"\nTokyo = \"Asia/Tokyo\"\n", NEW_YEAR_2024).unwrap();
    assert_eq!(block, "Tokyo  9:00 AM +0900\nUTC   12:00 AM +0000\n");
}

#[test]
fn unknown_zone_renders_nothing() {
    let r = menu_block_at("[timezones]\nUTC = \"UTC\"\nBase = \"Mars/Colony\"\n", NEW_YEAR_2024);
    assert_eq!(r, Err(TzError::UnknownTimeZoneError));
}

#[test]
fn missing_table_stops_before_rendering() {
    let r = menu_block_at("title = \"clocks\"\n", NEW_YEAR_2024);
    assert_eq!(r, Err(TzError::ConfigParseError));
}

#[test]
fn timezones_not_a_table_stops_before_rendering() {
    let r = menu_block_at("timezones = [\"UTC\"]\n", NEW_YEAR_2024);
    assert_eq!(r, Err(TzError::ConfigParseError));
}

#[test]
fn non_string_zone_stops_before_rendering() {
    let r = menu_block_at("[timezones]\nHome = 1\n", NEW_YEAR_2024);
    assert_eq!(r, Err(TzError::ConfigSchemaError));
}

#[test]
fn loading_twice_gives_the_same_entries() {
    let text = "[timezones]\nZ = \"UTC\"\nA = \"Asia/Tokyo\"\nM = \"Europe/Paris\"\n";
    let a = tz_dmenu::config::parse_config(text).unwrap();
    let b = tz_dmenu::config::parse_config(text).unwrap();
    let names = |v: &Vec<ZoneEntry>| v.iter().map(|e| (e.display_name.clone(), e.zone_id.clone())).collect::<Vec<_>>();
    assert_eq!(names(&a), names(&b));
}

#[test]
fn empty_table_stops_before_rendering() {
    let r = menu_block_at("[timezones]\n", NEW_YEAR_2024);
    assert_eq!(r, Err(TzError::EmptyConfigError));
}

#[test]
fn menu_has_a_line_per_zone() {
    let block = menu_block_at(
        "[timezones]\nUTC = \"UTC\"\nTokyo = \"Asia/Tokyo\"\nParis = \"Europe/Paris\"\n",
        NEW_YEAR_2024,
    )
    .unwrap();
    assert_eq!(count_lines(&block), 3);
    assert!(!block.contains("\n\n"));
}

#[test]
fn counts_lines_like_str_lines() {
    assert_eq!(count_lines(""), 0);
    assert_eq!(count_lines("a\nb\n"), 2);
    assert_eq!(count_lines("a\nb"), 2);
    assert_eq!(count_lines("\n"), 1);
}

#[test]
fn selector_command_lists_line_count() {
    let block = "a\nb\nc\nd\ne\nf\ng\nh\ni\nj\nk\nl\n";
    assert_eq!(selector_command(block), vec!["dmenu", "-i", "-l", "12", "-p", ">"]);
}

#[test]
fn every_error_has_a_message() {
    for e in [
        TzError::ConfigReadError,
        TzError::ConfigParseError,
        TzError::ConfigSchemaError,
        TzError::UnknownTimeZoneError,
        TzError::EmptyConfigError,
        TzError::SelectorLaunchError,
        TzError::SelectorIOError,
    ] {
        assert!(!e.message().is_empty());
    }
}
