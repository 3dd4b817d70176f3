use tz_dmenu::config::{entries_from_fields, parse_config};
use tz_dmenu::error::TzError;

#[test]
fn reads_every_timezone_entry() {
    let v = parse_config("[timezones]\nUTC = \"UTC\"\nTokyo = \"Asia/Tokyo\"\n").unwrap();
    assert_eq!(v.len(), 2);
    let utc = v.iter().find(|e| e.display_name == "UTC").unwrap();
    assert_eq!(utc.zone_id, "UTC");
    let tokyo = v.iter().find(|e| e.display_name == "Tokyo").unwrap();
    assert_eq!(tokyo.zone_id, "Asia/Tokyo");
}

#[test]
fn missing_timezones_table_is_parse_error() {
    let r = parse_config("[zones]\nUTC = \"UTC\"\n");
    assert_eq!(r.unwrap_err(), TzError::ConfigParseError);
}

#[test]
fn malformed_document_is_parse_error() {
    let r = parse_config("[timezones\nUTC = ");
    assert_eq!(r.unwrap_err(), TzError::ConfigParseError);
}

#[test]
fn timezones_not_a_table_is_parse_error() {
    let r = parse_config("timezones = \"UTC\"\n");
    assert_eq!(r.unwrap_err(), TzError::ConfigParseError);
}

#[test]
fn non_string_value_is_schema_error() {
    let r = parse_config("[timezones]\nUTC = \"UTC\"\nHome = 5\n");
    assert_eq!(r.unwrap_err(), TzError::ConfigSchemaError);
}

#[test]
fn empty_timezones_table_is_empty_error() {
    let r = parse_config("[timezones]\n");
    assert_eq!(r.unwrap_err(), TzError::EmptyConfigError);
}

#[test]
fn fields_empty_is_empty_error() {
    assert_eq!(entries_from_fields(&Vec::new()).unwrap_err(), TzError::EmptyConfigError);
}

#[test]
fn fields_with_non_string_is_schema_error() {
    let f = vec![("a".to_string(), Some("UTC".to_string())), ("b".to_string(), None)];
    assert_eq!(entries_from_fields(&f).unwrap_err(), TzError::ConfigSchemaError);
}

#[test]
fn fields_become_entries() {
    let f = vec![("Home".to_string(), Some("Europe/Paris".to_string()))];
    let v = entries_from_fields(&f).unwrap();
    assert_eq!(v.len(), 1);
    assert_eq!(v[0].display_name, "Home");
    assert_eq!(v[0].zone_id, "Europe/Paris");
}
