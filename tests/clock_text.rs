use tz_dmenu::clock::{push_two_digits, time_text_of};

const NEW_YEAR_2024: i64 = 1704067200;

#[test]
fn midnight_utc_is_twelve_am() {
    assert_eq!(time_text_of(NEW_YEAR_2024, 0), "12:00 AM +0000");
}

#[test]
fn tokyo_hour_is_space_padded() {
    assert_eq!(time_text_of(NEW_YEAR_2024, 32400), " 9:00 AM +0900");
}

#[test]
fn negative_half_hour_offset() {
    // 2023-12-31 20:30 at UTC-03:30
    assert_eq!(time_text_of(NEW_YEAR_2024, -12600), " 8:30 PM -0330");
}

#[test]
fn noon_is_twelve_pm() {
    assert_eq!(time_text_of(NEW_YEAR_2024 + 12 * 3600 + 5 * 60 + 59, 0), "12:05 PM +0000");
}

#[test]
fn afternoon_two_digit_hour() {
    assert_eq!(time_text_of(NEW_YEAR_2024 + 23 * 3600 + 59 * 60, 0), "11:59 PM +0000");
}

#[test]
fn instant_before_epoch() {
    // 1969-12-31 23:00 UTC
    assert_eq!(time_text_of(-3600, 0), "11:00 PM +0000");
}

#[test]
fn offset_rounds_to_nearest_minute() {
    // the wall clock reads 05:30:45; the offset of 5 h 30 min 45 s shows as +0531
    assert_eq!(time_text_of(0, 19800 + 45), " 5:30 AM +0531");
}

#[test]
fn two_digits_pads_with_zero() {
    let mut s = String::from("x");
    push_two_digits(&mut s, 7);
    assert_eq!(s, "x07");
}
