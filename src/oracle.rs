use vstd::prelude::*;

verus! {

/// The UTC offset, in seconds, that the time-zone database gives zone `zone` at
/// instant `utc`; `None` where `zone` names no known zone, and also where `utc` lies
/// outside the range of dates that chrono can represent (some 262,000 years either
/// side of the epoch).
pub uninterp spec fn zone_offset_of(zone: Seq<char>, utc: int) -> Option<int>;

/// Relies on chrono-tz's `Tz::from_str` to look the zone up, and on chrono's
/// `TimeZone::offset_from_utc_datetime` for its offset at the instant, which is a
/// `FixedOffset` and so lies strictly within a day of UTC.
#[verifier::external_body]
pub(crate) fn zone_offset(zone_id: &str, utc: i64) -> (r: Option<i32>)
    ensures
        r matches Some(o) ==> -86400 < o < 86400,
        r matches Some(o) ==> zone_offset_of(zone_id@, utc as int) == Some(o as int),
        r is None ==> zone_offset_of(zone_id@, utc as int) is None,
{
    let tz = zone_id.parse::<chrono_tz::Tz>().ok()?;
    let at = chrono::DateTime::from_timestamp(utc, 0)?;
    let offset = chrono::TimeZone::offset_from_utc_datetime(&tz, &at.naive_utc());
    Some(chrono::Offset::fix(&offset).local_minus_utc())
}

} // verus!
