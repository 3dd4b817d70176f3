use crate::config::{config_fields, entries_match, has_non_string, parse_config};
use crate::entry::{ResolvedEntry, ZoneEntry};
use crate::error::TzError;
use crate::oracle::zone_offset_of;
use crate::order::is_offset_order;
use crate::render::{format_entries, rendered};
use crate::resolve::{has_unknown_zone, resolve_entries_at, resolved_at};
use vstd::prelude::*;

verus! {

/// `block` is what a run at instant `now` shows for the configured `zones`.
pub open spec fn menu_of(zones: Seq<ZoneEntry>, now: int, block: Seq<char>) -> bool {
    exists|resolved: Seq<ResolvedEntry>, sorted: Seq<ResolvedEntry>|
        resolved_at(zones, now, resolved) && is_offset_order(resolved, sorted) && block == rendered(sorted)
}

/// Some field names a zone that the database cannot resolve at `now`.
pub open spec fn fields_unknown_zone(fields: Seq<(Seq<char>, Option<Seq<char>>)>, now: int) -> bool {
    exists|i: int| 0 <= i < fields.len() && (#[trigger] zone_offset_of(fields[i].1->Some_0, now)) is None
}

/// `r` is what a run on the configuration document `text` at instant `now` gives.
pub open spec fn menu_result(text: Seq<char>, now: int, r: Result<String, TzError>) -> bool {
    match config_fields(text) {
        None => r == Err::<String, TzError>(TzError::ConfigParseError),
        Some(f) => {
            &&& f.len() == 0 ==> r == Err::<String, TzError>(TzError::EmptyConfigError)
            &&& f.len() > 0 && has_non_string(f) ==> r == Err::<String, TzError>(TzError::ConfigSchemaError)
            &&& f.len() > 0 && !has_non_string(f) && fields_unknown_zone(f, now) ==> r == Err::<
                String,
                TzError,
            >(TzError::UnknownTimeZoneError)
            &&& f.len() > 0 && !has_non_string(f) && !fields_unknown_zone(f, now) ==> (r matches Ok(s)
                && exists|zones: Seq<ZoneEntry>| entries_match(f, zones) && menu_of(zones, now, s@))
        },
    }
}

/// The menu text for a configuration document at instant `now`: its zones read,
/// resolved at `now`, sorted by descending offset and rendered. Nothing is rendered
/// unless every stage succeeds.
pub fn menu_block_at(config_text: &str, now: i64) -> (r: Result<String, TzError>)
    ensures
        menu_result(config_text@, now as int, r),
{
    let zones = match parse_config(config_text) {
        Ok(zones) => zones,
        Err(e) => {
            return Err(e);
        },
    };
    let ghost f = config_fields(config_text@)->Some_0;
    proof {
        assert forall|i: int| 0 <= i < zones@.len() implies zones@[i].zone_id@ == f[i].1->Some_0 by {
            assert(Some(zones@[i].zone_id@) == f[i].1);
        }
        if has_unknown_zone(zones@, now as int) {
            let i = choose|i: int|
                0 <= i < zones@.len() && (#[trigger] zone_offset_of(zones@[i].zone_id@, now as int)) is None;
            assert(zone_offset_of(f[i].1->Some_0, now as int) is None);
        }
        if fields_unknown_zone(f, now as int) {
            let i = choose|i: int| 0 <= i < f.len() && (#[trigger] zone_offset_of(f[i].1->Some_0, now as int)) is None;
            assert(zone_offset_of(zones@[i].zone_id@, now as int) is None);
        }
    }
    let resolved = match resolve_entries_at(&zones, now) {
        Ok(resolved) => resolved,
        Err(e) => {
            return Err(e);
        },
    };
    let ghost res = resolved@;
    let r = format_entries(resolved);
    proof {
        if r is Ok {
            let s = r->Ok_0;
            let sorted = choose|sorted: Seq<ResolvedEntry>| is_offset_order(res, sorted) && s@ == rendered(sorted);
            assert(menu_of(zones@, now as int, s@));
        }
    }
    r
}

} // verus!
