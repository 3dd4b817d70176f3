use crate::entry::{ResolvedEntry, ZoneEntry};
use crate::error::TzError;
use crate::oracle::{zone_offset, zone_offset_of};
use vstd::prelude::*;

verus! {

/// Whether some entry of `zones` names a zone unknown at instant `now`.
pub open spec fn has_unknown_zone(zones: Seq<ZoneEntry>, now: int) -> bool {
    exists|i: int| 0 <= i < zones.len() && (#[trigger] zone_offset_of(zones[i].zone_id@, now)) is None
}

/// `resolved` is `zones` seen at instant `now`: one entry each, in the same order,
/// each with its name, the instant `now` and its zone's offset at `now`.
pub open spec fn resolved_at(zones: Seq<ZoneEntry>, now: int, resolved: Seq<ResolvedEntry>) -> bool {
    &&& resolved.len() == zones.len()
    &&& forall|i: int|
        0 <= i < resolved.len() ==> {
            &&& (#[trigger] resolved[i]).display_name@ == zones[i].display_name@
            &&& resolved[i].instant == now
            &&& zone_offset_of(zones[i].zone_id@, now) == Some(resolved[i].offset_seconds as int)
            &&& resolved[i].wf()
        }
}

/// Projects the one instant `now` into the zone of every entry, so all results share
/// that instant. One zone that the database cannot resolve at `now` fails the whole
/// call.
pub fn resolve_entries_at(zones: &Vec<ZoneEntry>, now: i64) -> (r: Result<Vec<ResolvedEntry>, TzError>)
    ensures
        r is Err <==> has_unknown_zone(zones@, now as int),
        r matches Err(e) ==> e == TzError::UnknownTimeZoneError,
        r matches Ok(v) ==> resolved_at(zones@, now as int, v@),
{
    let mut out: Vec<ResolvedEntry> = Vec::new();
    let mut i: usize = 0;
    while i < zones.len()
        invariant
            i <= zones@.len(),
            resolved_at(zones@.subrange(0, i as int), now as int, out@),
            forall|k: int| 0 <= k < i ==> (#[trigger] zone_offset_of(zones@[k].zone_id@, now as int)) is Some,
        decreases zones@.len() - i,
    {
        let zone = &zones[i];
        match zone_offset(zone.zone_id.as_str(), now) {
            None => {
                return Err(TzError::UnknownTimeZoneError);
            },
            Some(offset) => {
                out.push(
                    ResolvedEntry { display_name: zone.display_name.clone(), instant: now, offset_seconds: offset },
                );
            },
        }
        i += 1;
    }
    assert(zones@.subrange(0, i as int) =~= zones@);
    Ok(out)
}

} // verus!
