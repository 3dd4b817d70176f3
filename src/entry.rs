use vstd::prelude::*;

verus! {

/// One configured location: the name shown to the user and the zone it lives in.
#[derive(Debug, Clone)]
pub struct ZoneEntry {
    pub display_name: String,
    pub zone_id: String,
}

/// A location together with one shared instant seen in its zone.
#[derive(Debug, Clone)]
pub struct ResolvedEntry {
    pub display_name: String,
    /// The instant, in whole seconds since the Unix epoch (UTC).
    pub instant: i64,
    /// The zone's UTC offset at that instant, in seconds east of UTC.
    pub offset_seconds: i32,
}

impl ResolvedEntry {
    /// An offset is less than a day in either direction.
    pub open spec fn wf(&self) -> bool {
        -86400 < self.offset_seconds < 86400
    }
}

} // verus!
