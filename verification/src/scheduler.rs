//! The scheduler's decisions: whether the recurring background task starts
//! at all, and how the flat environment settings resolve to a switch and a
//! cadence. The ticking loop itself is the host's concern; it runs one pass
//! immediately, then one per tick, and a failed pass is logged and retried
//! at the next tick, never fatal to the process.

use vstd::prelude::*;

use crate::text::{parse_u64, spec_parse_u64, str_eq};

verus! {

/// The scheduler's settings: its switch and its cadence in seconds.
#[derive(Debug)]
pub struct SyncConfig {
    pub enabled: bool,
    pub interval_secs: u64,
}

impl Default for SyncConfig {
    /// Enabled, at a cadence of one hour.
    fn default() -> (r: Self)
        ensures
            r.enabled,
            r.interval_secs == 3600,
    {
        SyncConfig { enabled: true, interval_secs: 3600 }
    }
}

/// Whether the recurring background task starts at all: only when scheduling
/// is enabled and at least one source is configured. Otherwise no
/// activation happens — observable as no background task started.
pub fn sync_task_activates(enabled: bool, sources_empty: bool) -> (r: bool)
    ensures
        r == (enabled && !sources_empty),
{
    enabled && !sources_empty
}

/// Resolves the flat switch setting: on unless the value read is present and
/// differs from both accepted spellings of on.
pub fn resolve_enabled_setting(v: Option<&str>) -> (r: bool)
    ensures
        r == (match v {
            Some(s) => s@ == "true"@ || s@ == "1"@,
            None => true,
        }),
{
    match v {
        Some(s) => str_eq(s, "true") || str_eq(s, "1"),
        None => true,
    }
}

/// Resolves the flat cadence setting: the value read when it parses as a
/// number of seconds, and one hour otherwise.
pub fn resolve_interval_setting(v: Option<&str>) -> (r: u64)
    ensures
        r == (match v {
            Some(s) => match spec_parse_u64(s@) {
                Some(secs) => secs,
                None => 3600u64,
            },
            None => 3600u64,
        }),
{
    match v {
        Some(s) => match parse_u64(s) {
            Some(secs) => secs,
            None => 3600,
        },
        None => 3600,
    }
}

} // verus!
