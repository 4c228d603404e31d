//! Work that is done at intervals.

use crate::persistence::cleanup;
use crate::persistence::cleanup::{Doomed, Swept};
use crate::persistence::Repository;
use crate::settings::Settings;
use vstd::prelude::*;

verus! {

/// Seconds between two cleanups.
pub const CLEANUP_INTERVAL_SECS: u64 = 86_400;

/// Deletes the clips that are older than the settings allow. With settings that cannot be used
/// nothing is deleted, and `None` is returned.
pub fn clean(repository: &mut Repository, settings: &Settings, now_ms: i64) -> (swept: Option<Swept>)
    requires
        old(repository)@.wf(),
    ensures
        match swept {
            Some(swept) => settings@.valid() && old(repository)@.was_swept(
                final(repository)@,
                Doomed::Older(cleanup::cutoff(settings.retention_days, now_ms)),
                swept,
            ),
            None => !settings@.valid() && final(repository)@ == old(repository)@,
        },
        final(repository)@.wf(),
{
    if !settings.is_valid() {
        return None;
    }
    match repository.cleanup(settings.retention_days, now_ms) {
        Ok(swept) => Some(swept),
        Err(_) => None,
    }
}

} // verus!
