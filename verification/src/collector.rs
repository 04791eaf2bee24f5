//! The collector's state machine. Startup resolves the identity once
//! — the sentinel makes resolution total, so startup cannot block —
//! and every later cycle turns a host snapshot into a batch and rolls
//! the stored network sample forward. The caller owns the clock, the
//! samplers and the backend; each cycle's decisions are made here.

use vstd::prelude::*;

use crate::identity::{Identity, IdentitySources};
use crate::metrics::{batch_matches, collect, spec_next_sample, HostSnapshot, MetricPoint};
use crate::sample::NetworkSample;

verus! {

/// The running collector: the identity resolved at startup, read-only
/// thereafter, and the last persisted network sample.
pub struct Collector {
    pub identity: Identity,
    pub prev_sample: NetworkSample,
}

impl Collector {
    /// Startup: resolves the identity from its sources — this never
    /// fails, the sentinel closes every chain — and adopts the loaded
    /// sample (the zero sample when nothing usable was stored).
    pub fn start(sources: IdentitySources, loaded: NetworkSample) -> (r: Collector)
        ensures
            r.identity.resolved_from(&sources),
            r.prev_sample == loaded,
    {
        Collector { identity: Identity::resolve(sources), prev_sample: loaded }
    }

    /// One collection cycle: assembles the batch for the snapshot and
    /// rolls the stored sample forward exactly when network counters
    /// were read. The identity never changes after startup.
    pub fn step(&mut self, snap: &HostSnapshot) -> (batch: Vec<MetricPoint>)
        ensures
            final(self).identity == old(self).identity,
            batch_matches(batch@, *snap, old(self).prev_sample, &old(self).identity),
            final(self).prev_sample == match spec_next_sample(*snap) {
                Some(s) => s,
                None => old(self).prev_sample,
            },
    {
        let outcome = collect(&self.identity, snap, &self.prev_sample);
        match outcome.next_sample {
            Some(s) => {
                self.prev_sample = s;
            },
            None => {},
        }
        outcome.batch
    }
}

/// Timestamps of persisted samples never go backwards within one
/// collector process: as long as the clock read for a snapshot is not
/// behind the stored sample, the sample a cycle persists carries a
/// timestamp at least as large as the stored one. Concurrent writers
/// sharing one state path are outside this contract.
pub proof fn lemma_sample_time_monotonic(prev: NetworkSample, snap: HostSnapshot)
    requires
        snap.taken_at >= prev.observed_at,
    ensures
        match spec_next_sample(snap) {
            Some(s) => s.observed_at >= prev.observed_at,
            None => true,
        },
{
}

} // verus!
