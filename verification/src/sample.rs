//! Network counter samples and the throughput rate calculation.
//!
//! A `NetworkSample` records the interface's cumulative receive/transmit
//! counters together with the unix time at which they were observed.
//! Two successive samples yield a throughput rate in hundredths of a
//! byte per second (two-decimal fixed point), clamped to zero when a
//! counter has reset.

use vstd::prelude::*;

verus! {

/// Cumulative network counters observed at one instant.
///
/// The zero value (all fields 0) stands for "no prior sample":
/// an `observed_at` of 0 marks a sample that carries no information.
#[derive(Clone, Copy, Debug, PartialEq, Eq, Structural)]
pub struct NetworkSample {
    pub bytes_received: u64,
    pub bytes_transmitted: u64,
    pub observed_at: u64,
}

impl NetworkSample {
    /// The sample meaning "nothing observed yet".
    pub fn zero() -> (s: NetworkSample)
        ensures
            s == (NetworkSample { bytes_received: 0, bytes_transmitted: 0, observed_at: 0 }),
    {
        NetworkSample { bytes_received: 0, bytes_transmitted: 0, observed_at: 0 }
    }
}

/// `delta / elapsed` as a real number, rounded to the nearest hundredth
/// (half away from zero) and expressed in hundredths:
/// `round(100 * delta / elapsed)`.
pub open spec fn rounded_centi_rate(delta: nat, elapsed: nat) -> nat
    recommends
        elapsed > 0,
{
    (200 * delta + elapsed) / (2 * elapsed)
}

/// The rate for one counter pair: the counter delta divided by the
/// elapsed seconds, in hundredths, clamped to zero when the counter
/// went backwards (interface reset).
pub open spec fn counter_rate(prev: nat, curr: nat, elapsed: nat) -> nat
    recommends
        elapsed > 0,
{
    if curr >= prev {
        rounded_centi_rate((curr - prev) as nat, elapsed)
    } else {
        0
    }
}

/// Computes receive/transmit throughput between two samples, in
/// hundredths of a byte per second.
///
/// Returns `None` on a cold start (`prev.observed_at == 0`, no prior
/// sample) and when no time has elapsed or the clock went backwards
/// (`curr.observed_at <= prev.observed_at`). Otherwise the pair is the
/// exact rounded rate for each direction, never negative: a counter
/// reset yields 0 rather than a negative spike.
pub fn rate(prev: &NetworkSample, curr: &NetworkSample) -> (r: Option<(u128, u128)>)
    ensures
        (r is Some) <==> (prev.observed_at > 0 && curr.observed_at > prev.observed_at),
        prev.observed_at > 0 && curr.observed_at > prev.observed_at ==> r == Some(
            (
                counter_rate(
                    prev.bytes_received as nat,
                    curr.bytes_received as nat,
                    (curr.observed_at - prev.observed_at) as nat,
                ) as u128,
                counter_rate(
                    prev.bytes_transmitted as nat,
                    curr.bytes_transmitted as nat,
                    (curr.observed_at - prev.observed_at) as nat,
                ) as u128,
            ),
        ),
{
    if prev.observed_at == 0 || curr.observed_at <= prev.observed_at {
        return None;
    }
    let elapsed: u64 = curr.observed_at - prev.observed_at;
    let rx = centi_rate_exec(prev.bytes_received, curr.bytes_received, elapsed);
    let tx = centi_rate_exec(prev.bytes_transmitted, curr.bytes_transmitted, elapsed);
    Some((rx, tx))
}

/// One direction of the rate computation, in exact integer arithmetic:
/// `round(100 * (curr - prev) / elapsed)`, or 0 on a counter reset.
fn centi_rate_exec(prev: u64, curr: u64, elapsed: u64) -> (r: u128)
    requires
        elapsed > 0,
    ensures
        r == counter_rate(prev as nat, curr as nat, elapsed as nat),
{
    if curr < prev {
        return 0;
    }
    let delta: u128 = (curr - prev) as u128;
    let e: u128 = elapsed as u128;
    (200 * delta + e) / (2 * e)
}

/// The rate is exactly the rounded quotient whenever the counters did
/// not reset, and it is zero exactly on a reset: in particular it is
/// never "negative" (the result type is a pair of unsigned values, and
/// clamping is the stated behaviour, not an accident of the type).
pub proof fn lemma_rate_clamped(prev: nat, curr: nat, elapsed: nat)
    requires
        elapsed > 0,
    ensures
        curr >= prev ==> counter_rate(prev, curr, elapsed) == rounded_centi_rate(
            (curr - prev) as nat,
            elapsed,
        ),
        curr < prev ==> counter_rate(prev, curr, elapsed) == 0,
{
}

} // verus!

