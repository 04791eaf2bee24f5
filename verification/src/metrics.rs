//! Metric points and the per-cycle aggregation.
//!
//! Every value is a two-decimal fixed-point number carried in
//! hundredths (`value_centi`), so that percentages and rates keep the
//! two-decimal rounding of the reported figures without floating
//! point. A count `n` is carried as `n * 100`.
//!
//! One collection cycle turns a host snapshot (sampled by the caller)
//! and the previous network sample into a batch of metric points and,
//! when network counters were read, the sample to persist for the next
//! cycle. A sub-collection that yielded nothing (no player count, no
//! network interface, a zero memory total) merely omits its points: it
//! never blocks the rest of the batch.

use vstd::prelude::*;

use crate::identity::Identity;
use crate::sample::{counter_rate, NetworkSample};

verus! {

/// The unit a metric point is reported in.
#[derive(Clone, Copy, Debug, PartialEq, Eq, Structural)]
pub enum MetricUnit {
    Percent,
    Count,
    BytesPerSecond,
    Unitless,
}

/// The fixed names under which points are reported.
#[derive(Clone, Copy, Debug, PartialEq, Eq, Structural)]
pub enum MetricName {
    CpuUtilization,
    MemoryUtilization,
    ActivePlayers,
    NetworkIn,
    NetworkOut,
}

/// The wire name of a metric.
pub open spec fn spec_name_str(n: MetricName) -> Seq<char> {
    match n {
        MetricName::CpuUtilization => "CPUUtilization"@,
        MetricName::MemoryUtilization => "MemoryUtilization"@,
        MetricName::ActivePlayers => "ActivePlayers"@,
        MetricName::NetworkIn => "NetworkIn"@,
        MetricName::NetworkOut => "NetworkOut"@,
    }
}

impl MetricName {
    /// The wire name of this metric.
    pub fn as_str(&self) -> (r: &'static str)
        ensures
            r@ == spec_name_str(*self),
    {
        match self {
            MetricName::CpuUtilization => "CPUUtilization",
            MetricName::MemoryUtilization => "MemoryUtilization",
            MetricName::ActivePlayers => "ActivePlayers",
            MetricName::NetworkIn => "NetworkIn",
            MetricName::NetworkOut => "NetworkOut",
        }
    }
}

/// One (key, value) dimension of a metric point.
pub struct Dimension {
    pub key: String,
    pub value: String,
}

/// One named, dimensioned, timestamped value. Immutable once built.
pub struct MetricPoint {
    pub name: MetricName,
    /// The value in hundredths (two-decimal fixed point).
    pub value_centi: u128,
    pub unit: MetricUnit,
    pub dimensions: Vec<Dimension>,
    pub timestamp: u64,
}

/// Network counters read in one snapshot.
#[derive(Clone, Copy, Debug, PartialEq, Eq, Structural)]
pub struct NetworkCounters {
    pub bytes_received: u64,
    pub bytes_transmitted: u64,
}

/// Everything one cycle sampled from the host and the monitored
/// application. The caller fills it; absent readings stay `None`.
pub struct HostSnapshot {
    /// Global CPU utilization, in hundredths of a percent.
    pub cpu_centi: u64,
    /// Memory in use, in bytes.
    pub mem_used_bytes: u64,
    /// Total memory, in bytes. Zero means the reading failed.
    pub mem_total_bytes: u64,
    /// Players currently connected, when the application answered.
    pub player_count: Option<u64>,
    /// Cumulative interface counters, when an interface was found.
    pub network: Option<NetworkCounters>,
    /// Unix time at which the snapshot was taken.
    pub taken_at: u64,
}

/// `used / total * 100` as a percentage, rounded to the nearest
/// hundredth of a percent and expressed in hundredths:
/// `round(10000 * used / total)`.
pub open spec fn rounded_centi_percent(used: nat, total: nat) -> nat
    recommends
        total > 0,
{
    (20000 * used + total) / (2 * total)
}

/// Memory utilization in hundredths of a percent, exactly rounded.
pub fn mem_percent_centi(used: u64, total: u64) -> (r: u128)
    requires
        total > 0,
    ensures
        r == rounded_centi_percent(used as nat, total as nat),
{
    let u: u128 = used as u128;
    let t: u128 = total as u128;
    (20000 * u + t) / (2 * t)
}

/// The name, value and unit of every point one cycle must emit, in
/// order: CPU always; memory when the total is known; the player
/// count when the application answered; the two throughput rates when
/// an interface was read and a usable prior sample exists.
pub open spec fn spec_cycle_points(snap: HostSnapshot, prev: NetworkSample) -> Seq<
    (MetricName, u128, MetricUnit),
> {
    let cpu = seq![(MetricName::CpuUtilization, snap.cpu_centi as u128, MetricUnit::Percent)];
    let mem = if snap.mem_total_bytes > 0 {
        seq![
            (
                MetricName::MemoryUtilization,
                rounded_centi_percent(
                    snap.mem_used_bytes as nat,
                    snap.mem_total_bytes as nat,
                ) as u128,
                MetricUnit::Percent,
            ),
        ]
    } else {
        Seq::empty()
    };
    let players = match snap.player_count {
        Some(n) => seq![(MetricName::ActivePlayers, (n * 100) as u128, MetricUnit::Count)],
        None => Seq::empty(),
    };
    let net = match snap.network {
        Some(nc) => {
            if prev.observed_at > 0 && snap.taken_at > prev.observed_at {
                let elapsed = (snap.taken_at - prev.observed_at) as nat;
                seq![
                    (
                        MetricName::NetworkIn,
                        counter_rate(
                            prev.bytes_received as nat,
                            nc.bytes_received as nat,
                            elapsed,
                        ) as u128,
                        MetricUnit::BytesPerSecond,
                    ),
                    (
                        MetricName::NetworkOut,
                        counter_rate(
                            prev.bytes_transmitted as nat,
                            nc.bytes_transmitted as nat,
                            elapsed,
                        ) as u128,
                        MetricUnit::BytesPerSecond,
                    ),
                ]
            } else {
                Seq::empty()
            }
        },
        None => Seq::empty(),
    };
    cpu + mem + players + net
}

/// The sample to persist after the cycle: the counters just read,
/// stamped with the snapshot time — or nothing when no interface was
/// read, leaving the stored sample untouched.
pub open spec fn spec_next_sample(snap: HostSnapshot) -> Option<NetworkSample> {
    match snap.network {
        Some(nc) => Some(
            NetworkSample {
                bytes_received: nc.bytes_received,
                bytes_transmitted: nc.bytes_transmitted,
                observed_at: snap.taken_at,
            },
        ),
        None => None,
    }
}

/// Whether a point's dimensions are exactly the pair derived from the
/// identity: the instance identifier and the cluster/region label.
pub open spec fn dims_match(d: Seq<Dimension>, id: &Identity) -> bool {
    &&& d.len() == 2
    &&& d[0].key@ == "ServerId"@
    &&& d[0].value@ == id.instance_id@
    &&& d[1].key@ == "ClusterName"@
    &&& d[1].value@ == id.cluster_or_region@
}

/// Whether a point reports the given (name, value, unit) triple for
/// this identity at this time.
pub open spec fn point_matches(
    p: MetricPoint,
    entry: (MetricName, u128, MetricUnit),
    id: &Identity,
    ts: u64,
) -> bool {
    &&& p.name == entry.0
    &&& p.value_centi == entry.1
    &&& p.unit == entry.2
    &&& p.timestamp == ts
    &&& dims_match(p.dimensions@, id)
}

/// Whether a batch consists, point for point and in order, of the
/// entries a cycle must emit.
pub open spec fn batch_matches(
    batch: Seq<MetricPoint>,
    snap: HostSnapshot,
    prev: NetworkSample,
    id: &Identity,
) -> bool {
    let expected = spec_cycle_points(snap, prev);
    &&& batch.len() == expected.len()
    &&& forall|i: int|
        0 <= i < batch.len() ==> point_matches(#[trigger] batch[i], expected[i], id, snap.taken_at)
}

/// The result of one collection cycle.
pub struct CycleOutcome {
    /// The points to emit.
    pub batch: Vec<MetricPoint>,
    /// The network sample to persist, when counters were read.
    pub next_sample: Option<NetworkSample>,
}

/// The dimension pair every point of a batch carries.
fn dims_for(id: &Identity) -> (r: Vec<Dimension>)
    ensures
        dims_match(r@, id),
{
    let mut v: Vec<Dimension> = Vec::new();
    v.push(Dimension { key: String::from_str("ServerId"), value: id.instance_id.clone() });
    v.push(
        Dimension { key: String::from_str("ClusterName"), value: id.cluster_or_region.clone() },
    );
    v
}

/// Assembles the batch for one cycle from the snapshot and the prior
/// network sample. No sub-collection can block another: each absent
/// reading only omits its own points. The returned sample, when
/// present, carries the counters just read at the snapshot time.
pub fn collect(id: &Identity, snap: &HostSnapshot, prev: &NetworkSample) -> (r: CycleOutcome)
    ensures
        batch_matches(r.batch@, *snap, *prev, id),
        r.next_sample == spec_next_sample(*snap),
{
    let ghost expected = spec_cycle_points(*snap, *prev);
    let mut batch: Vec<MetricPoint> = Vec::new();

    batch.push(
        MetricPoint {
            name: MetricName::CpuUtilization,
            value_centi: snap.cpu_centi as u128,
            unit: MetricUnit::Percent,
            dimensions: dims_for(id),
            timestamp: snap.taken_at,
        },
    );

    if snap.mem_total_bytes > 0 {
        batch.push(
            MetricPoint {
                name: MetricName::MemoryUtilization,
                value_centi: mem_percent_centi(snap.mem_used_bytes, snap.mem_total_bytes),
                unit: MetricUnit::Percent,
                dimensions: dims_for(id),
                timestamp: snap.taken_at,
            },
        );
    }

    match snap.player_count {
        Some(n) => {
            batch.push(
                MetricPoint {
                    name: MetricName::ActivePlayers,
                    value_centi: (n as u128) * 100,
                    unit: MetricUnit::Count,
                    dimensions: dims_for(id),
                    timestamp: snap.taken_at,
                },
            );
        },
        None => {},
    }

    let next_sample: Option<NetworkSample> = match snap.network {
        Some(nc) => {
            match crate::sample::rate(
                prev,
                &NetworkSample {
                    bytes_received: nc.bytes_received,
                    bytes_transmitted: nc.bytes_transmitted,
                    observed_at: snap.taken_at,
                },
            ) {
                Some(rates) => {
                    batch.push(
                        MetricPoint {
                            name: MetricName::NetworkIn,
                            value_centi: rates.0,
                            unit: MetricUnit::BytesPerSecond,
                            dimensions: dims_for(id),
                            timestamp: snap.taken_at,
                        },
                    );
                    batch.push(
                        MetricPoint {
                            name: MetricName::NetworkOut,
                            value_centi: rates.1,
                            unit: MetricUnit::BytesPerSecond,
                            dimensions: dims_for(id),
                            timestamp: snap.taken_at,
                        },
                    );
                },
                None => {},
            }
            Some(
                NetworkSample {
                    bytes_received: nc.bytes_received,
                    bytes_transmitted: nc.bytes_transmitted,
                    observed_at: snap.taken_at,
                },
            )
        },
        None => None,
    };

    proof {
        assert(batch@.len() == expected.len());
        assert(forall|i: int|
            0 <= i < batch@.len() ==> point_matches(
                #[trigger] batch@[i],
                expected[i],
                id,
                snap.taken_at,
            ));
    }

    CycleOutcome { batch, next_sample }
}

} // verus!
