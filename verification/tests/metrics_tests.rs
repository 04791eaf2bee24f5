use msd_core::collector::Collector;
use msd_core::emit::{centi_to_string, emit_action, format_batch, EmitAction};
use msd_core::identity::{FieldSources, Identity, IdentitySources};
use msd_core::metrics::{collect, mem_percent_centi, HostSnapshot, MetricName, MetricUnit, NetworkCounters};
use msd_core::sample::NetworkSample;

fn test_identity() -> Identity {
    Identity {
        instance_id: "srv-1".to_string(),
        cluster_or_region: "clu-1".to_string(),
        secondary_id: "task-1".to_string(),
    }
}

fn zero_sample() -> NetworkSample {
    NetworkSample { bytes_received: 0, bytes_transmitted: 0, observed_at: 0 }
}

fn base_snapshot() -> HostSnapshot {
    HostSnapshot {
        cpu_centi: 1234,
        mem_used_bytes: 50,
        mem_total_bytes: 200,
        player_count: Some(5),
        network: Some(NetworkCounters { bytes_received: 1000, bytes_transmitted: 2000 }),
        taken_at: 1_700_000_100,
    }
}

#[test]
fn fresh_state_batch_has_cpu_and_memory_but_no_rates() {
    // A never-before-seen state path loads as the zero sample: the
    // first cycle reports CPU, memory and players, no network rate.
    let out = collect(&test_identity(), &base_snapshot(), &zero_sample());
    let names: Vec<MetricName> = out.batch.iter().map(|p| p.name).collect();
    assert_eq!(
        names,
        vec![MetricName::CpuUtilization, MetricName::MemoryUtilization, MetricName::ActivePlayers]
    );
    // The counters just read are persisted for the next cycle.
    assert_eq!(
        out.next_sample,
        Some(NetworkSample {
            bytes_received: 1000,
            bytes_transmitted: 2000,
            observed_at: 1_700_000_100
        })
    );
}

#[test]
fn warm_state_batch_adds_both_rates() {
    let prev = NetworkSample {
        bytes_received: 0,
        bytes_transmitted: 0,
        observed_at: 1_700_000_000,
    };
    let out = collect(&test_identity(), &base_snapshot(), &prev);
    let names: Vec<MetricName> = out.batch.iter().map(|p| p.name).collect();
    assert_eq!(
        names,
        vec![
            MetricName::CpuUtilization,
            MetricName::MemoryUtilization,
            MetricName::ActivePlayers,
            MetricName::NetworkIn,
            MetricName::NetworkOut,
        ]
    );
    // 1000 bytes over 100 s = 10.00 B/s; 2000 over 100 = 20.00.
    assert_eq!(out.batch[3].value_centi, 1000);
    assert_eq!(out.batch[4].value_centi, 2000);
    assert_eq!(out.batch[3].unit, MetricUnit::BytesPerSecond);
}

#[test]
fn batch_points_share_timestamp_and_dimensions() {
    let out = collect(&test_identity(), &base_snapshot(), &zero_sample());
    for p in &out.batch {
        assert_eq!(p.timestamp, 1_700_000_100);
        assert_eq!(p.dimensions.len(), 2);
        assert_eq!(p.dimensions[0].key, "ServerId");
        assert_eq!(p.dimensions[0].value, "srv-1");
        assert_eq!(p.dimensions[1].key, "ClusterName");
        assert_eq!(p.dimensions[1].value, "clu-1");
    }
}

#[test]
fn absent_readings_only_omit_their_points() {
    let snap = HostSnapshot {
        cpu_centi: 700,
        mem_used_bytes: 1,
        mem_total_bytes: 0,
        player_count: None,
        network: None,
        taken_at: 42,
    };
    let out = collect(&test_identity(), &snap, &zero_sample());
    let names: Vec<MetricName> = out.batch.iter().map(|p| p.name).collect();
    assert_eq!(names, vec![MetricName::CpuUtilization]);
    assert_eq!(out.next_sample, None);
}

#[test]
fn memory_percent_rounds_to_hundredths() {
    // 50 / 200 = 25.00 %
    assert_eq!(mem_percent_centi(50, 200), 2500);
    // 1 / 3 = 33.3333... % -> 33.33
    assert_eq!(mem_percent_centi(1, 3), 3333);
    // 2 / 3 = 66.6666... % -> 66.67
    assert_eq!(mem_percent_centi(2, 3), 6667);
    // 1 / 8 = 12.5 % -> 12.50
    assert_eq!(mem_percent_centi(1, 8), 1250);
}

#[test]
fn player_count_is_carried_in_hundredths() {
    let out = collect(&test_identity(), &base_snapshot(), &zero_sample());
    assert_eq!(out.batch[2].value_centi, 500);
    assert_eq!(out.batch[2].unit, MetricUnit::Count);
}

#[test]
fn collector_rolls_state_forward_between_cycles() {
    let sources = IdentitySources {
        instance: FieldSources { override_value: Some("srv-1".to_string()), fetched_value: None },
        cluster: FieldSources { override_value: Some("clu-1".to_string()), fetched_value: None },
        secondary: FieldSources { override_value: None, fetched_value: None },
    };
    let mut c = Collector::start(sources, zero_sample());
    assert_eq!(c.identity.secondary_id, "unknown");

    let first = c.step(&base_snapshot());
    assert_eq!(first.len(), 3);  // cold start: no rates
    assert_eq!(c.prev_sample.observed_at, 1_700_000_100);

    let mut snap2 = base_snapshot();
    snap2.taken_at = 1_700_000_200;
    snap2.network = Some(NetworkCounters { bytes_received: 2000, bytes_transmitted: 2000 });
    let second = c.step(&snap2);
    assert_eq!(second.len(), 5);  // warm: both rates present
    assert_eq!(second[3].value_centi, 1000);  // 1000 B over 100 s
    assert_eq!(second[4].value_centi, 0);  // unchanged counter
}

#[test]
fn emit_decision_matches_mode_and_batch() {
    assert_eq!(emit_action(0, true), EmitAction::DryRunDump);
    assert_eq!(emit_action(3, true), EmitAction::DryRunDump);
    assert_eq!(emit_action(0, false), EmitAction::SkipEmpty);
    assert_eq!(emit_action(3, false), EmitAction::Send);
}

#[test]
fn centi_values_render_with_two_decimals() {
    assert_eq!(centi_to_string(1234), "12.34");
    assert_eq!(centi_to_string(0), "0.00");
    assert_eq!(centi_to_string(5), "0.05");
    assert_eq!(centi_to_string(100), "1.00");
}

#[test]
fn dry_run_dump_lists_every_point() {
    let out = collect(&test_identity(), &base_snapshot(), &zero_sample());
    let dump = format_batch(&out.batch);
    assert_eq!(
        dump,
        "  CPUUtilization = 12.34 Percent\n  MemoryUtilization = 25.00 Percent\n  ActivePlayers = 5.00 Count\n"
    );
}

#[test]
fn dry_run_dump_of_empty_batch_is_empty() {
    assert_eq!(format_batch(&Vec::new()), "");
}
