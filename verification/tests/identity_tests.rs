use msd_core::identity::{region_of_az, task_label, FieldSources, Identity, IdentitySources};

fn sources(
    inst: (Option<&str>, Option<&str>),
    clus: (Option<&str>, Option<&str>),
    sec: (Option<&str>, Option<&str>),
) -> IdentitySources {
    let f = |p: (Option<&str>, Option<&str>)| FieldSources {
        override_value: p.0.map(|s| s.to_string()),
        fetched_value: p.1.map(|s| s.to_string()),
    };
    IdentitySources { instance: f(inst), cluster: f(clus), secondary: f(sec) }
}

#[test]
fn override_wins_over_fetched() {
    let id = Identity::resolve(sources(
        (Some("srv-1"), Some("meta-1")),
        (Some("clu-1"), Some("meta-c")),
        (Some("task-1"), Some("meta-t")),
    ));
    assert_eq!(id.instance_id, "srv-1");
    assert_eq!(id.cluster_or_region, "clu-1");
    assert_eq!(id.secondary_id, "task-1");
}

#[test]
fn fetched_fills_in_when_override_absent_or_empty() {
    let id = Identity::resolve(sources(
        (None, Some("meta-1")),
        (Some(""), Some("meta-c")),
        (None, Some("meta-t")),
    ));
    assert_eq!(id.instance_id, "meta-1");
    assert_eq!(id.cluster_or_region, "meta-c");
    assert_eq!(id.secondary_id, "meta-t");
}

#[test]
fn exhausted_chain_yields_sentinel() {
    let id = Identity::resolve(sources((None, None), (Some(""), Some("")), (None, Some(""))));
    assert_eq!(id.instance_id, "unknown");
    assert_eq!(id.cluster_or_region, "unknown");
    assert_eq!(id.secondary_id, "unknown");
}

#[test]
fn resolve_is_idempotent_for_unchanged_sources() {
    // Resolving twice in one process with the same environment gives
    // an identical identity.
    let make = || sources((Some("srv-9"), None), (None, Some("us-east-1")), (None, None));
    let a = Identity::resolve(make());
    let b = Identity::resolve(make());
    assert_eq!(a.instance_id, b.instance_id);
    assert_eq!(a.cluster_or_region, b.cluster_or_region);
    assert_eq!(a.secondary_id, b.secondary_id);
}

#[test]
fn region_drops_zone_letter() {
    assert_eq!(region_of_az("us-east-1a"), "us-east-1");
    assert_eq!(region_of_az("x"), "");
    assert_eq!(region_of_az(""), "");
}

#[test]
fn task_label_prefixes_hostname() {
    assert_eq!(task_label("host-42"), "task/host-42");
}
