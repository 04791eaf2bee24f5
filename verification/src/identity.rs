//! Identity resolution: a stable instance identifier, a cluster/region
//! label and a secondary (task/container) identifier, each found
//! through a fallback chain of sources.
//!
//! For every field the chain is: an explicit configuration override, a
//! value fetched from a local metadata source, and finally the sentinel
//! `"unknown"`. A source counts only when it is present and non-empty;
//! exhaustion of the chain is not an error. The caller gathers the raw
//! source values (environment reads, metadata queries) and hands them
//! in as plain optional strings.

use vstd::prelude::*;

verus! {

/// The resolved identity of the monitored instance. Resolved once per
/// process lifetime and read-only thereafter.
pub struct Identity {
    pub instance_id: String,
    pub cluster_or_region: String,
    pub secondary_id: String,
}

/// The raw candidates for one identity field, in falling precedence.
pub struct FieldSources {
    /// An explicit override from configuration.
    pub override_value: Option<String>,
    /// A value fetched from a metadata source.
    pub fetched_value: Option<String>,
}

/// The raw candidates for every field of the identity.
pub struct IdentitySources {
    pub instance: FieldSources,
    pub cluster: FieldSources,
    pub secondary: FieldSources,
}

/// The view of an optional string as an optional character sequence.
pub open spec fn opt_view(o: Option<String>) -> Option<Seq<char>> {
    match o {
        Some(s) => Some(s@),
        None => None,
    }
}

/// What one field of the identity resolves to: the override when
/// present and non-empty, else the fetched value when present and
/// non-empty, else the sentinel.
pub open spec fn spec_resolve_field(
    override_value: Option<Seq<char>>,
    fetched_value: Option<Seq<char>>,
) -> Seq<char> {
    if override_value is Some && override_value->0.len() > 0 {
        override_value->0
    } else if fetched_value is Some && fetched_value->0.len() > 0 {
        fetched_value->0
    } else {
        "unknown"@
    }
}

/// Resolves one field through its fallback chain.
pub fn resolve_field(sources: FieldSources) -> (r: String)
    ensures
        r@ == spec_resolve_field(opt_view(sources.override_value), opt_view(sources.fetched_value)),
{
    match sources.override_value {
        Some(s) => {
            if s.as_str().unicode_len() > 0 {
                return s;
            }
            match sources.fetched_value {
                Some(t) => {
                    if t.as_str().unicode_len() > 0 {
                        t
                    } else {
                        String::from_str("unknown")
                    }
                },
                None => String::from_str("unknown"),
            }
        },
        None => {
            match sources.fetched_value {
                Some(t) => {
                    if t.as_str().unicode_len() > 0 {
                        t
                    } else {
                        String::from_str("unknown")
                    }
                },
                None => String::from_str("unknown"),
            }
        },
    }
}

impl Identity {
    /// Whether this identity is what the given sources resolve to.
    pub open spec fn resolved_from(&self, s: &IdentitySources) -> bool {
        &&& self.instance_id@ == spec_resolve_field(
            opt_view(s.instance.override_value),
            opt_view(s.instance.fetched_value),
        )
        &&& self.cluster_or_region@ == spec_resolve_field(
            opt_view(s.cluster.override_value),
            opt_view(s.cluster.fetched_value),
        )
        &&& self.secondary_id@ == spec_resolve_field(
            opt_view(s.secondary.override_value),
            opt_view(s.secondary.fetched_value),
        )
    }

    /// Resolves the whole identity from its sources. Every chain ends
    /// in the sentinel, so resolution never fails.
    pub fn resolve(sources: IdentitySources) -> (r: Identity)
        ensures
            r.resolved_from(&sources),
    {
        let IdentitySources { instance, cluster, secondary } = sources;
        Identity {
            instance_id: resolve_field(instance),
            cluster_or_region: resolve_field(cluster),
            secondary_id: resolve_field(secondary),
        }
    }
}

/// Resolution is a function of the sources alone: two resolutions over
/// sources with the same contents yield identities whose fields agree.
/// In particular, resolving twice in one process with an unchanged
/// environment gives the same identity.
pub proof fn lemma_resolve_deterministic(a: &IdentitySources, b: &IdentitySources, x: &Identity, y: &Identity)
    requires
        opt_view(a.instance.override_value) == opt_view(b.instance.override_value),
        opt_view(a.instance.fetched_value) == opt_view(b.instance.fetched_value),
        opt_view(a.cluster.override_value) == opt_view(b.cluster.override_value),
        opt_view(a.cluster.fetched_value) == opt_view(b.cluster.fetched_value),
        opt_view(a.secondary.override_value) == opt_view(b.secondary.override_value),
        opt_view(a.secondary.fetched_value) == opt_view(b.secondary.fetched_value),
        x.resolved_from(a),
        y.resolved_from(b),
    ensures
        x.instance_id@ == y.instance_id@,
        x.cluster_or_region@ == y.cluster_or_region@,
        x.secondary_id@ == y.secondary_id@,
{
}

/// The region label of an availability-zone name: the zone with its
/// final character (the zone letter) dropped. An empty input stays
/// empty rather than failing.
pub fn region_of_az(az: &str) -> (r: String)
    ensures
        az@.len() > 0 ==> r@ == az@.subrange(0, az@.len() - 1),
        az@.len() == 0 ==> r@ == Seq::<char>::empty(),
{
    let n = az.unicode_len();
    if n == 0 {
        String::new()
    } else {
        String::from_str(az.substring_char(0, n - 1))
    }
}

/// The secondary-identifier label derived from a host name when no
/// task identifier was fetched: `task/` followed by the host name.
pub fn task_label(hostname: &str) -> (r: String)
    ensures
        r@ == "task/"@ + hostname@,
{
    let mut s = String::from_str("task/");
    s.append(hostname);
    s
}

} // verus!
