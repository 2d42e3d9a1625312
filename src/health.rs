//! Liveness probing of registered services.
//!
//! A probe round asks every registered service for `GET <base>/health`. The
//! round's targets come from [`probe_targets`]; the caller performs the
//! requests without holding the registry, then records each answer with
//! [`apply_probe`]. A service that answers 200 is healthy; any other status,
//! a timeout or a transport failure marks it unhealthy.
use crate::registry::{health_set, names_unique, Record, ServiceInfo, ServiceRegistry};
use vstd::prelude::*;

verus! {

/// Status that a healthy service answers on its liveness endpoint.
pub const STATUS_OK: u16 = 200;

/// Interval between two probe rounds.
pub const PROBE_INTERVAL_MS: u64 = 10000;

/// What one liveness request gave.
#[derive(Clone, Copy, Debug, PartialEq, Eq, Structural)]
pub enum ProbeOutcome {
    /// The service answered with this status.
    Status(u16),
    /// No answer: timeout, refused connection or malformed response.
    Failed,
}

/// One liveness request to make: the service's name and the URL to ask.
#[derive(Clone, Debug)]
pub struct ProbeTarget {
    pub name: String,
    pub url: String,
}

/// Whether an outcome counts as alive.
pub open spec fn passed(outcome: ProbeOutcome) -> bool {
    outcome == ProbeOutcome::Status(STATUS_OK)
}

/// The liveness endpoint below a base URL.
pub open spec fn health_url(base: Seq<char>) -> Seq<char> {
    base + "/health"@
}

/// Whether an outcome counts as alive: only a 200 answer does.
pub fn probe_passed(outcome: ProbeOutcome) -> (r: bool)
    ensures
        r == passed(outcome),
{
    match outcome {
        ProbeOutcome::Status(code) => code == STATUS_OK,
        ProbeOutcome::Failed => false,
    }
}

/// The liveness endpoint of a service whose base URL is `base`.
pub fn probe_url(base: &String) -> (r: String)
    ensures
        r@ == health_url(base@),
{
    let mut url = base.clone();
    url.append("/health");
    url
}

/// One target per registered service, each with the liveness URL of that
/// service's current base URL.
pub fn probe_targets(registry: &ServiceRegistry) -> (r: Vec<ProbeTarget>)
    ensures
        r@.len() == registry@.len(),
        forall|i: int|
            0 <= i < r@.len() ==> {
                &&& registry@.contains_key(#[trigger] r@[i].name@)
                &&& r@[i].url@ == health_url(registry@[r@[i].name@].url)
            },
        forall|k: Seq<char>|
            #[trigger] registry@.contains_key(k) ==> exists|i: int|
                0 <= i < r@.len() && r@[i].name@ == k,
{
    let all = registry.get_all_services();
    let ghost recs = all@.map_values(|info: ServiceInfo| info@);
    proof {
        use_type_invariant(registry);
        registry.lemma_len();
    }
    let mut out: Vec<ProbeTarget> = Vec::new();
    let mut i: usize = 0;
    while i < all.len()
        invariant
            i <= all.len(),
            recs == all@.map_values(|info: ServiceInfo| info@),
            out@.len() == i,
            forall|j: int|
                0 <= j < i ==> (#[trigger] out@[j]).name@ == recs[j].name && out@[j].url@
                    == health_url(recs[j].url),
        decreases all.len() - i,
    {
        let t = ProbeTarget { name: all[i].name.clone(), url: probe_url(&all[i].url) };
        out.push(t);
        i = i + 1;
    }
    proof {
        assert forall|j: int| 0 <= j < out@.len() implies {
            &&& registry@.contains_key(#[trigger] out@[j].name@)
            &&& out@[j].url@ == health_url(registry@[out@[j].name@].url)
        } by {
            crate::registry::lemma_directory_at(recs, j);
        }
        assert forall|k: Seq<char>| #[trigger] registry@.contains_key(k) implies exists|j: int|
            0 <= j < out@.len() && out@[j].name@ == k by {
            let j = choose|j: int| 0 <= j < recs.len() && recs[j].name == k;
            assert(out@[j].name@ == k);
        }
    }
    out
}

/// Records the outcome of probing `name`: healthy exactly when the service
/// answered 200. Returns whether `name` is registered; when it is not, the
/// registry is left unchanged.
pub fn apply_probe(registry: &mut ServiceRegistry, name: &str, outcome: ProbeOutcome) -> (found:
    bool)
    ensures
        found == old(registry)@.contains_key(name@),
        final(registry)@ == health_set(old(registry)@, name@, passed(outcome)),
{
    let alive = probe_passed(outcome);
    registry.set_health(name, alive)
}

} // verus!
