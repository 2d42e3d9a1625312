use gateway::health::{apply_probe, probe_passed, probe_targets, probe_url, ProbeOutcome};
use gateway::registry::ServiceRegistry;

#[test]
fn probe_url_appends_health_path() {
    assert_eq!(probe_url(&"http://localhost:3001".to_string()), "http://localhost:3001/health");
}

#[test]
fn only_status_200_passes() {
    assert!(probe_passed(ProbeOutcome::Status(200)));
    assert!(!probe_passed(ProbeOutcome::Status(204)));
    assert!(!probe_passed(ProbeOutcome::Status(503)));
    assert!(!probe_passed(ProbeOutcome::Failed));
}

#[test]
fn targets_cover_every_service() {
    let mut registry = ServiceRegistry::new();
    registry.register_service("a".to_string(), "http://a:1".to_string());
    registry.register_service("b".to_string(), "http://b:2".to_string());
    let mut targets: Vec<(String, String)> =
        probe_targets(&registry).into_iter().map(|t| (t.name, t.url)).collect();
    targets.sort();
    assert_eq!(
        targets,
        vec![
            ("a".to_string(), "http://a:1/health".to_string()),
            ("b".to_string(), "http://b:2/health".to_string()),
        ]
    );
    assert!(probe_targets(&ServiceRegistry::new()).is_empty());
}

#[test]
fn probe_results_move_health_both_ways() {
    let mut registry = ServiceRegistry::new();
    registry.register_service("a".to_string(), "http://a:1".to_string());
    assert!(apply_probe(&mut registry, "a", ProbeOutcome::Failed));
    assert!(!registry.get_service("a").unwrap().healthy);
    assert!(apply_probe(&mut registry, "a", ProbeOutcome::Status(200)));
    assert!(registry.get_service("a").unwrap().healthy);
    assert!(apply_probe(&mut registry, "a", ProbeOutcome::Status(500)));
    assert!(!registry.get_service("a").unwrap().healthy);
    assert_eq!(registry.get_service("a").unwrap().url, "http://a:1");
}

#[test]
fn probe_of_unknown_service_changes_nothing() {
    let mut registry = ServiceRegistry::new();
    registry.register_service("a".to_string(), "http://a:1".to_string());
    assert!(!apply_probe(&mut registry, "b", ProbeOutcome::Failed));
    assert_eq!(registry.len(), 1);
    assert!(registry.get_service("a").unwrap().healthy);
}
