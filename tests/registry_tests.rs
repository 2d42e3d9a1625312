use gateway::registry::ServiceRegistry;

#[test]
fn lookup_after_register_returns_the_record() {
    let mut registry = ServiceRegistry::new();
    registry.register_service("user-service".to_string(), "http://localhost:3001".to_string());
    let info = registry.get_service("user-service").unwrap();
    assert_eq!(info.name, "user-service");
    assert_eq!(info.url, "http://localhost:3001");
    assert!(info.healthy);
}

#[test]
fn lookup_of_unknown_name_is_none() {
    let mut registry = ServiceRegistry::new();
    assert!(registry.get_service("user-service").is_none());
    registry.register_service("user-service".to_string(), "http://localhost:3001".to_string());
    assert!(registry.get_service("order-service").is_none());
    assert!(registry.get_service("User-Service").is_none());
}

#[test]
fn register_overwrites_by_name_and_resets_health() {
    let mut registry = ServiceRegistry::new();
    registry.register_service("a".to_string(), "http://one".to_string());
    assert!(registry.set_health("a", false));
    registry.register_service("a".to_string(), "http://two".to_string());
    assert_eq!(registry.len(), 1);
    let info = registry.get_service("a").unwrap();
    assert_eq!(info.url, "http://two");
    assert!(info.healthy);
}

#[test]
fn set_health_changes_only_the_flag() {
    let mut registry = ServiceRegistry::new();
    registry.register_service("a".to_string(), "http://one".to_string());
    registry.register_service("b".to_string(), "http://two".to_string());
    assert!(registry.set_health("a", false));
    let a = registry.get_service("a").unwrap();
    assert_eq!(a.url, "http://one");
    assert!(!a.healthy);
    assert!(registry.get_service("b").unwrap().healthy);
    assert!(registry.set_health("a", true));
    assert!(registry.get_service("a").unwrap().healthy);
}

#[test]
fn set_health_of_unknown_name_is_a_no_op() {
    let mut registry = ServiceRegistry::new();
    registry.register_service("a".to_string(), "http://one".to_string());
    assert!(!registry.set_health("zzz", false));
    assert_eq!(registry.len(), 1);
    assert!(registry.get_service("zzz").is_none());
    assert!(registry.get_service("a").unwrap().healthy);
}

#[test]
fn snapshot_is_not_affected_by_later_registration() {
    let mut registry = ServiceRegistry::new();
    registry.register_service("a".to_string(), "http://one".to_string());
    let before = registry.get_all_services();
    registry.register_service("a".to_string(), "http://two".to_string());
    registry.register_service("b".to_string(), "http://three".to_string());
    let after = registry.get_all_services();

    assert_eq!(before.len(), 1);
    assert_eq!(before[0].name, "a");
    assert_eq!(before[0].url, "http://one");
    assert_eq!(after.len(), 2);
    for info in &after {
        let whole = (info.name == "a" && info.url == "http://two")
            || (info.name == "b" && info.url == "http://three");
        assert!(whole);
        assert!(info.healthy);
    }
}

#[test]
fn listing_holds_every_record_once() {
    let mut registry = ServiceRegistry::new();
    for (name, url) in [("x", "http://x"), ("y", "http://y"), ("x", "http://x2"), ("z", "http://z")] {
        registry.register_service(name.to_string(), url.to_string());
    }
    let all = registry.get_all_services();
    assert_eq!(all.len(), 3);
    let mut names: Vec<&str> = all.iter().map(|i| i.name.as_str()).collect();
    names.sort();
    assert_eq!(names, vec!["x", "y", "z"]);
    assert_eq!(registry.get_service("x").unwrap().url, "http://x2");
}
