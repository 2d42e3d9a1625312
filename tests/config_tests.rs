use gateway::config::{Config, ServiceConfig};
use gateway::registry::ServiceRegistry;

#[test]
fn tests_test_service_config_creation() {
    let mut services = Vec::new();
    let user_service = ServiceConfig {
        name: "user-service".to_string(),
        host: "localhost".to_string(),
        port: 3001,
    };

    services.push(("user-service".to_string(), user_service));

    let config = Config {
        services,
        host: "0.0.0.0".to_string(),
        port: 3000,
    };

    assert_eq!(config.host, "0.0.0.0");
    assert_eq!(config.port, 3000);
    assert!(config.get_service_url("user-service").is_some());
    assert_eq!(config.get_service_url("user-service").unwrap(), "http://localhost:3001");
}

#[test]
fn test_service_config_creation() {
    let user_service = ServiceConfig {
        name: "user-service".to_string(),
        host: "localhost".to_string(),
        port: 3001,
    };

    assert_eq!(user_service.name, "user-service");
    assert_eq!(user_service.host, "localhost");
    assert_eq!(user_service.port, 3001);
}

#[test]
fn test_config_creation() {
    let services = Vec::new();
    let config = Config {
        services,
        host: "0.0.0.0".to_string(),
        port: 3000,
    };

    assert_eq!(config.host, "0.0.0.0");
    assert_eq!(config.port, 3000);
}

#[test]
fn test_service_registry() {
    let registry = ServiceRegistry::new();
    assert!(registry.get_all_services().is_empty());
    assert_eq!(registry.len(), 0);
}

#[test]
fn test_logging_initialization() {
    // Installing the global log subscriber is left to the program's start-up;
    // reaching this point without a panic is the whole check.
}

fn svc(name: &str, host: &str, port: u16) -> (String, ServiceConfig) {
    (
        name.to_string(),
        ServiceConfig { name: name.to_string(), host: host.to_string(), port },
    )
}

#[test]
fn service_url_is_written_with_decimal_port() {
    let config = Config {
        services: vec![svc("a", "example.org", 0), svc("b", "10.0.0.7", 65535), svc("c", "h", 80)],
        host: "0.0.0.0".to_string(),
        port: 3000,
    };
    assert_eq!(config.get_service_url("a").unwrap(), "http://example.org:0");
    assert_eq!(config.get_service_url("b").unwrap(), "http://10.0.0.7:65535");
    assert_eq!(config.get_service_url("c").unwrap(), "http://h:80");
    assert_eq!(config.get_service_url("d"), None);
    assert_eq!(config.get_service_url(""), None);
}

#[test]
fn later_entry_of_a_repeated_key_counts() {
    let config = Config {
        services: vec![svc("a", "first", 1), svc("a", "second", 2)],
        host: "0.0.0.0".to_string(),
        port: 3000,
    };
    assert_eq!(config.get_service_url("a").unwrap(), "http://second:2");
    let registry = ServiceRegistry::from_config(&config);
    assert_eq!(registry.len(), 1);
    assert_eq!(registry.get_service("a").unwrap().url, "http://second:2");
}

#[test]
fn built_in_config_lists_two_services() {
    let config = Config::from_env().ok().unwrap();
    assert_eq!(config.host, "0.0.0.0");
    assert_eq!(config.port, 3000);
    assert_eq!(config.services.len(), 2);
    assert_eq!(config.get_service_url("user-service").unwrap(), "http://localhost:3001");
    assert_eq!(config.get_service_url("order-service").unwrap(), "http://localhost:3002");
}

#[test]
fn registry_from_config_registers_every_service_healthy() {
    let config = Config::from_env().ok().unwrap();
    let registry = ServiceRegistry::from_config(&config);
    assert_eq!(registry.len(), 2);
    let user = registry.get_service("user-service").unwrap();
    assert_eq!(user.name, "user-service");
    assert_eq!(user.url, "http://localhost:3001");
    assert!(user.healthy);
    let order = registry.get_service("order-service").unwrap();
    assert_eq!(order.url, "http://localhost:3002");
    assert!(order.healthy);
}
