use gateway::monolith::{
    self, default_database_url, default_host, default_port, parse_port, JobScheduler, UserPreferences,
};
use gateway::rbac::{RbacService, Role, UserRoles};
use gateway::shared::SharedError;
use gateway::user_service::{self, CreateUserRequest};

#[test]
fn test_create_user_request_validation() {
    let valid_request = CreateUserRequest {
        username: "testuser".to_string(),
        email: "test@example.com".to_string(),
    };

    assert_eq!(valid_request.username, "testuser");
    assert_eq!(valid_request.email, "test@example.com");
    assert!(valid_request.validate().is_ok());
}

#[test]
fn empty_fields_are_rejected_in_order() {
    let r = CreateUserRequest { username: String::new(), email: String::new() };
    match r.validate() {
        Err(SharedError::ValidationError { message }) => {
            assert_eq!(message, "Username cannot be empty")
        }
        other => panic!("unexpected {:?}", other),
    }
    let r = CreateUserRequest { username: "u".to_string(), email: String::new() };
    match r.validate() {
        Err(SharedError::ValidationError { message }) => assert_eq!(message, "Email cannot be empty"),
        other => panic!("unexpected {:?}", other),
    }
}

#[test]
fn shared_error_messages() {
    let e = SharedError::ValidationError { message: "bad".to_string() };
    assert_eq!(e.message(), "Validation error: bad");
    let e = SharedError::ServiceUnavailable { service: "user-service".to_string() };
    assert_eq!(e.message(), "Service unavailable: user-service");
    let e = SharedError::InvalidRequest { message: "x".to_string() };
    assert_eq!(e.message(), "Invalid request: x");
}

#[test]
fn user_service_settings() {
    let c = user_service::Config::from_env().ok().unwrap();
    assert_eq!(c.database_url, "sqlite:user_service.db");
    assert_eq!(c.host, "0.0.0.0");
    assert_eq!(c.port, 3001);
}

#[test]
fn role_table_and_permissions() {
    let roles = UserRoles::new();
    assert_eq!(roles.get_role("1"), Some(&Role::Admin));
    assert_eq!(roles.get_role("2"), Some(&Role::User));
    assert_eq!(roles.get_role("3"), Some(&Role::User));
    assert_eq!(roles.get_role("4"), None);

    assert!(roles.has_permission("1", &Role::Admin));
    assert!(roles.has_permission("1", &Role::User));
    assert!(!roles.has_permission("1", &Role::SuperAdmin));
    assert!(roles.has_permission("2", &Role::User));
    assert!(!roles.has_permission("2", &Role::Admin));
    assert!(!roles.has_permission("4", &Role::User));
}

#[test]
fn require_role_answers_forbidden() {
    let rbac = RbacService::new();
    assert_eq!(rbac.require_role("1", &Role::Admin), Ok(()));
    assert_eq!(rbac.require_role("3", &Role::Admin), Err(403));
    assert_eq!(rbac.require_role("nobody", &Role::User), Err(403));
}

#[test]
fn ports_parse_in_range_only() {
    assert_eq!(parse_port("3000"), Some(3000));
    assert_eq!(parse_port("0"), Some(0));
    assert_eq!(parse_port("0080"), Some(80));
    assert_eq!(parse_port("65535"), Some(65535));
    assert_eq!(parse_port("65536"), None);
    assert_eq!(parse_port("999999999999"), None);
    assert_eq!(parse_port(""), None);
    assert_eq!(parse_port("12a"), None);
    assert_eq!(parse_port("+1"), Some(1));
    assert_eq!(parse_port("+65535"), Some(65535));
    assert_eq!(parse_port("+"), None);
    assert_eq!(parse_port("++1"), None);
    assert_eq!(parse_port("-1"), None);
    assert_eq!(parse_port("1+"), None);
    assert_eq!(parse_port(" 1"), None);
}

#[test]
fn monolith_settings_take_defaults() {
    assert_eq!(default_database_url(), "sqlite://db.sqlite3");
    assert_eq!(default_host(), "127.0.0.1");
    assert_eq!(default_port(), 3000);
    let c = monolith::Config::from_env(None, None, None).ok().unwrap();
    assert_eq!(c.database_url, "sqlite://db.sqlite3");
    assert_eq!(c.host, "127.0.0.1");
    assert_eq!(c.port, 3000);
}

#[test]
fn monolith_settings_take_given_values() {
    let c = monolith::Config::from_env(
        Some("sqlite://other.db".to_string()),
        Some("0.0.0.0".to_string()),
        Some("8080".to_string()),
    )
    .ok()
    .unwrap();
    assert_eq!(c.database_url, "sqlite://other.db");
    assert_eq!(c.host, "0.0.0.0");
    assert_eq!(c.port, 8080);
    assert!(monolith::Config::from_env(None, None, Some("eighty".to_string())).is_err());
    assert!(monolith::Config::from_env(None, None, Some("70000".to_string())).is_err());
    let c = monolith::Config::from_env(None, None, Some("+80".to_string())).ok().unwrap();
    assert_eq!(c.port, 80);
}

#[test]
fn plain_settings_types() {
    let _scheduler = JobScheduler::new();
    let prefs = UserPreferences::default();
    assert!(!prefs.newsletter);
    assert!(!prefs.notifications);
}
