//! Service registry and request dispatch for an API gateway, with the
//! settings and access rules of the services behind it.
//!
//! - [`registry`]: the directory of backend services and its laws.
//! - [`dispatch`]: route parsing and the decision to forward a request.
//! - [`health`]: liveness probing of registered services.
//! - [`config`]: the gateway's static list of services.
//! - [`rbac`], [`monolith`], [`user_service`], [`security`], [`shared`]: settings, access
//!   rules and types of the services behind the gateway.

pub mod config;
pub mod dispatch;
pub mod health;
pub mod monolith;
pub mod rbac;
pub mod registry;
pub mod security;
pub mod shared;
pub mod user_service;
