//! Types shared by the services behind the gateway.
use vstd::prelude::*;

verus! {

/// Errors that any service may report to a client.
#[derive(Clone, Debug)]
pub enum SharedError {
    ValidationError { message: String },
    ServiceUnavailable { service: String },
    InvalidRequest { message: String },
}

/// A service's self-description.
#[derive(Clone, Debug)]
pub struct ServiceInfo {
    pub name: String,
    pub version: String,
    pub status: String,
}

/// The text shown for an error: a fixed lead-in, then the detail.
pub open spec fn error_text(e: SharedError) -> Seq<char> {
    match e {
        SharedError::ValidationError { message } => "Validation error: "@ + message@,
        SharedError::ServiceUnavailable { service } => "Service unavailable: "@ + service@,
        SharedError::InvalidRequest { message } => "Invalid request: "@ + message@,
    }
}

impl SharedError {
    /// The human-readable text of the error.
    pub fn message(&self) -> (r: String)
        ensures
            r@ == error_text(*self),
    {
        match self {
            SharedError::ValidationError { message } => {
                let mut s = "Validation error: ".to_owned();
                s.append(message.as_str());
                s
            },
            SharedError::ServiceUnavailable { service } => {
                let mut s = "Service unavailable: ".to_owned();
                s.append(service.as_str());
                s
            },
            SharedError::InvalidRequest { message } => {
                let mut s = "Invalid request: ".to_owned();
                s.append(message.as_str());
                s
            },
        }
    }
}

} // verus!
