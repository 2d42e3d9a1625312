//! Settings and request rules of the user service.
use crate::config::ConfigError;
use crate::shared::SharedError;
use vstd::prelude::*;

verus! {

/// Where the user service listens and where its database is.
#[derive(Clone, Debug)]
pub struct Config {
    pub database_url: String,
    pub host: String,
    pub port: u16,
}

/// A request to create a user.
#[derive(Clone, Debug)]
pub struct CreateUserRequest {
    pub username: String,
    pub email: String,
}

impl Config {
    /// The built-in settings: database `sqlite:user_service.db`, listening
    /// on `0.0.0.0:3001`.
    pub fn from_env() -> (r: Result<Config, ConfigError>)
        ensures
            r matches Ok(c) && c.database_url@ == "sqlite:user_service.db"@ && c.host@
                == "0.0.0.0"@ && c.port == 3001,
    {
        Ok(
            Config {
                database_url: "sqlite:user_service.db".to_owned(),
                host: "0.0.0.0".to_owned(),
                port: 3001,
            },
        )
    }
}

/// Whether the request may be acted on, and the first rule it breaks if not.
pub open spec fn create_user_check(username: Seq<char>, email: Seq<char>) -> Result<(), Seq<char>> {
    if username.len() == 0 {
        Err("Username cannot be empty"@)
    } else if email.len() == 0 {
        Err("Email cannot be empty"@)
    } else {
        Ok(())
    }
}

impl CreateUserRequest {
    /// `Ok` when both the user name and the e-mail address are non-empty;
    /// otherwise a validation error naming the first empty field.
    pub fn validate(&self) -> (r: Result<(), SharedError>)
        ensures
            match create_user_check(self.username@, self.email@) {
                Ok(_) => r is Ok,
                Err(msg) => r matches Err(SharedError::ValidationError { message }) && message@
                    == msg,
            },
    {
        if self.username.as_str().is_empty() {
            return Err(SharedError::ValidationError { message: "Username cannot be empty".to_owned() });
        }
        if self.email.as_str().is_empty() {
            return Err(SharedError::ValidationError { message: "Email cannot be empty".to_owned() });
        }
        Ok(())
    }
}

} // verus!
