//! Checking a user's credentials.

pub mod password;

pub use password::{
    basic_credentials, change_password, validate_credentials, AuthCause, AuthError, Credentials,
    HashCheck, StoredCredentials,
};
