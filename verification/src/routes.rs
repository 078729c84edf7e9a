//! What the request handlers decide.

pub mod admin;
pub mod login;
pub mod newsletters;
pub mod subscriptions_confirm;
