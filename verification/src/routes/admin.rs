//! The handlers behind the administrator's login.

pub mod dashboard;
pub mod newsletters;
