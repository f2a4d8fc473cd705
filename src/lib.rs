//! Command execution and schedule construction: the verified core of a tool
//! that runs a shell command or a coding-agent invocation now or at a later
//! date and time.

pub mod text;
pub mod calendar;
pub mod error;
pub mod validate;
pub mod location;
pub mod executor;
pub mod schedule;
