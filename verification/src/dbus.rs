//! The session-bus engine: the wire value model and the incoming-message
//! parsing.

pub mod incoming;
pub mod types;
