//! A local web UI core: a bounded-history broadcast bus with per-connection
//! sessions, request routing, and an immutable embedded asset store.

pub mod assets;
pub mod bus;
pub mod routing;
pub mod session;
