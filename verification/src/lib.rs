//! A registry of named workers inside a trust boundary, and the dispatcher
//! that routes invocation requests to them.
//!
//! Workers are a closed set known at build time. Each is registered once
//! during bootstrap; afterwards the registry is only read, and every
//! invocation request is resolved against it by identifier.

pub mod bootstrap;
pub mod dispatch;
pub mod laws;
pub mod registry;
pub mod worker;
