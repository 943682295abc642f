//! Hardware-signing-device discovery and session management for a desktop
//! wallet: device classification, a session registry with poll-cycle
//! reconciliation, version/feature compatibility gating, and the small
//! application models around them.

pub mod aliases;
pub mod app;
pub mod chain;
pub mod classify;
pub mod compat;
pub mod config;
pub mod hw;
pub mod message;
pub mod registry;
pub mod scan;
pub mod version;
pub mod wallet;
