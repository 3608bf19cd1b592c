//! Defends a chosen file-extension -> handler association on Windows.
//!
//! The library holds the verified core: the legacy per-extension integrity
//! hash, timestamp clamping and formatting, extension normalization, the
//! commit protocol for writing an association with a stable timestamp, the
//! guard state machine that watches rules and repairs drift with bounded
//! backoff, and the in-memory capture and rule stores.  Registry access,
//! process spawning and file persistence live outside the library and hand
//! it plain values.

pub mod captures;
pub mod features;
pub mod guard;
pub mod hash;
pub mod registry;
pub mod rules;
pub mod setuserfta;
pub mod sysinfo;
pub mod text;
