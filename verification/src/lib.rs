//! A liveness-probe client library.
//!
//! The probe repeatedly opens a TCP connection to a configured target,
//! sends a fixed four-byte magic marker, reads a five-byte reply, and
//! classifies that reply to decide whether the target is healthy.
//!
//! This crate holds the verified core: the wire-protocol classification
//! ([`protocol`]) and the retry state machine that drives repeated
//! attempts to a terminal exit code ([`retry`]). The sockets, the
//! console output and the process exit themselves live outside the
//! library; they feed observed events in and carry the decided
//! directives out.

pub mod protocol;
pub mod retry;
