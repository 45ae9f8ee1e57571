//! Core of a teleprompter control system: a single producer edits a
//! presentation configuration and broadcasts it to any number of passive
//! remote viewers.
//!
//! The crate holds the verified logic only: the shared data model
//! ([`state`]), the change-detection and throttle policy ([`gate`]), the
//! pub/sub fan-out hub ([`hub`]), the per-connection session state machine
//! ([`session`]), the wire encoding ([`wire`]) and the served page
//! substitution ([`web`]). Network transport and the editor surface live
//! outside the crate and drive these functions with plain values.

pub mod gate;
pub mod hub;
pub mod session;
pub mod state;
pub mod web;
pub mod wire;
