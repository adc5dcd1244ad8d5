//! Verified core of a small self-hosted blog server: the HTTP Basic
//! authentication layer that protects the administrative endpoint, together
//! with the per-client abuse tracker that locks out brute-force guessing,
//! and the plain data types the rest of the server shares with it.
//!
//! The tracker is a state machine per client: absent, `Attempting(n)` after
//! `n` consecutive failures, or `Locked(t)` once too many failures arrived.
//! Every operation is specified against a mathematical map from client
//! identity to lockout status, and the auth layer's whole per-request
//! decision is specified as a function of that map, the canonical
//! credential token, the presented header and the current time.

pub mod client;
pub mod config;
pub mod content;
pub mod credential;
pub mod gate;
pub mod laws;
pub mod locking;
pub mod tracker;
