//! Core of a cross-chain bridge instruction protocol: a self-describing,
//! versioned message format that lets one chain instruct another to perform
//! an action and later receive a correlated, authenticated result.
//!
//! The crate covers the message model ([`xbi_format`]), its deterministic
//! binary codec ([`codec`]), the content-derived message identifier
//! ([`ident`]), the dispatch router over backend capabilities ([`router`]),
//! the lifecycle state machine ([`lifecycle`]) and the correlation store
//! that tracks every accepted message to a definitive outcome ([`store`]).

pub mod codec;
pub mod ident;
pub mod lifecycle;
pub mod router;
pub mod store;
pub mod xbi_format;
