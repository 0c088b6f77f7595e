//! Client-side normalizer for a streamed, semi-structured JSON event protocol.
//!
//! The crate has two components: a compatibility resolver that maps a search
//! mode and an optional model selector to the backend's preference token, and
//! an event normalizer that turns one raw JSON event into a uniform record,
//! whatever shape the backend chose to emit.

pub mod config;
pub mod parse;
pub mod types;
