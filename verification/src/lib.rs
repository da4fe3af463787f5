//! A status-line engine for desktop media players.
//!
//! The crate selects one "active" player among those currently available,
//! renders its metadata into display text, and formats a single truncated
//! status line.  All text handled here is UTF-8 encoded bytes, so that
//! truncation budgets can be stated and enforced byte-exactly.

pub mod cli;
pub mod config;
pub mod format;
pub mod meta;
pub mod player;
pub mod rating;
pub mod state;
pub mod table;
pub mod text;
