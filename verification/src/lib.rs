//! Line-oriented cleaning of SQL dump text.
//!
//! A dump is cleaned by dropping lines at fixed positions, lines that contain
//! a pattern (ignoring ASCII case), and the last few lines that survive both
//! rules. The crate holds the rules and their proofs; reading and writing the
//! files is left to the caller.

pub mod config;
pub mod filter;
pub mod matcher;
pub mod model;
pub mod pipeline;
