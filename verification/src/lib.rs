//! Verified core of a command-line Stack Exchange search tool.
//!
//! The crate covers the three parts of the tool that carry real invariants:
//! configuration precedence resolution, the cache-aside site registry with
//! its on-disk codec, and the query client's answer ranking.  All I/O is
//! left to the (unverified) binary around this library: the library takes
//! the outcomes of reads and fetches as plain values and states exactly
//! what it decides for each of them.

pub mod cli;
pub mod codec;
pub mod config;
pub mod error;
pub mod search;
pub mod sites;
