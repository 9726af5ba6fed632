//! Library for orchestrating matches between two external chess engines that
//! speak a line-based text protocol over standard input/output.
//!
//! The library holds the verified core: building protocol commands, scanning
//! engine output lines, driving one game to a terminal result against the
//! rules collaborator, distributing work slots, and aggregating statistics.
//! Process spawning and the async I/O loops live outside the library and feed
//! plain values (lines, move tokens) into the functions here.

pub mod engine;
pub mod errors;
pub mod game;
pub mod stats;
pub mod worker;
