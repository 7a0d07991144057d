//! Breadth-first search of a directory tree for entries whose base name matches a
//! pattern.
//!
//! The crate holds the decisions of such a search: which objects are passed over,
//! which names match, in which order directories are expanded, what is counted and
//! how a hit is shown. Reading the file system and printing are left to the caller,
//! who takes directories from the walk's queue and hands it what it found on disk.
//!
//! - `entry`: what the walk knows of an object: path, base name, kind.
//! - `pattern`: exact and regular expression matching of base names.
//! - `request`: the configuration of one search.
//! - `classifier`: the rule for passing over an object.
//! - `results`: the counters and their sums.
//! - `presenter`: the text that is printed.
//! - `walk`: the queue, the counters and the steps of a walk.
//! - `snapshot`: a whole walk over a tree held in memory.
//! - `clock`: the time a search took.
//! - `laws`, `model`: what holds of every step and of every whole walk.

pub mod classifier;
pub mod clock;
pub mod entry;
pub mod laws;
pub mod model;
pub mod pattern;
pub mod presenter;
pub mod request;
pub mod results;
pub mod snapshot;
pub mod text;
pub mod walk;
