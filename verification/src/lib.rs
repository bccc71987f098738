//! Keeps a directory of source files and an in-memory instance tree
//! consistent in both directions: rule-driven mapping from file names to
//! instance shapes, snapshots of subtrees, a tree that records per node
//! which on-disk entries are its source, and a processor that applies
//! remote additions, updates and removals to both sides.

pub mod dict;
pub mod dir;
pub mod glob;
pub mod laws;
pub mod meta;
pub mod middleware;
pub mod processor;
pub mod project;
pub mod snapshot;
pub mod source;
pub mod text;
pub mod tree;
pub mod value;
pub mod vfs;
pub mod workspace;
