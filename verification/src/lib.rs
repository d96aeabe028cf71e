//! Facts about a filesystem path: what it resolves to, or the first obstacle
//! met while resolving it.
//!
//! The library never touches the filesystem. It decides which observation is
//! needed next, takes the answer as a plain value, and classifies the outcome.
pub mod abs_path;
pub mod canonical_path;
pub mod happy_path;
pub mod path_facts;
pub mod probe;
pub mod resolution;
pub mod resolved_metadata;
pub mod style;
pub mod text;

pub use path_facts::PathFacts;
