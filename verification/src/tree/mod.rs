//! Views of the discovered agents: summaries, dependents, details and search.
pub mod summary;
pub mod dependents;
pub mod details;
pub mod search;
