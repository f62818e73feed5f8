//! Configuration pieces of the legacy manifest format: hooks by trigger and
//! built-in tool settings with overrides.
pub mod hook;
pub mod native;
pub mod generic;
