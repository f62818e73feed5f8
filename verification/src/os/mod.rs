//! Names the operating system's services see.
pub mod systemd;
