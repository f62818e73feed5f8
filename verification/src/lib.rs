//! Agent-configuration generator: merges layered agent manifests with
//! inheritance and turns them into agent definitions.
pub mod text;
pub mod set;
pub mod map;
pub mod merge;
pub mod kiro;
pub mod kg_config;
pub mod source;
pub mod generator;
pub mod os;
pub mod tree;
pub mod agent;
pub mod config;
pub mod output;
pub mod commands;
pub mod merging_format;

use vstd::prelude::*;

verus! {

} // verus!
