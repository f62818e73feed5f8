//! Names used by tool aliases.
use vstd::prelude::*;

verus! {

/// Subject of the tool name change. For tools in mcp servers, you would need
/// to prefix them with their server names.
#[derive(Debug, Clone, Eq, PartialEq, Hash)]
pub struct OriginalToolName(pub String);

impl OriginalToolName {
    /// The name.
    pub fn as_str(&self) -> (r: &str)
        ensures
            r@ == self.0@,
    {
        self.0.as_str()
    }
}

} // verus!
