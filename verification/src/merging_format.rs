//! Sets read from lists or from the keys of maps.
use vstd::prelude::*;
use crate::set::StringSet;

verus! {

/// A set of strings that a configuration may give as a list or as the keys
/// of a map.
#[derive(Debug, Default, Clone, PartialEq, Eq)]
pub struct MergedSet(pub StringSet);

impl MergedSet {
    /// Whether the set has no element.
    pub fn is_empty(&self) -> (b: bool)
        ensures
            b == (self.0@ == Set::<Seq<char>>::empty()),
    {
        self.0.is_empty()
    }
}

} // verus!
