//! Page elements, named by number.
use vstd::prelude::*;

verus! {

/// An element of the page, by number.
#[derive(Debug, Clone, Copy, PartialEq, Eq, Hash, Structural)]
pub struct VexId(pub u32);

impl VexId {
    /// The element with a number.
    pub fn new(n: u32) -> (r: Self)
        ensures
            r == VexId(n),
    {
        VexId(n)
    }

    /// The number of the element.
    pub fn get(&self) -> (r: u32)
        ensures
            *self == VexId(r),
    {
        self.0
    }
}


} // verus!
