use vstd::prelude::*;

verus! {

/// A handle to one linked shader program. Linking itself is a graphics-API
/// call made by the embedding shell, which wraps the handle it was given.
pub struct Program {
    id: u32,
}

impl Program {
    /// The raw handle the graphics API assigned.
    pub closed spec fn spec_id(self) -> u32 {
        self.id
    }

    /// Wraps the raw handle of a linked program.
    pub fn from_id(id: u32) -> (p: Program)
        ensures
            p.spec_id() == id,
    {
        Program { id }
    }

    /// The raw handle the graphics API assigned.
    pub fn id(&self) -> (r: u32)
        ensures
            r == self.spec_id(),
    {
        self.id
    }
}

} // verus!
