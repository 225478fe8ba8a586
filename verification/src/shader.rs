use vstd::prelude::*;

verus! {

/// Which programmable pipeline stage a shader belongs to.
#[derive(Clone, Copy, PartialEq, Eq, Structural, Debug)]
pub enum ShaderType {
    Vertex,
    Fragment,
    Geometry,
}

/// A handle to one compiled shader. Compilation itself is a graphics-API
/// call made by the embedding shell, which wraps the handle it was given.
pub struct Shader {
    id: u32,
}

impl Shader {
    /// The raw handle the graphics API assigned.
    pub closed spec fn spec_id(self) -> u32 {
        self.id
    }

    /// Wraps the raw handle of a compiled shader.
    pub fn from_id(id: u32) -> (s: Shader)
        ensures
            s.spec_id() == id,
    {
        Shader { id }
    }

    /// The raw handle the graphics API assigned.
    pub fn id(&self) -> (r: u32)
        ensures
            r == self.spec_id(),
    {
        self.id
    }
}

} // verus!
