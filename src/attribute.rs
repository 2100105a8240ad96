use vstd::prelude::*;

verus! {

/// How an attribute's values are distributed over a mesh.
#[derive(Clone, Copy, Debug, PartialEq, Eq, Structural)]
pub enum Interpolation {
    Constant,
    Uniform,
    Varying,
    Vertex,
    FaceVarying,
    Instance,
}

/// A unique, hierarchical identifier of one entity of the scene; two paths are
/// the same entity exactly when their text is equal.
#[derive(Debug)]
pub struct SdfPath(pub String);

impl View for SdfPath {
    type V = Seq<char>;

    open spec fn view(&self) -> Seq<char> {
        self.0@
    }
}

impl SdfPath {
    pub fn new(path: String) -> (r: SdfPath)
        ensures
            r@ == path@,
    {
        SdfPath(path)
    }

    /// Whether both paths name the same entity.
    pub fn same(&self, other: &SdfPath) -> (r: bool)
        ensures
            r == (self@ == other@),
    {
        self.0 == other.0
    }

    pub fn duplicate(&self) -> (r: SdfPath)
        ensures
            r@ == self@,
    {
        SdfPath(self.0.clone())
    }

    pub fn into_string(self) -> (r: String)
        ensures
            r@ == self@,
    {
        self.0
    }
}

} // verus!
