//! Typed integer handles for vertices, half-edges and faces.
use vstd::prelude::*;

verus! {

/// A handle into one arena: a 32-bit slot index.
pub trait ID: Sized + Copy {
    /// The slot index this handle stands for.
    spec fn idx(&self) -> u32;

    /// The handle of slot `i`.
    fn new(i: u32) -> (r: Self)
        ensures
            r.idx() == i,
    ;

    /// The slot index of this handle.
    fn deref(&self) -> (r: u32)
        ensures
            r == self.idx(),
    ;

    /// Two handles of one kind with the same index are the same handle.
    proof fn lemma_idx_injective(a: Self, b: Self)
        requires
            a.idx() == b.idx(),
        ensures
            a == b,
    ;
}

/// Handle of a vertex.
#[derive(Clone, Copy, Debug, PartialEq, Eq, Structural, Hash, PartialOrd, Ord)]
pub struct VertexID {
    id: u32,
}

/// Handle of a half-edge.
#[derive(Clone, Copy, Debug, PartialEq, Eq, Structural, Hash, PartialOrd, Ord)]
pub struct HalfEdgeID {
    id: u32,
}

/// Handle of a face.
#[derive(Clone, Copy, Debug, PartialEq, Eq, Structural, Hash, PartialOrd, Ord)]
pub struct FaceID {
    id: u32,
}

impl ID for VertexID {
    closed spec fn idx(&self) -> u32 {
        self.id
    }

    fn new(i: u32) -> (r: Self) {
        VertexID { id: i }
    }

    fn deref(&self) -> (r: u32) {
        self.id
    }

    proof fn lemma_idx_injective(a: Self, b: Self) {
    }
}

impl ID for HalfEdgeID {
    closed spec fn idx(&self) -> u32 {
        self.id
    }

    fn new(i: u32) -> (r: Self) {
        HalfEdgeID { id: i }
    }

    fn deref(&self) -> (r: u32) {
        self.id
    }

    proof fn lemma_idx_injective(a: Self, b: Self) {
    }
}

impl ID for FaceID {
    closed spec fn idx(&self) -> u32 {
        self.id
    }

    fn new(i: u32) -> (r: Self) {
        FaceID { id: i }
    }

    fn deref(&self) -> (r: u32) {
        self.id
    }

    proof fn lemma_idx_injective(a: Self, b: Self) {
    }
}

} // verus!
