//! The connectivity store: three arenas of vertices, half-edges and faces,
//! with the operations that build and tear down triangular faces.
//!
//! Two invariants are tracked, together called `valid_topology`: every live
//! face is a closed triangle of live half-edges (`faces_closed`), and twin
//! links between live half-edges are symmetric (`twins_symmetric`). A new
//! store has both. Which call keeps which one is stated in its `ensures`:
//! - both, always: `new_vertex`, `new_halfedge`, `create_face`,
//!   `remove_vertex`, `remove_face`, `set_vertex_halfedge`,
//!   `set_halfedge_vertex`, `set_position`;
//! - both, when the reused half-edge belongs to no live face:
//!   `create_face_with_existing_halfedge`;
//! - twins always, faces when the half-edge belongs to no live face:
//!   `remove_halfedge` (which clears the twin's link itself),
//!   `set_halfedge_next`;
//! - faces always, twins when both half-edges are live, distinct and had no
//!   twin: `set_halfedge_twin`;
//! - twins only: `set_halfedge_face`, `set_face_halfedge`.
//!
//! Everything else that editing needs (clearing dangling seeds, relinking
//! `next` around a removed face) is the caller's to do.
use crate::mesh::id_map::{
    ArenaModel, IDMap, lemma_insert_then_set, lemma_ops_preserve_wf,
    lemma_room_after_insert, lemma_set_commutes_insert,
};
use crate::mesh::ids::{FaceID, HalfEdgeID, ID, VertexID};
use vstd::prelude::*;

verus! {

/// A vertex: a seed half-edge for traversal and a position of the caller's
/// vector type.
#[derive(Clone, Copy, Debug)]
pub struct Vertex<P> {
    pub halfedge: Option<HalfEdgeID>,
    pub position: P,
}

/// A half-edge: its destination vertex, the oppositely directed half-edge of
/// the same edge, the following half-edge around its face, and that face.
#[derive(Clone, Copy, Debug, PartialEq, Eq, Structural, Hash, PartialOrd, Ord)]
pub struct HalfEdge {
    pub vertex: Option<VertexID>,
    pub twin: Option<HalfEdgeID>,
    pub next: Option<HalfEdgeID>,
    pub face: Option<FaceID>,
}

/// A face: one of its bounding half-edges as a seed, and a caller-chosen tag.
#[derive(Clone, Copy, Debug, PartialEq, Eq, Hash, PartialOrd, Ord)]
pub struct Face<T> {
    pub halfedge: Option<HalfEdgeID>,
    /// Custom data to store in the face
    pub tag: T,
}

/// The mathematical state of the store: one arena model per record kind.
pub struct MeshModel<T, P> {
    pub vertices: ArenaModel<Vertex<P>>,
    pub halfedges: ArenaModel<HalfEdge>,
    pub faces: ArenaModel<Face<T>>,
}

impl<T, P> MeshModel<T, P> {
    /// The record in the slot of `v`.
    pub open spec fn vertex(self, v: VertexID) -> Vertex<P> {
        self.vertices.slots[v.idx() as int]
    }

    /// The record in the slot of `h`.
    pub open spec fn he(self, h: HalfEdgeID) -> HalfEdge {
        self.halfedges.slots[h.idx() as int]
    }

    /// The record in the slot of `f`.
    pub open spec fn face(self, f: FaceID) -> Face<T> {
        self.faces.slots[f.idx() as int]
    }

    /// `v` indexes an allocated vertex slot.
    pub open spec fn has_vertex_slot(self, v: VertexID) -> bool {
        v.idx() < self.vertices.slots.len()
    }

    /// `h` indexes an allocated half-edge slot.
    pub open spec fn has_halfedge_slot(self, h: HalfEdgeID) -> bool {
        h.idx() < self.halfedges.slots.len()
    }

    /// `f` indexes an allocated face slot.
    pub open spec fn has_face_slot(self, f: FaceID) -> bool {
        f.idx() < self.faces.slots.len()
    }

    /// `h` names a live half-edge.
    pub open spec fn halfedge_live(self, h: HalfEdgeID) -> bool {
        self.halfedges.is_live(h.idx() as int)
    }

    /// `f` names a live face.
    pub open spec fn face_live(self, f: FaceID) -> bool {
        self.faces.is_live(f.idx() as int)
    }

    /// The half-edge `next` of `h` leads to: a live half-edge whose face is `f`.
    pub open spec fn step_in_face(self, h: HalfEdgeID, f: FaceID) -> bool {
        &&& self.he(h).next is Some
        &&& self.halfedge_live(self.he(h).next.unwrap())
        &&& self.he(self.he(h).next.unwrap()).face == Some(f)
    }

    /// Face `f` is a triangle: from its seed, three steps of `next` return to
    /// the seed, through live half-edges that all report `f` as their face.
    pub open spec fn triangle_closed(self, f: FaceID) -> bool {
        match self.face(f).halfedge {
            Some(h1) => {
                let h2 = self.he(h1).next.unwrap();
                let h3 = self.he(h2).next.unwrap();
                &&& self.halfedge_live(h1)
                &&& self.he(h1).face == Some(f)
                &&& self.step_in_face(h1, f)
                &&& self.step_in_face(h2, f)
                &&& self.step_in_face(h3, f)
                &&& self.he(h3).next == Some(h1)
            },
            None => false,
        }
    }

    /// The three half-edges around face `f`, from its seed along `next`.
    pub open spec fn cycle(self, f: FaceID) -> (HalfEdgeID, HalfEdgeID, HalfEdgeID) {
        let h1 = self.face(f).halfedge.unwrap();
        let h2 = self.he(h1).next.unwrap();
        let h3 = self.he(h2).next.unwrap();
        (h1, h2, h3)
    }

    /// Every live face is a closed triangle.
    pub open spec fn faces_closed(self) -> bool {
        forall|f: FaceID| #[trigger] self.face_live(f) ==> self.triangle_closed(f)
    }

    /// Twins of live half-edges are live, distinct from them, and point back.
    pub open spec fn twins_symmetric(self) -> bool {
        forall|h: HalfEdgeID|
            #[trigger] self.halfedge_live(h) && self.he(h).twin is Some ==> {
                let t = self.he(h).twin.unwrap();
                &&& self.halfedge_live(t)
                &&& t != h
                &&& self.he(t).twin == Some(h)
            }
    }

    /// The invariants that the store's constructors establish and its
    /// structural operations keep.
    pub open spec fn valid_topology(self) -> bool {
        self.faces_closed() && self.twins_symmetric()
    }

    /// `h` is not part of any live face: its face is absent or removed.
    pub open spec fn unclaimed(self, h: HalfEdgeID) -> bool {
        match self.he(h).face {
            Some(f) => !self.face_live(f),
            None => true,
        }
    }
}

/// Half-edge arena with the slot of `h` replaced by `e`.
pub open spec fn set_he(a: ArenaModel<HalfEdge>, h: HalfEdgeID, e: HalfEdge) -> ArenaModel<HalfEdge> {
    ArenaModel { slots: a.slots.update(h.idx() as int, e), free: a.free }
}

/// Half-edge arena with the `twin` link of `t` cleared, when `t` names an
/// allocated slot.
pub open spec fn clear_twin(a: ArenaModel<HalfEdge>, t: Option<HalfEdgeID>) -> ArenaModel<HalfEdge> {
    match t {
        Some(t) => if t.idx() < a.slots.len() {
            set_he(a, t, HalfEdge { twin: None, ..a.slots[t.idx() as int] })
        } else {
            a
        },
        None => a,
    }
}

/// Vertex arena with the seed half-edge of `v` replaced by `h`.
pub open spec fn set_seed<P>(a: ArenaModel<Vertex<P>>, v: VertexID, h: Option<HalfEdgeID>) -> ArenaModel<
    Vertex<P>,
> {
    ArenaModel {
        slots: a.slots.update(v.idx() as int, Vertex { halfedge: h, position: a.slots[v.idx() as int].position }),
        free: a.free,
    }
}

/// Every half-edge of a live face of `a` stays live in `b` with the same
/// `next` and `face`.
pub open spec fn keeps_claimed<T, P>(a: MeshModel<T, P>, b: MeshModel<T, P>) -> bool {
    forall|h: HalfEdgeID|
        #[trigger] a.halfedge_live(h) && !a.unclaimed(h) ==> {
            &&& b.halfedge_live(h)
            &&& b.he(h).next == a.he(h).next
            &&& b.he(h).face == a.he(h).face
        }
}

/// A closed face stays closed when its seed and its half-edges keep their
/// links.
pub proof fn lemma_closed_kept<T, P>(a: MeshModel<T, P>, b: MeshModel<T, P>, f: FaceID)
    requires
        a.face_live(f),
        a.triangle_closed(f),
        b.face(f).halfedge == a.face(f).halfedge,
        keeps_claimed(a, b),
    ensures
        b.triangle_closed(f),
{
    let h1 = a.face(f).halfedge.unwrap();
    let h2 = a.he(h1).next.unwrap();
    let h3 = a.he(h2).next.unwrap();
    assert(a.halfedge_live(h1) && !a.unclaimed(h1));
    assert(a.halfedge_live(h2) && !a.unclaimed(h2));
    assert(a.halfedge_live(h3) && !a.unclaimed(h3));
}

/// The faces of `b` are closed when those of `a` were, when every face live
/// in `b` other than `fresh` was live in `a` with the same seed, and when
/// `fresh` is closed in `b`.
pub proof fn lemma_faces_closed_kept<T, P>(a: MeshModel<T, P>, b: MeshModel<T, P>, fresh: Option<FaceID>)
    requires
        a.faces_closed(),
        keeps_claimed(a, b),
        forall|f: FaceID|
            #[trigger] b.face_live(f) && fresh != Some(f) ==> a.face_live(f) && b.face(f).halfedge
                == a.face(f).halfedge,
        fresh is Some ==> b.triangle_closed(fresh.unwrap()),
    ensures
        b.faces_closed(),
{
    assert forall|f: FaceID| #[trigger] b.face_live(f) implies b.triangle_closed(f) by {
        if fresh != Some(f) {
            assert(a.face_live(f));
            lemma_closed_kept(a, b, f);
        }
    }
}

/// Twins stay symmetric when `b` keeps every live half-edge of `a` with its
/// twin, and every half-edge that `b` adds has no twin.
pub proof fn lemma_twins_kept<T, P>(a: MeshModel<T, P>, b: MeshModel<T, P>)
    requires
        a.twins_symmetric(),
        forall|h: HalfEdgeID| #[trigger] a.halfedge_live(h) ==> b.halfedge_live(h),
        forall|h: HalfEdgeID|
            #[trigger] b.halfedge_live(h) ==> if a.halfedge_live(h) {
                b.he(h).twin == a.he(h).twin
            } else {
                b.he(h).twin is None
            },
    ensures
        b.twins_symmetric(),
{
    assert forall|h: HalfEdgeID| #[trigger] b.halfedge_live(h) && b.he(h).twin is Some implies {
        let t = b.he(h).twin.unwrap();
        &&& b.halfedge_live(t)
        &&& t != h
        &&& b.he(t).twin == Some(h)
    } by {
        assert(a.halfedge_live(h));
        let t = b.he(h).twin.unwrap();
        assert(a.halfedge_live(t));
        assert(b.halfedge_live(t));
    }
}

/// The connectivity store. Vertices, half-edges and faces each live in a slot
/// arena and refer to one another by handle.
#[derive(Clone, Debug)]
pub struct ConnectivityInfo<T, P> {
    vertices: IDMap<VertexID, Vertex<P>>,
    halfedges: IDMap<HalfEdgeID, HalfEdge>,
    faces: IDMap<FaceID, Face<T>>,
}

impl<T, P> View for ConnectivityInfo<T, P> {
    type V = MeshModel<T, P>;

    closed spec fn view(&self) -> MeshModel<T, P> {
        MeshModel { vertices: self.vertices@, halfedges: self.halfedges@, faces: self.faces@ }
    }
}

impl<T, P> ConnectivityInfo<T, P> {
    /// The three arenas are well formed.
    pub closed spec fn wf(&self) -> bool {
        self.vertices.wf() && self.halfedges.wf() && self.faces.wf()
    }

    /// A well-formed store has well-formed arena models.
    pub proof fn lemma_wf(&self)
        requires
            self.wf(),
        ensures
            self@.vertices.wf(),
            self@.halfedges.wf(),
            self@.faces.wf(),
    {
        self.vertices.lemma_wf();
        self.halfedges.lemma_wf();
        self.faces.lemma_wf();
    }

    /// An empty store; the counts are capacity hints.
    pub fn new(num_vertices: usize, num_faces: usize) -> (r: Self)
        ensures
            r.wf(),
            r@.vertices == ArenaModel::<Vertex<P>>::empty(),
            r@.halfedges == ArenaModel::<HalfEdge>::empty(),
            r@.faces == ArenaModel::<Face<T>>::empty(),
            r@.valid_topology(),
    {
        let hint = if num_faces <= usize::MAX / 4 {
            4 * num_faces
        } else {
            num_faces
        };
        ConnectivityInfo {
            vertices: IDMap::with_capacity(num_vertices),
            halfedges: IDMap::with_capacity(hint),
            faces: IDMap::with_capacity(num_faces),
        }
    }

    /// Number of live vertices.
    pub fn num_vertices(&self) -> (r: usize)
        requires
            self.wf(),
        ensures
            r == self@.vertices.len(),
    {
        self.vertices.len()
    }

    /// Number of live half-edges.
    pub fn num_halfedges(&self) -> (r: usize)
        requires
            self.wf(),
        ensures
            r == self@.halfedges.len(),
    {
        self.halfedges.len()
    }

    /// Number of live faces.
    pub fn num_faces(&self) -> (r: usize)
        requires
            self.wf(),
        ensures
            r == self@.faces.len(),
    {
        self.faces.len()
    }

    /// Handles of all live vertices, ascending.
    pub fn vertex_iterator(&self) -> (r: Vec<VertexID>)
        requires
            self.wf(),
        ensures
            r@.map_values(|k: VertexID| k.idx() as int) == self@.vertices.live_indices(),
            r@.len() == self@.vertices.len(),
    {
        self.vertices.iter()
    }

    /// Handles of all live half-edges, ascending.
    pub fn halfedge_iterator(&self) -> (r: Vec<HalfEdgeID>)
        requires
            self.wf(),
        ensures
            r@.map_values(|k: HalfEdgeID| k.idx() as int) == self@.halfedges.live_indices(),
            r@.len() == self@.halfedges.len(),
    {
        self.halfedges.iter()
    }

    /// Handles of all live faces, ascending.
    pub fn face_iterator(&self) -> (r: Vec<FaceID>)
        requires
            self.wf(),
        ensures
            r@.map_values(|k: FaceID| k.idx() as int) == self@.faces.live_indices(),
            r@.len() == self@.faces.len(),
    {
        self.faces.iter()
    }

    /// The seed half-edge of vertex `vertex_id`.
    pub fn vertex_halfedge(&self, vertex_id: VertexID) -> (r: Option<HalfEdgeID>)
        requires
            self@.has_vertex_slot(vertex_id),
        ensures
            r == self@.vertex(vertex_id).halfedge,
    {
        self.vertices.get(vertex_id).unwrap().halfedge
    }

    /// A copy of the half-edge record of `halfedge_id`; `None` when the index
    /// is past the last slot.
    pub fn halfedge(&self, halfedge_id: HalfEdgeID) -> (r: Option<HalfEdge>)
        ensures
            r == if self@.has_halfedge_slot(halfedge_id) {
                Some(self@.he(halfedge_id))
            } else {
                None
            },
    {
        match self.halfedges.get(halfedge_id) {
            Some(e) => Some(*e),
            None => None,
        }
    }

    /// The seed half-edge of face `face_id`.
    pub fn face_halfedge(&self, face_id: FaceID) -> (r: Option<HalfEdgeID>)
        requires
            self@.has_face_slot(face_id),
        ensures
            r == self@.face(face_id).halfedge,
    {
        self.faces.get(face_id).unwrap().halfedge
    }
    /// Creates a face and its three inner half-edges `h1` (to `vertex_id2`),
    /// `h2` (to `vertex_id3`) and `h3` (to `vertex_id1`), linked in the cycle
    /// `h1 -> h2 -> h3 -> h1`, none with a twin. The face's seed is `h1`, and
    /// the seeds of `vertex_id1`, `vertex_id2`, `vertex_id3` become `h1`, `h2`,
    /// `h3`.
    pub fn create_face(&mut self, vertex_id1: VertexID, vertex_id2: VertexID, vertex_id3: VertexID, tag: T) -> (r: FaceID)
        requires
            old(self).wf(),
            old(self)@.has_vertex_slot(vertex_id1),
            old(self)@.has_vertex_slot(vertex_id2),
            old(self)@.has_vertex_slot(vertex_id3),
            old(self)@.halfedges.room_for(3),
            old(self)@.faces.has_room(),
        ensures
            final(self).wf(),
            r.idx() == old(self)@.faces.next_index(),
            final(self)@.triangle_closed(r),
            ({
                let (h1, h2, h3) = final(self)@.cycle(r);
                let e1 = HalfEdge { vertex: Some(vertex_id2), twin: None, next: Some(h2), face: Some(r) };
                let e3 = HalfEdge { vertex: Some(vertex_id1), twin: None, next: Some(h1), face: Some(r) };
                let e2 = HalfEdge { vertex: Some(vertex_id3), twin: None, next: Some(h3), face: Some(r) };
                &&& h1.idx() == old(self)@.halfedges.next_index()
                &&& h3.idx() == old(self)@.halfedges.insert(e1).next_index()
                &&& h2.idx() == old(self)@.halfedges.insert(e1).insert(e3).next_index()
                &&& final(self)@.halfedges == old(self)@.halfedges.insert(e1).insert(e3).insert(e2)
                &&& final(self)@.faces == old(self)@.faces.insert(Face { halfedge: Some(h1), tag })
                &&& final(self)@.vertices == set_seed(
                    set_seed(set_seed(old(self)@.vertices, vertex_id1, Some(h1)), vertex_id2, Some(h2)),
                    vertex_id3,
                    Some(h3),
                )
            }),
            final(self)@.halfedges.len() == old(self)@.halfedges.len() + 3,
            final(self)@.faces.len() == old(self)@.faces.len() + 1,
            old(self)@.valid_topology() ==> final(self)@.valid_topology(),
    {
        let ghost a = self@;
        proof {
            self.lemma_wf();
        }
        let id = self.new_face(tag);
        let ghost a0 = self@;
        proof {
            self.lemma_wf();
            lemma_ops_preserve_wf(a0.halfedges, arbitrary(), 0);
        }
        let halfedge1 = self.new_halfedge(Some(vertex_id2), None, Some(id));
        let ghost a1 = self@;
        proof {
            self.lemma_wf();
            lemma_ops_preserve_wf(a1.halfedges, arbitrary(), 0);
            lemma_room_after_insert(a0.halfedges, HalfEdge { vertex: Some(vertex_id2), twin: None, next: None, face: Some(id) }, 3);
        }
        let halfedge3 = self.new_halfedge(Some(vertex_id1), Some(halfedge1), Some(id));
        let ghost a2 = self@;
        proof {
            self.lemma_wf();
            lemma_ops_preserve_wf(a2.halfedges, arbitrary(), 0);
            lemma_room_after_insert(a1.halfedges, HalfEdge { vertex: Some(vertex_id1), twin: None, next: Some(halfedge1), face: Some(id) }, 2);
        }
        let halfedge2 = self.new_halfedge(Some(vertex_id3), Some(halfedge3), Some(id));
        let ghost a3 = self@;
        proof {
        }
        self.set_halfedge_next(halfedge1, Some(halfedge2));
        self.set_vertex_halfedge(vertex_id1, Some(halfedge1));
        self.set_vertex_halfedge(vertex_id2, Some(halfedge2));
        self.set_vertex_halfedge(vertex_id3, Some(halfedge3));
        self.set_face_halfedge(id, halfedge1);
        proof {
            let b = self@;
            let (h1, h2, h3) = (halfedge1, halfedge2, halfedge3);
            let e1 = HalfEdge { vertex: Some(vertex_id2), twin: None, next: Some(h2), face: Some(id) };
            let e3 = HalfEdge { vertex: Some(vertex_id1), twin: None, next: Some(h1), face: Some(id) };
            let e2 = HalfEdge { vertex: Some(vertex_id3), twin: None, next: Some(h3), face: Some(id) };
            assert(h1.idx() != h3.idx());
            assert(h1.idx() != h2.idx());
            assert(h3.idx() != h2.idx());
            let e0 = HalfEdge { vertex: Some(vertex_id2), twin: None, next: None, face: Some(id) };
            let x0 = a.halfedges;
            lemma_set_commutes_insert(x0.insert(e0).insert(e3), e2, h1.idx() as int, e1);
            lemma_set_commutes_insert(x0.insert(e0), e3, h1.idx() as int, e1);
            lemma_insert_then_set(x0, e0, e1);
            assert(b.halfedges == a.halfedges.insert(e1).insert(e3).insert(e2));
            lemma_insert_then_set(a.faces, Face { halfedge: None, tag }, Face { halfedge: Some(h1), tag });
            assert(b.faces == a.faces.insert(Face { halfedge: Some(h1), tag }));
            lemma_ops_preserve_wf(a.faces, Face { halfedge: None, tag }, 0);
            assert(b.cycle(id) == (h1, h2, h3));
            assert(b.triangle_closed(id));
            if a.valid_topology() {
                assert forall|h: HalfEdgeID| #[trigger] a.halfedge_live(h) && !a.unclaimed(h) implies {
                    &&& b.halfedge_live(h)
                    &&& b.he(h).next == a.he(h).next
                    &&& b.he(h).face == a.he(h).face
                } by {
                    assert(a1.halfedge_live(h));
                    assert(a2.halfedge_live(h));
                }
                assert forall|f: FaceID| #[trigger] b.face_live(f) && Some(id) != Some(f) implies a.face_live(f)
                    && b.face(f).halfedge == a.face(f).halfedge by {
                    if f.idx() == id.idx() {
                        FaceID::lemma_idx_injective(f, id);
                    }
                }
                lemma_faces_closed_kept(a, b, Some(id));
                assert forall|h: HalfEdgeID| #[trigger] a.halfedge_live(h) implies b.halfedge_live(h) by {
                    assert(a1.halfedge_live(h));
                    assert(a2.halfedge_live(h));
                }
                assert forall|h: HalfEdgeID| #[trigger] b.halfedge_live(h) implies if a.halfedge_live(h) {
                    b.he(h).twin == a.he(h).twin
                } else {
                    b.he(h).twin is None
                } by {
                    if a.halfedge_live(h) {
                        assert(a1.halfedge_live(h));
                        assert(a2.halfedge_live(h));
                    } else if h.idx() == h1.idx() {
                        HalfEdgeID::lemma_idx_injective(h, h1);
                    } else if h.idx() == h2.idx() {
                        HalfEdgeID::lemma_idx_injective(h, h2);
                    } else if h.idx() == h3.idx() {
                        HalfEdgeID::lemma_idx_injective(h, h3);
                    } else {
                        assert(a2.halfedge_live(h));
                        assert(a1.halfedge_live(h));
                        assert(a0.halfedge_live(h));
                    }
                }
                lemma_twins_kept(a, b);
            }
        }
        id
    }

    /// Creates a face whose cycle reuses the existing half-edge `halfedge_id`
    /// (from `vertex_id1` to `vertex_id2`) and two new half-edges `h2` (to
    /// `vertex_id3`) and `h3` (to `vertex_id1`): `halfedge_id -> h2 -> h3 ->
    /// halfedge_id`. `halfedge_id` gets the new face and keeps its vertex and
    /// twin; the new ones have no twin. The face's seed is `halfedge_id`, and
    /// the seeds of `vertex_id1`, `vertex_id2`, `vertex_id3` become
    /// `halfedge_id`, `h2`, `h3`.
    pub fn create_face_with_existing_halfedge(
        &mut self,
        vertex_id1: VertexID,
        vertex_id2: VertexID,
        vertex_id3: VertexID,
        halfedge_id: HalfEdgeID,
        tag: T,
    ) -> (r: FaceID)
        requires
            old(self).wf(),
            old(self)@.has_vertex_slot(vertex_id1),
            old(self)@.has_vertex_slot(vertex_id2),
            old(self)@.has_vertex_slot(vertex_id3),
            old(self)@.halfedge_live(halfedge_id),
            old(self)@.halfedges.room_for(2),
            old(self)@.faces.has_room(),
        ensures
            final(self).wf(),
            r.idx() == old(self)@.faces.next_index(),
            final(self)@.triangle_closed(r),
            ({
                let (h1, h2, h3) = final(self)@.cycle(r);
                let e3 = HalfEdge { vertex: Some(vertex_id1), twin: None, next: Some(halfedge_id), face: Some(r) };
                let e2 = HalfEdge { vertex: Some(vertex_id3), twin: None, next: Some(h3), face: Some(r) };
                &&& h1 == halfedge_id
                &&& h3.idx() == old(self)@.halfedges.next_index()
                &&& h2.idx() == old(self)@.halfedges.insert(e3).next_index()
                &&& final(self)@.halfedges == set_he(
                    old(self)@.halfedges.insert(e3).insert(e2),
                    halfedge_id,
                    HalfEdge { next: Some(h2), face: Some(r), ..old(self)@.he(halfedge_id) },
                )
                &&& final(self)@.faces == old(self)@.faces.insert(Face { halfedge: Some(halfedge_id), tag })
                &&& final(self)@.vertices == set_seed(
                    set_seed(set_seed(old(self)@.vertices, vertex_id1, Some(halfedge_id)), vertex_id2, Some(h2)),
                    vertex_id3,
                    Some(h3),
                )
            }),
            final(self)@.halfedges.len() == old(self)@.halfedges.len() + 2,
            final(self)@.faces.len() == old(self)@.faces.len() + 1,
            old(self)@.valid_topology() && old(self)@.unclaimed(halfedge_id) ==> final(self)@.valid_topology(),
    {
        let ghost a = self@;
        proof {
            self.lemma_wf();
        }
        let id = self.new_face(tag);
        let ghost a0 = self@;
        proof {
            self.lemma_wf();
            lemma_ops_preserve_wf(a0.halfedges, arbitrary(), 0);
            lemma_room_after_insert(
                a0.halfedges,
                HalfEdge { vertex: Some(vertex_id1), twin: None, next: Some(halfedge_id), face: Some(id) },
                2,
            );
        }
        let halfedge3 = self.new_halfedge(Some(vertex_id1), Some(halfedge_id), Some(id));
        let ghost a1 = self@;
        proof {
            self.lemma_wf();
            lemma_ops_preserve_wf(a1.halfedges, arbitrary(), 0);
        }
        let halfedge2 = self.new_halfedge(Some(vertex_id3), Some(halfedge3), Some(id));
        let ghost a2 = self@;
        self.set_halfedge_next(halfedge_id, Some(halfedge2));
        self.set_halfedge_face(halfedge_id, Some(id));
        self.set_vertex_halfedge(vertex_id1, Some(halfedge_id));
        self.set_vertex_halfedge(vertex_id2, Some(halfedge2));
        self.set_vertex_halfedge(vertex_id3, Some(halfedge3));
        self.set_face_halfedge(id, halfedge_id);
        proof {
            let b = self@;
            let (h1, h2, h3) = (halfedge_id, halfedge2, halfedge3);
            let e3 = HalfEdge { vertex: Some(vertex_id1), twin: None, next: Some(h1), face: Some(id) };
            let e2 = HalfEdge { vertex: Some(vertex_id3), twin: None, next: Some(h3), face: Some(id) };
            assert(a1.halfedge_live(h1));
            assert(h1.idx() != h3.idx());
            assert(h1.idx() != h2.idx());
            assert(h3.idx() != h2.idx());
            assert(b.halfedges.slots =~= set_he(
                a.halfedges.insert(e3).insert(e2),
                h1,
                HalfEdge { next: Some(h2), face: Some(id), ..a.he(h1) },
            ).slots);
            lemma_insert_then_set(a.faces, Face { halfedge: None, tag }, Face { halfedge: Some(h1), tag });
            assert(b.faces == a.faces.insert(Face { halfedge: Some(h1), tag }));
            lemma_ops_preserve_wf(a.faces, Face { halfedge: None, tag }, 0);
            assert(b.cycle(id) == (h1, h2, h3));
            assert(b.triangle_closed(id));
            if a.valid_topology() && a.unclaimed(h1) {
                assert forall|h: HalfEdgeID| #[trigger] a.halfedge_live(h) && !a.unclaimed(h) implies {
                    &&& b.halfedge_live(h)
                    &&& b.he(h).next == a.he(h).next
                    &&& b.he(h).face == a.he(h).face
                } by {
                    assert(a1.halfedge_live(h));
                    if h.idx() == h1.idx() {
                        HalfEdgeID::lemma_idx_injective(h, h1);
                    }
                }
                assert forall|f: FaceID| #[trigger] b.face_live(f) && Some(id) != Some(f) implies a.face_live(f)
                    && b.face(f).halfedge == a.face(f).halfedge by {
                    if f.idx() == id.idx() {
                        FaceID::lemma_idx_injective(f, id);
                    }
                }
                lemma_faces_closed_kept(a, b, Some(id));
                assert forall|h: HalfEdgeID| #[trigger] a.halfedge_live(h) implies b.halfedge_live(h) by {
                    assert(a1.halfedge_live(h));
                }
                assert forall|h: HalfEdgeID| #[trigger] b.halfedge_live(h) implies if a.halfedge_live(h) {
                    b.he(h).twin == a.he(h).twin
                } else {
                    b.he(h).twin is None
                } by {
                    if a.halfedge_live(h) {
                        assert(a1.halfedge_live(h));
                    } else if h.idx() == h2.idx() {
                        HalfEdgeID::lemma_idx_injective(h, h2);
                    } else if h.idx() == h3.idx() {
                        HalfEdgeID::lemma_idx_injective(h, h3);
                    } else {
                        assert(a1.halfedge_live(h));
                        assert(a0.halfedge_live(h));
                    }
                }
                lemma_twins_kept(a, b);
            }
        }
        id
    }

    /// Adds a vertex at `position` with no seed half-edge.
    pub fn new_vertex(&mut self, position: P) -> (r: VertexID)
        requires
            old(self).wf(),
            old(self)@.vertices.has_room(),
        ensures
            final(self).wf(),
            final(self)@.vertices == old(self)@.vertices.insert(Vertex { halfedge: None, position }),
            r.idx() == old(self)@.vertices.next_index(),
            final(self)@.halfedges == old(self)@.halfedges,
            final(self)@.faces == old(self)@.faces,
            old(self)@.valid_topology() ==> final(self)@.valid_topology(),
    {
        let ghost a = self@;
        let r = self.vertices.insert_new(Vertex { halfedge: None, position }).unwrap();
        proof {
            if a.valid_topology() {
                lemma_faces_closed_kept(a, self@, None);
                lemma_twins_kept(a, self@);
            }
        }
        r
    }

    /// Adds a half-edge with the given destination, successor and face, and
    /// no twin.
    pub fn new_halfedge(&mut self, vertex: Option<VertexID>, next: Option<HalfEdgeID>, face: Option<FaceID>) -> (r: HalfEdgeID)
        requires
            old(self).wf(),
            old(self)@.halfedges.has_room(),
        ensures
            final(self).wf(),
            final(self)@.halfedges == old(self)@.halfedges.insert(HalfEdge { vertex, twin: None, next, face }),
            r.idx() == old(self)@.halfedges.next_index(),
            !old(self)@.halfedge_live(r),
            final(self)@.halfedge_live(r),
            final(self)@.vertices == old(self)@.vertices,
            final(self)@.faces == old(self)@.faces,
            old(self)@.twins_symmetric() ==> final(self)@.twins_symmetric(),
            old(self)@.faces_closed() ==> final(self)@.faces_closed(),
    {
        let ghost a = self@;
        let ghost e = HalfEdge { vertex, twin: None, next, face };
        proof {
            self.halfedges.lemma_wf();
            lemma_ops_preserve_wf(a.halfedges, e, 0);
        }
        let r = self.halfedges.insert_new(HalfEdge { vertex, twin: None, next, face }).unwrap();
        proof {
            let b = self@;
            assert forall|h: HalfEdgeID| #[trigger] b.halfedge_live(h) implies if a.halfedge_live(h) {
                b.he(h).twin == a.he(h).twin
            } else {
                b.he(h).twin is None
            } by {
                if h.idx() == r.idx() {
                    HalfEdgeID::lemma_idx_injective(h, r);
                }
            }
            assert forall|h: HalfEdgeID| #[trigger] a.halfedge_live(h) implies b.halfedge_live(h) by {
                if h.idx() == r.idx() {
                    HalfEdgeID::lemma_idx_injective(h, r);
                }
            }
            if a.twins_symmetric() {
                lemma_twins_kept(a, b);
            }
            if a.faces_closed() {
                lemma_faces_closed_kept(a, b, None);
            }
        }
        r
    }

    /// Adds a face with the given tag and no seed half-edge.
    fn new_face(&mut self, tag: T) -> (r: FaceID)
        requires
            old(self).wf(),
            old(self)@.faces.has_room(),
        ensures
            final(self).wf(),
            final(self)@.faces == old(self)@.faces.insert(Face { halfedge: None, tag }),
            r.idx() == old(self)@.faces.next_index(),
            !old(self)@.face_live(r),
            final(self)@.face_live(r),
            final(self)@.vertices == old(self)@.vertices,
            final(self)@.halfedges == old(self)@.halfedges,
    {
        proof {
            self.faces.lemma_wf();
            lemma_ops_preserve_wf(self@.faces, Face { halfedge: None, tag }, 0);
        }
        self.faces.insert_new(Face { halfedge: None, tag }).unwrap()
    }

    /// Frees the slot of `vertex_id` for reuse; a vertex that is not live is
    /// left as it is.
    pub fn remove_vertex(&mut self, vertex_id: VertexID)
        requires
            old(self).wf(),
        ensures
            final(self).wf(),
            final(self)@.vertices == old(self)@.vertices.remove(vertex_id.idx() as int),
            final(self)@.halfedges == old(self)@.halfedges,
            final(self)@.faces == old(self)@.faces,
            old(self)@.valid_topology() ==> final(self)@.valid_topology(),
    {
        let ghost a = self@;
        self.vertices.remove(vertex_id);
        proof {
            if a.valid_topology() {
                lemma_faces_closed_kept(a, self@, None);
                lemma_twins_kept(a, self@);
            }
        }
    }

    /// Frees the slot of `halfedge_id` for reuse, and first clears the `twin`
    /// link of its twin. A half-edge that is not live is left as it is.
    pub fn remove_halfedge(&mut self, halfedge_id: HalfEdgeID)
        requires
            old(self).wf(),
        ensures
            final(self).wf(),
            final(self)@.halfedges == if old(self)@.halfedge_live(halfedge_id) {
                clear_twin(old(self)@.halfedges, old(self)@.he(halfedge_id).twin).remove(halfedge_id.idx() as int)
            } else {
                old(self)@.halfedges
            },
            final(self)@.vertices == old(self)@.vertices,
            final(self)@.faces == old(self)@.faces,
            old(self)@.halfedge_live(halfedge_id) ==> final(self)@.halfedges.len() == old(self)@.halfedges.len() - 1,
            old(self)@.halfedge_live(halfedge_id) && old(self)@.he(halfedge_id).twin is Some
                && old(self)@.has_halfedge_slot(old(self)@.he(halfedge_id).twin.unwrap())
                ==> final(self)@.he(old(self)@.he(halfedge_id).twin.unwrap()).twin is None,
            old(self)@.twins_symmetric() ==> final(self)@.twins_symmetric(),
            old(self)@.faces_closed() && old(self)@.unclaimed(halfedge_id) ==> final(self)@.faces_closed(),
    {
        let ghost a = self@;
        if self.halfedges.contains(halfedge_id) {
            let twin = self.halfedges.get(halfedge_id).unwrap().twin;
            if let Some(t) = twin {
                match self.halfedges.get_mut(t) {
                    Some(e) => {
                        e.twin = None;
                    },
                    None => {},
                }
            }
            let ghost m = self@;
            proof {
                assert(m.halfedges == clear_twin(a.halfedges, twin));
                self.halfedges.lemma_wf();
                lemma_ops_preserve_wf(m.halfedges, arbitrary(), halfedge_id.idx() as int);
            }
            self.halfedges.remove(halfedge_id);
            proof {
                let b = self@;
                let id = halfedge_id;
                if a.twins_symmetric() {
                    assert forall|h: HalfEdgeID| #[trigger] b.halfedge_live(h) && b.he(h).twin is Some implies {
                        let x = b.he(h).twin.unwrap();
                        &&& b.halfedge_live(x)
                        &&& x != h
                        &&& b.he(x).twin == Some(h)
                    } by {
                        assert(h.idx() != id.idx());
                        assert(m.halfedge_live(h));
                        assert(a.halfedge_live(h));
                        assert(a.halfedge_live(id));
                        assert(b.halfedges.slots == m.halfedges.slots);
                        let x = a.he(h).twin.unwrap();
                        assert(a.halfedge_live(x));
                        if let Some(t) = twin {
                            if h.idx() == t.idx() {
                                HalfEdgeID::lemma_idx_injective(h, t);
                            }
                            if x.idx() == t.idx() {
                                HalfEdgeID::lemma_idx_injective(x, t);
                            }
                        }
                        if x.idx() == id.idx() {
                            HalfEdgeID::lemma_idx_injective(x, id);
                        }
                        assert(b.halfedge_live(x));
                        assert(x != h);
                        assert(b.he(x).twin == Some(h));
                    }
                }
                if a.faces_closed() && a.unclaimed(id) {
                    assert forall|h: HalfEdgeID| #[trigger] a.halfedge_live(h) && !a.unclaimed(h) implies {
                        &&& b.halfedge_live(h)
                        &&& b.he(h).next == a.he(h).next
                        &&& b.he(h).face == a.he(h).face
                    } by {
                        if h.idx() == id.idx() {
                            HalfEdgeID::lemma_idx_injective(h, id);
                        }
                    }
                    lemma_faces_closed_kept(a, b, None);
                }
            }
        }
    }

    /// Frees the slot of `face_id` for reuse; a face that is not live is left
    /// as it is.
    pub fn remove_face(&mut self, face_id: FaceID)
        requires
            old(self).wf(),
        ensures
            final(self).wf(),
            final(self)@.faces == old(self)@.faces.remove(face_id.idx() as int),
            final(self)@.vertices == old(self)@.vertices,
            final(self)@.halfedges == old(self)@.halfedges,
            old(self)@.valid_topology() ==> final(self)@.valid_topology(),
    {
        let ghost a = self@;
        proof {
            self.faces.lemma_wf();
            lemma_ops_preserve_wf(a.faces, arbitrary(), face_id.idx() as int);
        }
        self.faces.remove(face_id);
        proof {
            let b = self@;
            if a.valid_topology() {
                assert forall|h: HalfEdgeID| #[trigger] a.halfedge_live(h) && !a.unclaimed(h) implies {
                    &&& b.halfedge_live(h)
                    &&& b.he(h).next == a.he(h).next
                    &&& b.he(h).face == a.he(h).face
                } by {}
                assert forall|f: FaceID| #[trigger] b.face_live(f) implies a.face_live(f) && b.face(f).halfedge
                    == a.face(f).halfedge by {
                    if f.idx() == face_id.idx() {
                        FaceID::lemma_idx_injective(f, face_id);
                    }
                }
                lemma_faces_closed_kept(a, b, None);
                lemma_twins_kept(a, b);
            }
        }
    }

    /// Replaces the seed half-edge of vertex `id`.
    pub fn set_vertex_halfedge(&mut self, id: VertexID, val: Option<HalfEdgeID>)
        requires
            old(self).wf(),
            old(self)@.has_vertex_slot(id),
        ensures
            final(self).wf(),
            final(self)@.vertices == set_seed(old(self)@.vertices, id, val),
            final(self)@.halfedges == old(self)@.halfedges,
            final(self)@.faces == old(self)@.faces,
            old(self)@.valid_topology() ==> final(self)@.valid_topology(),
    {
        let ghost a = self@;
        let v = self.vertices.get_mut(id).unwrap();
        v.halfedge = val;
        proof {
            if a.valid_topology() {
                lemma_faces_closed_kept(a, self@, None);
                lemma_twins_kept(a, self@);
            }
        }
    }

    /// Replaces the `next` link of half-edge `id`.
    pub fn set_halfedge_next(&mut self, id: HalfEdgeID, val: Option<HalfEdgeID>)
        requires
            old(self).wf(),
            old(self)@.has_halfedge_slot(id),
        ensures
            final(self).wf(),
            final(self)@.halfedges == set_he(old(self)@.halfedges, id, HalfEdge { next: val, ..old(self)@.he(id) }),
            final(self)@.vertices == old(self)@.vertices,
            final(self)@.faces == old(self)@.faces,
            old(self)@.twins_symmetric() ==> final(self)@.twins_symmetric(),
            old(self)@.faces_closed() && old(self)@.unclaimed(id) ==> final(self)@.faces_closed(),
    {
        let ghost a = self@;
        let e = self.halfedges.get_mut(id).unwrap();
        e.next = val;
        proof {
            let b = self@;
            if a.twins_symmetric() {
                lemma_twins_kept(a, b);
            }
            if a.faces_closed() && a.unclaimed(id) {
                assert forall|h: HalfEdgeID| #[trigger] a.halfedge_live(h) && !a.unclaimed(h) implies {
                    &&& b.halfedge_live(h)
                    &&& b.he(h).next == a.he(h).next
                    &&& b.he(h).face == a.he(h).face
                } by {
                    if h.idx() == id.idx() {
                        HalfEdgeID::lemma_idx_injective(h, id);
                    }
                }
                lemma_faces_closed_kept(a, b, None);
            }
        }
    }

    /// Makes `id1` and `id2` twins of each other.
    pub fn set_halfedge_twin(&mut self, id1: HalfEdgeID, id2: HalfEdgeID)
        requires
            old(self).wf(),
            old(self)@.has_halfedge_slot(id1),
            old(self)@.has_halfedge_slot(id2),
        ensures
            final(self).wf(),
            final(self)@.halfedges == set_he(
                set_he(old(self)@.halfedges, id1, HalfEdge { twin: Some(id2), ..old(self)@.he(id1) }),
                id2,
                HalfEdge { twin: Some(id1), ..set_he(old(self)@.halfedges, id1, HalfEdge { twin: Some(id2), ..old(self)@.he(id1) }).slots[id2.idx() as int] },
            ),
            final(self)@.vertices == old(self)@.vertices,
            final(self)@.faces == old(self)@.faces,
            final(self)@.he(id1).twin == Some(id2),
            final(self)@.he(id2).twin == Some(id1),
            old(self)@.faces_closed() ==> final(self)@.faces_closed(),
            old(self)@.twins_symmetric() && id1 != id2 && old(self)@.halfedge_live(id1) && old(self)@.halfedge_live(id2)
                && old(self)@.he(id1).twin is None && old(self)@.he(id2).twin is None
                ==> final(self)@.twins_symmetric(),
    {
        let ghost a = self@;
        let e1 = self.halfedges.get_mut(id1).unwrap();
        e1.twin = Some(id2);
        let e2 = self.halfedges.get_mut(id2).unwrap();
        e2.twin = Some(id1);
        proof {
            let b = self@;
            if id1.idx() == id2.idx() {
                HalfEdgeID::lemma_idx_injective(id1, id2);
            }
            if a.faces_closed() {
                lemma_faces_closed_kept(a, b, None);
            }
            if a.twins_symmetric() && id1 != id2 && a.halfedge_live(id1) && a.halfedge_live(id2)
                && a.he(id1).twin is None && a.he(id2).twin is None {
                assert forall|h: HalfEdgeID| #[trigger] b.halfedge_live(h) && b.he(h).twin is Some implies {
                    let t = b.he(h).twin.unwrap();
                    &&& b.halfedge_live(t)
                    &&& t != h
                    &&& b.he(t).twin == Some(h)
                } by {
                    if h.idx() == id1.idx() {
                        HalfEdgeID::lemma_idx_injective(h, id1);
                    } else if h.idx() == id2.idx() {
                        HalfEdgeID::lemma_idx_injective(h, id2);
                    } else {
                        let t = a.he(h).twin.unwrap();
                        assert(a.halfedge_live(h));
                        if t.idx() == id1.idx() {
                            HalfEdgeID::lemma_idx_injective(t, id1);
                        } else if t.idx() == id2.idx() {
                            HalfEdgeID::lemma_idx_injective(t, id2);
                        }
                    }
                }
            }
        }
    }

    /// Sets the destination vertex of half-edge `id`.
    pub fn set_halfedge_vertex(&mut self, id: HalfEdgeID, val: VertexID)
        requires
            old(self).wf(),
            old(self)@.has_halfedge_slot(id),
        ensures
            final(self).wf(),
            final(self)@.halfedges == set_he(old(self)@.halfedges, id, HalfEdge { vertex: Some(val), ..old(self)@.he(id) }),
            final(self)@.vertices == old(self)@.vertices,
            final(self)@.faces == old(self)@.faces,
            old(self)@.valid_topology() ==> final(self)@.valid_topology(),
    {
        let ghost a = self@;
        let e = self.halfedges.get_mut(id).unwrap();
        e.vertex = Some(val);
        proof {
            let b = self@;
            if a.valid_topology() {
                lemma_twins_kept(a, b);
                assert forall|h: HalfEdgeID| #[trigger] a.halfedge_live(h) && !a.unclaimed(h) implies {
                    &&& b.halfedge_live(h)
                    &&& b.he(h).next == a.he(h).next
                    &&& b.he(h).face == a.he(h).face
                } by {
                    if h.idx() == id.idx() {
                        HalfEdgeID::lemma_idx_injective(h, id);
                    }
                }
                lemma_faces_closed_kept(a, b, None);
            }
        }
    }

    /// Replaces the face of half-edge `id`.
    pub fn set_halfedge_face(&mut self, id: HalfEdgeID, val: Option<FaceID>)
        requires
            old(self).wf(),
            old(self)@.has_halfedge_slot(id),
        ensures
            final(self).wf(),
            final(self)@.halfedges == set_he(old(self)@.halfedges, id, HalfEdge { face: val, ..old(self)@.he(id) }),
            final(self)@.vertices == old(self)@.vertices,
            final(self)@.faces == old(self)@.faces,
            old(self)@.twins_symmetric() ==> final(self)@.twins_symmetric(),
    {
        let ghost a = self@;
        let e = self.halfedges.get_mut(id).unwrap();
        e.face = val;
        proof {
            if a.twins_symmetric() {
                lemma_twins_kept(a, self@);
            }
        }
    }

    /// Sets the seed half-edge of face `id`.
    pub fn set_face_halfedge(&mut self, id: FaceID, val: HalfEdgeID)
        requires
            old(self).wf(),
            old(self)@.has_face_slot(id),
        ensures
            final(self).wf(),
            final(self)@.faces.slots == old(self)@.faces.slots.update(
                id.idx() as int,
                Face { halfedge: Some(val), tag: old(self)@.face(id).tag },
            ),
            final(self)@.faces.free == old(self)@.faces.free,
            final(self)@.vertices == old(self)@.vertices,
            final(self)@.halfedges == old(self)@.halfedges,
            old(self)@.twins_symmetric() ==> final(self)@.twins_symmetric(),
    {
        let ghost a = self@;
        let f = self.faces.get_mut(id).unwrap();
        f.halfedge = Some(val);
        proof {
            if a.twins_symmetric() {
                lemma_twins_kept(a, self@);
            }
        }
    }
}

impl<T, P: Copy> ConnectivityInfo<T, P> {
    /// The position of vertex `vertex_id`.
    pub fn position(&self, vertex_id: VertexID) -> (r: P)
        requires
            self@.has_vertex_slot(vertex_id),
        ensures
            r == self@.vertex(vertex_id).position,
    {
        self.vertices.get(vertex_id).unwrap().position
    }

    /// Moves vertex `vertex_id` to `position`.
    pub fn set_position(&mut self, vertex_id: VertexID, position: P)
        requires
            old(self).wf(),
            old(self)@.has_vertex_slot(vertex_id),
        ensures
            final(self).wf(),
            final(self)@.vertices.slots == old(self)@.vertices.slots.update(
                vertex_id.idx() as int,
                Vertex { halfedge: old(self)@.vertex(vertex_id).halfedge, position },
            ),
            final(self)@.vertices.free == old(self)@.vertices.free,
            final(self)@.halfedges == old(self)@.halfedges,
            final(self)@.faces == old(self)@.faces,
            old(self)@.valid_topology() ==> final(self)@.valid_topology(),
    {
        let ghost a = self@;
        let v = self.vertices.get_mut(vertex_id).unwrap();
        v.position = position;
        proof {
            if a.valid_topology() {
                lemma_faces_closed_kept(a, self@, None);
                lemma_twins_kept(a, self@);
            }
        }
    }
}

impl<T: Clone, P> ConnectivityInfo<T, P> {
    /// A clone of the tag of face `face_id`.
    pub fn face_tag(&self, face_id: FaceID) -> (r: T)
        requires
            self@.has_face_slot(face_id),
        ensures
            cloned(self@.face(face_id).tag, r),
    {
        self.faces.get(face_id).unwrap().tag.clone()
    }
}

} // verus!
