use tri_mesh::mesh::connectivity_info::{ConnectivityInfo, HalfEdge};
use tri_mesh::mesh::ids::{FaceID, HalfEdgeID, VertexID, ID};

type P = [f64; 3];

fn store() -> ConnectivityInfo<u32, P> {
    ConnectivityInfo::new(4, 2)
}

fn four_vertices(m: &mut ConnectivityInfo<u32, P>) -> [VertexID; 4] {
    [
        m.new_vertex([0.0, 0.0, 0.0]),
        m.new_vertex([1.0, 0.0, 0.0]),
        m.new_vertex([1.0, 1.0, 0.0]),
        m.new_vertex([0.0, 1.0, 0.0]),
    ]
}

fn next(m: &ConnectivityInfo<u32, P>, h: HalfEdgeID) -> HalfEdgeID {
    m.halfedge(h).unwrap().next.unwrap()
}

#[test]
fn new_store_is_empty() {
    let m = store();
    assert_eq!(m.num_vertices(), 0);
    assert_eq!(m.num_halfedges(), 0);
    assert_eq!(m.num_faces(), 0);
    assert!(m.vertex_iterator().is_empty());
    assert!(m.halfedge_iterator().is_empty());
    assert!(m.face_iterator().is_empty());
}

#[test]
fn create_face_builds_closed_triangle() {
    let mut m = store();
    let [v0, v1, v2, _] = four_vertices(&mut m);
    let f = m.create_face(v0, v1, v2, 7);
    assert_eq!(m.num_faces(), 1);
    assert_eq!(m.num_halfedges(), 3);
    let h1 = m.face_halfedge(f).unwrap();
    let h2 = next(&m, h1);
    let h3 = next(&m, h2);
    assert_eq!(next(&m, h3), h1);
    assert_ne!(h1, h2);
    assert_ne!(h2, h3);
    assert_ne!(h1, h3);
    for h in [h1, h2, h3] {
        let e = m.halfedge(h).unwrap();
        assert_eq!(e.face, Some(f));
        assert_eq!(e.twin, None);
    }
    assert_eq!(m.halfedge(h1).unwrap().vertex, Some(v1));
    assert_eq!(m.halfedge(h2).unwrap().vertex, Some(v2));
    assert_eq!(m.halfedge(h3).unwrap().vertex, Some(v0));
    assert_eq!(m.vertex_halfedge(v0), Some(h1));
    assert_eq!(m.vertex_halfedge(v1), Some(h2));
    assert_eq!(m.vertex_halfedge(v2), Some(h3));
    assert_eq!(m.face_tag(f), 7);
}

#[test]
fn create_face_allocates_in_order() {
    let mut m = store();
    let [v0, v1, v2, _] = four_vertices(&mut m);
    let f = m.create_face(v0, v1, v2, 0);
    assert_eq!(f.deref(), 0);
    let h1 = m.face_halfedge(f).unwrap();
    let h2 = next(&m, h1);
    let h3 = next(&m, h2);
    assert_eq!(h1.deref(), 0);
    assert_eq!(h3.deref(), 1);
    assert_eq!(h2.deref(), 2);
}

#[test]
fn stitch_two_faces_along_shared_edge() {
    let mut m = store();
    let [v0, v1, v2, v3] = four_vertices(&mut m);
    let f1 = m.create_face(v0, v1, v2, 1);
    let f2 = m.create_face(v0, v2, v3, 2);
    // In f1 the edge v2 -> v0 closes the cycle; in f2 the seed runs v0 -> v2.
    let a1 = m.face_halfedge(f1).unwrap();
    let shared1 = next(&m, next(&m, a1));
    let shared2 = m.face_halfedge(f2).unwrap();
    assert_eq!(m.halfedge(shared1).unwrap().vertex, Some(v0));
    assert_eq!(m.halfedge(shared2).unwrap().vertex, Some(v2));
    m.set_halfedge_twin(shared1, shared2);
    assert_eq!(m.num_faces(), 2);
    assert_eq!(m.num_halfedges(), 6);
    assert_eq!(m.halfedge(shared1).unwrap().twin, Some(shared2));
    assert_eq!(m.halfedge(shared2).unwrap().twin, Some(shared1));
    for h in m.halfedge_iterator() {
        if h != shared1 && h != shared2 {
            assert_eq!(m.halfedge(h).unwrap().twin, None);
        }
    }
}

#[test]
fn twins_are_symmetric_after_stitching() {
    let mut m = store();
    let [v0, v1, v2, v3] = four_vertices(&mut m);
    let f1 = m.create_face(v0, v1, v2, 1);
    let f2 = m.create_face(v0, v2, v3, 2);
    let a1 = m.face_halfedge(f1).unwrap();
    let shared1 = next(&m, next(&m, a1));
    let shared2 = m.face_halfedge(f2).unwrap();
    m.set_halfedge_twin(shared2, shared1);
    for h in m.halfedge_iterator() {
        if let Some(t) = m.halfedge(h).unwrap().twin {
            assert_ne!(t, h);
            assert_eq!(m.halfedge(t).unwrap().twin, Some(h));
        }
    }
}

#[test]
fn existing_halfedge_joins_new_face() {
    let mut m = store();
    let [v0, v1, v2, v3] = four_vertices(&mut m);
    let f1 = m.create_face(v0, v1, v2, 1);
    // The twin of v2 -> v0, not yet claimed by a face.
    let a1 = m.face_halfedge(f1).unwrap();
    let closing = next(&m, next(&m, a1));
    let border = m.new_halfedge(Some(v2), None, None);
    m.set_halfedge_twin(closing, border);
    let f2 = m.create_face_with_existing_halfedge(v0, v2, v3, border, 2);
    assert_eq!(m.num_faces(), 2);
    assert_eq!(m.num_halfedges(), 6);
    assert_eq!(m.face_halfedge(f2), Some(border));
    let h2 = next(&m, border);
    let h3 = next(&m, h2);
    assert_eq!(next(&m, h3), border);
    for h in [border, h2, h3] {
        assert_eq!(m.halfedge(h).unwrap().face, Some(f2));
    }
    assert_eq!(m.halfedge(border).unwrap().twin, Some(closing));
    assert_eq!(m.halfedge(border).unwrap().vertex, Some(v2));
    assert_eq!(m.halfedge(h2).unwrap().vertex, Some(v3));
    assert_eq!(m.halfedge(h3).unwrap().vertex, Some(v0));
    assert_eq!(m.vertex_halfedge(v0), Some(border));
    assert_eq!(m.vertex_halfedge(v2), Some(h2));
    assert_eq!(m.vertex_halfedge(v3), Some(h3));
    assert_eq!(m.face_tag(f2), 2);
}

#[test]
fn removed_vertex_handle_is_reused_with_new_position() {
    let mut m = store();
    let [_, v1, _, _] = four_vertices(&mut m);
    m.remove_vertex(v1);
    assert_eq!(m.num_vertices(), 3);
    let w = m.new_vertex([5.0, 6.0, 7.0]);
    assert_eq!(w, v1);
    assert_eq!(m.position(w), [5.0, 6.0, 7.0]);
    assert_eq!(m.vertex_halfedge(w), None);
    assert_eq!(m.num_vertices(), 4);
}

#[test]
fn reuse_is_last_in_first_out() {
    let mut m = store();
    let [v0, _, v2, _] = four_vertices(&mut m);
    m.remove_vertex(v0);
    m.remove_vertex(v2);
    assert_eq!(m.new_vertex([9.0, 9.0, 9.0]), v2);
    assert_eq!(m.new_vertex([8.0, 8.0, 8.0]), v0);
    assert_eq!(m.new_vertex([7.0, 7.0, 7.0]).deref(), 4);
}

#[test]
fn counts_follow_inserts_and_removes() {
    let mut m = store();
    let [v0, v1, v2, v3] = four_vertices(&mut m);
    let f1 = m.create_face(v0, v1, v2, 1);
    let f2 = m.create_face(v0, v2, v3, 2);
    m.remove_vertex(v3);
    m.remove_face(f2);
    let h = m.face_halfedge(f1).unwrap();
    m.remove_halfedge(h);
    assert_eq!(m.num_vertices(), 4 - 1);
    assert_eq!(m.num_faces(), 2 - 1);
    assert_eq!(m.num_halfedges(), 6 - 1);
    m.new_vertex([0.0, 0.0, 0.0]);
    m.create_face(v0, v1, v2, 3);
    assert_eq!(m.num_vertices(), 4);
    assert_eq!(m.num_faces(), 2);
    assert_eq!(m.num_halfedges(), 8);
}

#[test]
fn removing_twice_changes_nothing() {
    let mut m = store();
    let [v0, v1, v2, _] = four_vertices(&mut m);
    let f = m.create_face(v0, v1, v2, 1);
    let h = m.face_halfedge(f).unwrap();
    m.remove_vertex(v0);
    m.remove_vertex(v0);
    m.remove_face(f);
    m.remove_face(f);
    m.remove_halfedge(h);
    m.remove_halfedge(h);
    assert_eq!(m.num_vertices(), 3);
    assert_eq!(m.num_faces(), 0);
    assert_eq!(m.num_halfedges(), 2);
    let a = m.new_vertex([1.0, 1.0, 1.0]);
    let b = m.new_vertex([2.0, 2.0, 2.0]);
    assert_eq!(a, v0);
    assert_eq!(b.deref(), 4);
}

#[test]
fn removing_a_missing_handle_changes_nothing() {
    let mut m = store();
    four_vertices(&mut m);
    m.remove_vertex(VertexID::new(40));
    m.remove_face(FaceID::new(3));
    m.remove_halfedge(HalfEdgeID::new(0));
    assert_eq!(m.num_vertices(), 4);
    assert_eq!(m.num_faces(), 0);
    assert_eq!(m.num_halfedges(), 0);
}

#[test]
fn removing_halfedge_clears_twin() {
    let mut m = store();
    let [v0, v1, v2, v3] = four_vertices(&mut m);
    let f1 = m.create_face(v0, v1, v2, 1);
    let f2 = m.create_face(v0, v2, v3, 2);
    let a1 = m.face_halfedge(f1).unwrap();
    let shared1 = next(&m, next(&m, a1));
    let shared2 = m.face_halfedge(f2).unwrap();
    m.set_halfedge_twin(shared1, shared2);
    let before = m.num_halfedges();
    m.remove_halfedge(shared1);
    assert_eq!(m.num_halfedges(), before - 1);
    assert_eq!(m.halfedge(shared2).unwrap().twin, None);
    assert!(!m.halfedge_iterator().contains(&shared1));
}

#[test]
fn iterator_skips_removed_vertex() {
    let mut m = store();
    let vs = four_vertices(&mut m);
    m.remove_vertex(vs[2]);
    let listed = m.vertex_iterator();
    assert_eq!(listed, vec![vs[0], vs[1], vs[3]]);
    assert!(!listed.iter().any(|v| v.deref() == vs[2].deref()));
    assert_eq!(listed.len(), m.num_vertices());
}

#[test]
fn face_and_halfedge_iterators_skip_removed() {
    let mut m = store();
    let [v0, v1, v2, v3] = four_vertices(&mut m);
    let f1 = m.create_face(v0, v1, v2, 1);
    let f2 = m.create_face(v0, v2, v3, 2);
    m.remove_face(f1);
    assert_eq!(m.face_iterator(), vec![f2]);
    let h = m.face_halfedge(f2).unwrap();
    m.remove_halfedge(h);
    let hs = m.halfedge_iterator();
    assert_eq!(hs.len(), 5);
    assert_eq!(hs.len(), m.num_halfedges());
    assert!(!hs.contains(&h));
}

#[test]
fn removed_slot_stays_readable_until_reused() {
    let mut m = store();
    let [v0, _, _, _] = four_vertices(&mut m);
    m.remove_vertex(v0);
    assert_eq!(m.position(v0), [0.0, 0.0, 0.0]);
}

#[test]
fn halfedge_lookup_past_the_end_is_none() {
    let mut m = store();
    let [v0, v1, v2, _] = four_vertices(&mut m);
    m.create_face(v0, v1, v2, 1);
    assert!(m.halfedge(HalfEdgeID::new(2)).is_some());
    assert_eq!(m.halfedge(HalfEdgeID::new(3)), None);
}

#[test]
fn setters_change_one_field() {
    let mut m = store();
    let [v0, v1, v2, v3] = four_vertices(&mut m);
    let f = m.create_face(v0, v1, v2, 1);
    let h1 = m.face_halfedge(f).unwrap();
    let h2 = next(&m, h1);
    let old = m.halfedge(h1).unwrap();

    m.set_halfedge_vertex(h1, v3);
    assert_eq!(m.halfedge(h1).unwrap(), HalfEdge { vertex: Some(v3), ..old });
    m.set_halfedge_next(h1, None);
    assert_eq!(m.halfedge(h1).unwrap(), HalfEdge { vertex: Some(v3), next: None, ..old });
    m.set_halfedge_face(h1, None);
    assert_eq!(m.halfedge(h1).unwrap(), HalfEdge { vertex: Some(v3), next: None, face: None, ..old });

    m.set_face_halfedge(f, h2);
    assert_eq!(m.face_halfedge(f), Some(h2));
    assert_eq!(m.face_tag(f), 1);

    m.set_vertex_halfedge(v3, Some(h2));
    assert_eq!(m.vertex_halfedge(v3), Some(h2));
    m.set_vertex_halfedge(v3, None);
    assert_eq!(m.vertex_halfedge(v3), None);

    m.set_position(v3, [3.0, 2.0, 1.0]);
    assert_eq!(m.position(v3), [3.0, 2.0, 1.0]);
    assert_eq!(m.vertex_halfedge(v0), Some(h1));
}

#[test]
fn face_tag_returns_a_clone() {
    let mut m: ConnectivityInfo<String, P> = ConnectivityInfo::new(3, 1);
    let a = m.new_vertex([0.0, 0.0, 0.0]);
    let b = m.new_vertex([1.0, 0.0, 0.0]);
    let c = m.new_vertex([0.0, 1.0, 0.0]);
    let f = m.create_face(a, b, c, "steel".to_string());
    assert_eq!(m.face_tag(f), "steel");
    assert_eq!(m.face_tag(f), "steel");
}

#[test]
fn new_halfedge_stores_links() {
    let mut m = store();
    let [v0, _, _, _] = four_vertices(&mut m);
    let h = m.new_halfedge(Some(v0), None, None);
    let g = m.new_halfedge(None, Some(h), Some(FaceID::new(0)));
    assert_eq!(m.halfedge(h).unwrap(), HalfEdge { vertex: Some(v0), twin: None, next: None, face: None });
    assert_eq!(
        m.halfedge(g).unwrap(),
        HalfEdge { vertex: None, twin: None, next: Some(h), face: Some(FaceID::new(0)) }
    );
    assert_eq!(m.num_halfedges(), 2);
}
