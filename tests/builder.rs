use tri_mesh::mesh_builder::{cylinder_indices, resolve_indices, Error};

#[test]
fn missing_positions_is_an_error() {
    match resolve_indices(Some(vec![0, 1, 2]), None) {
        Err(Error::NoPositionsSpecified { message }) => {
            assert_eq!(message, "Did you forget to specify the vertex positions?")
        }
        Ok(_) => panic!("expected an error"),
    }
    assert!(resolve_indices(None, None).is_err());
}

#[test]
fn given_indices_are_kept() {
    let r = resolve_indices(Some(vec![0, 1, 2, 0, 2, 3, 0, 3, 1]), Some(12)).unwrap();
    assert_eq!(r, vec![0, 1, 2, 0, 2, 3, 0, 3, 1]);
}

#[test]
fn default_indices_number_the_vertices() {
    assert_eq!(resolve_indices(None, Some(27)).unwrap(), (0..9).collect::<Vec<u32>>());
    assert_eq!(resolve_indices(None, Some(8)).unwrap(), vec![0, 1]);
    assert_eq!(resolve_indices(None, Some(0)).unwrap(), Vec::<u32>::new());
}

#[test]
fn cylinder_indices_of_one_segment() {

    assert_eq!(
        cylinder_indices(1, 3),
        vec![0, 1, 4, 0, 4, 3, 1, 2, 5, 1, 5, 4, 2, 0, 3, 2, 3, 5]
    );
}

#[test]
fn cylinder_indices_count_two_triangles_per_quad() {

    let r = cylinder_indices(4, 5);
    assert_eq!(r.len(), 6 * 4 * 5);
    assert!(r.iter().all(|&i| i < 5 * 5));
    assert_eq!(&r[r.len() - 6..], &[19, 15, 20, 19, 20, 24]);
    assert!(cylinder_indices(0, 7).is_empty());
    assert!(cylinder_indices(3, 0).is_empty());
}
