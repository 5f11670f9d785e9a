use tri_mesh::mesh::id_map::IDMap;
use tri_mesh::mesh::ids::{VertexID, ID};

#[test]
fn insert_appends_then_reuses_last_freed() {
    let mut a: IDMap<VertexID, i64> = IDMap::with_capacity(4);
    let k0 = a.insert_new(10).unwrap();
    let k1 = a.insert_new(11).unwrap();
    let k2 = a.insert_new(12).unwrap();
    assert_eq!((k0.deref(), k1.deref(), k2.deref()), (0, 1, 2));
    a.remove(k0);
    a.remove(k2);
    assert_eq!(a.insert_new(20), Some(k2));
    assert_eq!(a.insert_new(21), Some(k0));
    assert_eq!(a.insert_new(22).unwrap().deref(), 3);
    assert_eq!(a.get(k0), Some(&21));
    assert_eq!(a.get(k2), Some(&20));
}

#[test]
fn len_is_inserts_minus_removes() {
    let mut a: IDMap<VertexID, i64> = IDMap::with_capacity(0);
    assert_eq!(a.len(), 0);
    let mut keys = Vec::new();
    for i in 0..6 {
        keys.push(a.insert_new(i).unwrap());
    }
    a.remove(keys[1]);
    a.remove(keys[4]);
    assert_eq!(a.len(), 6 - 2);
    a.insert_new(100).unwrap();
    assert_eq!(a.len(), 7 - 2);
    a.remove(keys[0]);
    assert_eq!(a.len(), 7 - 3);
}

#[test]
fn double_remove_is_ignored() {
    let mut a: IDMap<VertexID, i64> = IDMap::with_capacity(0);
    let k0 = a.insert_new(1).unwrap();
    let k1 = a.insert_new(2).unwrap();
    a.remove(k0);
    a.remove(k0);
    assert_eq!(a.len(), 1);
    assert_eq!(a.insert_new(3), Some(k0));
    assert_eq!(a.insert_new(4).unwrap().deref(), 2);
    assert_eq!(a.len(), 3);
    a.remove(VertexID::new(9));
    assert_eq!(a.len(), 3);
    assert!(a.contains(k1));
}

#[test]
fn get_past_the_end_is_none() {
    let mut a: IDMap<VertexID, i64> = IDMap::with_capacity(0);
    let k = a.insert_new(5).unwrap();
    assert_eq!(a.get(k), Some(&5));
    assert_eq!(a.get(VertexID::new(1)), None);
    assert!(a.get_mut(VertexID::new(1)).is_none());
}

#[test]
fn get_mut_writes_the_slot() {
    let mut a: IDMap<VertexID, i64> = IDMap::with_capacity(0);
    let k = a.insert_new(5).unwrap();
    *a.get_mut(k).unwrap() = 8;
    assert_eq!(a.get(k), Some(&8));
}

#[test]
fn freed_slot_keeps_its_data() {
    let mut a: IDMap<VertexID, i64> = IDMap::with_capacity(0);
    let k = a.insert_new(5).unwrap();
    a.remove(k);
    assert!(!a.contains(k));
    assert_eq!(a.get(k), Some(&5));
}

#[test]
fn iter_lists_live_handles_ascending() {
    let mut a: IDMap<VertexID, i64> = IDMap::with_capacity(0);
    let keys: Vec<VertexID> = (0..5).map(|i| a.insert_new(i).unwrap()).collect();
    a.remove(keys[3]);
    a.remove(keys[0]);
    let live: Vec<u32> = a.iter().iter().map(|k| k.deref()).collect();
    assert_eq!(live, vec![1, 2, 4]);
    assert_eq!(a.iter().len(), a.len());
    a.insert_new(9).unwrap();
    let live: Vec<u32> = a.iter().iter().map(|k| k.deref()).collect();
    assert_eq!(live, vec![0, 1, 2, 4]);
}
