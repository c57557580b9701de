use engine_core::SparseSet;

#[test]
fn insert_then_get_returns_value() {
    let mut s: SparseSet<u32> = SparseSet::new();
    s.insert(3, 10);
    assert_eq!(s.get(3), Some(&10));
    assert_eq!(s.get(0), None);
    assert_eq!(s.len(), 1);
}

#[test]
fn insert_overwrites_in_place() {
    let mut s: SparseSet<u32> = SparseSet::new();
    s.insert(5, 1);
    s.insert(5, 2);
    assert_eq!(s.get(5), Some(&2));
    assert_eq!(s.len(), 1);
}

#[test]
fn remove_returns_whether_present() {
    let mut s: SparseSet<u32> = SparseSet::new();
    s.insert(1, 11);
    assert!(s.remove(1));
    assert!(!s.remove(1));
    assert_eq!(s.get(1), None);
}

#[test]
fn remove_middle_repairs_swapped_entry() {
    let mut s: SparseSet<u32> = SparseSet::new();
    s.insert(10, 100);
    s.insert(20, 200);
    s.insert(30, 300);
    // removing a non-last dense element moves the last one into its slot
    assert!(s.remove(10));
    assert_eq!(s.get(20), Some(&200));
    assert_eq!(s.get(30), Some(&300));
    assert_eq!(s.get(10), None);
    let ids = s.iter();
    assert_eq!(ids.len(), 2);
    assert!(ids.contains(&20));
    assert!(ids.contains(&30));
}

#[test]
fn get_mut_updates_stored_value() {
    let mut s: SparseSet<u32> = SparseSet::new();
    s.insert(7, 1);
    if let Some(v) = s.get_mut(7) {
        *v = 42;
    }
    assert_eq!(s.get(7), Some(&42));
    assert!(s.get_mut(8).is_none());
}

#[test]
fn iterate_yields_each_live_id_once() {
    let mut s: SparseSet<u32> = SparseSet::new();
    for id in [2usize, 4, 6, 8] {
        s.insert(id, id as u32);
    }
    s.remove(4);
    s.insert(10, 10);
    s.remove(8);
    let ids = s.iter();
    let mut sorted = ids.clone();
    sorted.sort();
    assert_eq!(sorted, vec![2, 6, 10]);
    // no duplicates
    let mut dedup = sorted.clone();
    dedup.dedup();
    assert_eq!(dedup, sorted);
}

#[test]
fn long_insert_remove_history() {
    let mut s: SparseSet<i64> = SparseSet::new();
    for i in 0..50usize {
        s.insert(i, i as i64 * 3);
    }
    for i in (0..50usize).step_by(2) {
        assert!(s.remove(i));
    }
    for i in 0..50usize {
        if i % 2 == 0 {
            assert_eq!(s.get(i), None);
        } else {
            assert_eq!(s.get(i), Some(&(i as i64 * 3)));
        }
    }
    assert_eq!(s.len(), 25);
}
