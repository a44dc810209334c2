use nodes_n_procs::base::common_types::rolling_deque::RollingDeque;
use nodes_n_procs::base::nodes::sampling::sample_history::{FullIndex, SampleHistory};
use nodes_n_procs::collections::bounded_deque::Deque;
use nodes_n_procs::collections::index_map::IndexMap;
use nodes_n_procs::collections::index_set::IndexSet;

#[test]
fn deque_pushes_and_pops_at_both_ends() {
    let mut d: Deque<u8, 3> = Deque::new();
    assert_eq!(d.capacity(), 3);
    d.push_back(2).unwrap();
    d.push_front(1).unwrap();
    d.push_back(3).unwrap();
    assert!(d.is_full());
    assert_eq!(d.push_back(4), Err(4));
    assert_eq!(d.get(1), Some(&2));
    assert_eq!(d.back(), Some(&3));
    assert_eq!(d.pop_front(), Some(1));
    assert_eq!(d.pop_back(), Some(3));
    assert_eq!(d.len(), 1);
}

#[test]
fn rolling_deque_drops_the_oldest() {
    let mut d: Deque<u8, 2> = Deque::new();
    assert_eq!(d.push_roll_forward(1), None);
    assert_eq!(d.push_roll_forward(2), None);
    assert_eq!(d.push_roll_forward(3), Some(1));
    assert_eq!(d.get(0), Some(&2));
    assert_eq!(d.get(1), Some(&3));
    assert_eq!(d.push_back_dropping(9), Some(3));
    assert_eq!(d.get(0), Some(&9));
    assert_eq!(d.get(1), Some(&2));
}

#[test]
fn index_set_keeps_each_value_once() {
    let mut s: IndexSet<4> = IndexSet::new();
    assert_eq!(s.insert(5), Ok(true));
    assert_eq!(s.insert(5), Ok(false));
    assert_eq!(s.insert(6), Ok(true));
    assert_eq!(s.insert(7), Ok(true));
    assert_eq!(s.len(), 3);
    assert_eq!(s.first(), Some(5));
    assert_eq!(s.position(7), Some(2));
    assert!(s.remove(5));
    assert!(!s.remove(5));
    assert_eq!(s.first(), Some(7));
    assert!(s.contains(6));
    assert!(!s.contains(5));
}

#[test]
fn index_set_refuses_past_its_capacity() {
    let mut s: IndexSet<2> = IndexSet::new();
    s.insert(1).unwrap();
    s.insert(2).unwrap();
    assert_eq!(s.insert(3), Err(3));
    assert_eq!(s.insert(2), Ok(false));
}

#[test]
fn index_map_stores_and_replaces() {
    let mut m: IndexMap<2> = IndexMap::new();
    assert_eq!(m.insert(1, 10), Ok(None));
    assert_eq!(m.insert(1, 11), Ok(Some(10)));
    assert_eq!(m.insert(2, 20), Ok(None));
    assert_eq!(m.insert(3, 30), Err((3, 30)));
    assert_eq!(m.get(1), Some(11));
    assert!(m.contains_key(2));
    assert_eq!(m.remove(1), Some(11));
    assert_eq!(m.remove(1), None);
    assert_eq!(m.len(), 1);
}

#[test]
fn sample_history_keeps_the_last_samples() {
    let mut h: SampleHistory<u32, 3> = SampleHistory::new();
    assert_eq!(h.len(), 0);
    for v in 0..5u32 {
        h.push_sample(v * 10);
    }
    assert_eq!(h.full_len(), 5);
    assert_eq!(h.len(), 3);
    assert_eq!(h.capacity(), 3);
    assert!(h.get_first_full_index() == FullIndex(2));
    assert!(h.get_last_full_index() == FullIndex(4));
    let s = h.get(1).unwrap();
    assert_eq!(*s.value, 30);
    assert!(s.index == FullIndex(3));
    assert!(h.get(0).is_none());
    assert!(h.get(-1).is_none());
    assert!(h.get(3).is_none());
}
