use vnbase::timer_heap::{TimedActionBinaryHeap, TimedActionNode};

#[test]
fn node_starts_at_zero() {
    let n = TimedActionNode::new();
    assert_eq!(n.time, 0);
    assert_eq!(n.index, 0);
}

#[test]
fn peek_returns_earliest_due() {
    let mut h = TimedActionBinaryHeap::new();
    let ids: Vec<usize> = (0..6).map(|_| h.new_node()).collect();
    assert_eq!(ids, vec![0, 1, 2, 3, 4, 5]);
    let times = [50u64, 20, 40, 10, 60, 30];
    for (id, t) in times.iter().enumerate() {
        h.push(id, *t);
    }
    assert_eq!(h.peek_time(), Some(10));
    assert_eq!(h.peek(9), None);
    assert_eq!(h.peek(10), Some(3));
    let mut order = Vec::new();
    while let Some(id) = h.peek(u64::MAX) {
        order.push(id);
        h.remove(id);
    }
    assert_eq!(order, vec![3, 1, 5, 2, 0, 4]);
    assert!(h.is_empty());
    assert_eq!(h.peek_time(), None);
}

#[test]
fn adjust_moves_both_ways() {
    let mut h = TimedActionBinaryHeap::new();
    for _ in 0..4 {
        h.new_node();
    }
    h.push(0, 10);
    h.push(1, 20);
    h.push(2, 30);
    h.push(3, 40);
    h.adjust(3, 5);
    assert_eq!(h.peek(100), Some(3));
    h.adjust(3, 50);
    assert_eq!(h.peek(100), Some(0));
    h.adjust(0, 45);
    assert_eq!(h.peek(100), Some(1));
    assert_eq!(h.peek_time(), Some(20));
}

#[test]
fn remove_from_middle_keeps_order() {
    let mut h = TimedActionBinaryHeap::new();
    for _ in 0..7 {
        h.new_node();
    }
    let times = [1u64, 10, 2, 11, 12, 3, 4];
    for (id, t) in times.iter().enumerate() {
        h.push(id, *t);
    }
    h.remove(3);
    assert!(!h.contains(3));
    assert!(h.contains(6));
    let mut order = Vec::new();
    while let Some(id) = h.peek(u64::MAX) {
        order.push(times[id]);
        h.remove(id);
    }
    assert_eq!(order, vec![1, 2, 3, 4, 10, 12]);
}
