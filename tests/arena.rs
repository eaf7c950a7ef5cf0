use std::collections::HashSet;

use monty::{Edge, GameState, Node, NodePtr, Tree, TreeHalf};

#[test]
fn pointer_round_trip() {
    let p = NodePtr::new(true, 12345);
    assert!(p.half());
    assert_eq!(p.idx(), 12345);
    assert!(!p.is_null());
    let q = NodePtr::new(false, 0);
    assert!(!q.half());
    assert_eq!(q.idx(), 0);
    assert_ne!(p, q);
}

#[test]
fn null_differs_from_every_real_pointer() {
    let n = NodePtr::null();
    assert!(n.is_null());
    assert_ne!(n, NodePtr::new(true, 0x7FFF_FFFE));
    assert_ne!(n, NodePtr::new(false, 0x7FFF_FFFE));
    assert_ne!(n, NodePtr::new(true, 0));
}

#[test]
fn sequential_allocations_cover_prefix() {
    let mut h = TreeHalf::new(16, false);
    for i in 0..10usize {
        let p = h.push_new(GameState::Ongoing);
        assert!(!p.is_null());
        assert!(!p.half());
        assert_eq!(p.idx(), i);
    }
    assert_eq!(h.used(), 10);
    assert!(!h.is_full());
    assert!(!h.is_empty());
}

#[test]
fn exhaustion_returns_null_and_keeps_count() {
    let mut h = TreeHalf::new(4, true);
    for _ in 0..4 {
        assert!(!h.push_new(GameState::Drawn).is_null());
    }
    assert!(h.is_full());
    assert!(h.push_new(GameState::Drawn).is_null());
    assert!(h.push_new(GameState::Drawn).is_null());
    assert_eq!(h.used(), 4);
}

#[test]
fn zero_capacity_half_is_full_at_once() {
    let mut h = TreeHalf::new(0, false);
    assert!(h.is_empty());
    assert!(h.is_full());
    assert!(h.push_new(GameState::Ongoing).is_null());
    assert_eq!(h.used(), 0);
}

#[test]
fn reinitialised_slot_shows_no_old_edges() {
    let mut h = TreeHalf::new(2, false);
    let p = h.push_new(GameState::Ongoing);
    h.push_edge(p, Edge::new(11, 5));
    h.push_edge(p, Edge::new(12, 7));
    assert_eq!(h.node(p).num_edges(), 2);
    h.clear();
    assert!(h.is_empty());
    let q = h.push_new(GameState::Won);
    assert_eq!(q, p);
    assert_eq!(h.node(q).state(), GameState::Won);
    assert_eq!(h.node(q).num_edges(), 0);
    assert!(h.node(q).edges().is_empty());
}

#[test]
fn sweep_nulls_only_edges_into_other_half() {
    let mut h = TreeHalf::new(3, true);
    let p = h.push_new(GameState::Ongoing);
    let away = NodePtr::new(false, 2);
    let within = NodePtr::new(true, 1);
    h.push_edge(p, Edge::new(1, 0));
    h.push_edge(p, Edge::new(2, 0));
    h.push_edge(p, Edge::new(3, 0));
    h.set_edge_ptr(p, 0, away);
    h.set_edge_ptr(p, 1, within);
    h.clear_ptrs();
    let edges = h.node(p).edges();
    assert!(edges[0].ptr.is_null());
    assert_eq!(edges[0].mov, 1);
    assert_eq!(edges[1].ptr, within);
    assert!(edges[2].ptr.is_null());
    assert_eq!(h.used(), 1);
}

#[test]
fn sweep_in_lower_half_keeps_null_and_local_edges() {
    let mut h = TreeHalf::new(2, false);
    let p = h.push_new(GameState::Ongoing);
    h.push_edge(p, Edge::new(1, 0));
    h.push_edge(p, Edge::new(2, 0));
    h.push_edge(p, Edge::new(3, 0));
    h.set_edge_ptr(p, 0, NodePtr::new(false, 1));
    h.set_edge_ptr(p, 1, NodePtr::new(true, 0));
    h.clear_ptrs();
    let edges = h.node(p).edges();
    assert_eq!(edges[0].ptr, NodePtr::new(false, 1));
    assert!(edges[1].ptr.is_null());
    assert!(edges[2].ptr.is_null());
}

#[test]
fn edge_statistics_accumulate() {
    let mut h = TreeHalf::new(1, false);
    let p = h.push_new(GameState::Ongoing);
    h.push_edge(p, Edge::new(9, 100));
    let mut e = h.node(p).edges()[0];
    assert_eq!(e.visits, 0);
    e.update(50);
    e.update(-20);
    assert_eq!(e.visits, 2);
    assert_eq!(e.total, 30);
    assert_eq!(e.policy, 100);
    assert_eq!(e.mov, 9);
}

#[test]
fn many_allocations_are_distinct() {
    let mut h = TreeHalf::new(100_000, false);
    let mut seen = HashSet::new();
    for _worker in 0..8 {
        for _ in 0..10_000 {
            let p = h.push_new(GameState::Ongoing);
            assert!(!p.is_null());
            assert!(seen.insert(p));
        }
    }
    assert_eq!(h.used(), 80_000);
    assert_eq!(seen.len(), 80_000);
}

#[test]
fn flip_severs_edge_into_recycled_half() {
    let mut t = Tree::new(4);
    assert!(!t.active_half());
    let b = t.push_new(GameState::Ongoing);
    assert!(!b.half());
    t.flip();
    assert!(t.active_half());
    let a = t.push_new(GameState::Ongoing);
    assert!(a.half());
    t.push_edge(a, Edge::new(7, 0));
    t.set_edge_ptr(a, 0, b);
    assert_eq!(t.node(a).edges()[0].ptr, b);
    t.flip();
    assert!(!t.active_half());
    assert!(t.node(a).edges()[0].ptr.is_null());
    assert!(t.half(false).is_empty());
    assert_eq!(t.half(false).used(), 0);
    assert_eq!(t.half(true).used(), 1);
}

#[test]
fn live_storage_stays_within_two_halves() {
    let cap = 8usize;
    let mut t = Tree::new(cap);
    for round in 0..50 {
        loop {
            let p = t.push_new(GameState::Ongoing);
            if p.is_null() {
                break;
            }
            assert!(t.used() <= 2 * cap);
        }
        assert!(t.is_full());
        assert!(t.used() <= 2 * cap);
        t.flip();
        assert!(t.used() <= cap, "round {}", round);
        assert_eq!(t.half(false).capacity() + t.half(true).capacity(), 2 * cap);
    }
}

#[test]
fn reset_then_refill_reinitialises_every_slot() {
    let mut h = TreeHalf::new(3, true);
    for _ in 0..3 {
        let p = h.push_new(GameState::Lost);
        h.push_edge(p, Edge::new(4, 1));
    }
    h.clear();
    let p0 = h.push_new(GameState::Drawn);
    let p1 = h.push_new(GameState::Drawn);
    assert_eq!(p0.idx(), 0);
    assert_eq!(p1.idx(), 1);
    assert!(p0.half() && p1.half());
    assert_eq!(h.node(p0).num_edges(), 0);
    assert_eq!(h.node(p1).state(), GameState::Drawn);
    let untouched = NodePtr::new(true, 2);
    assert_eq!(h.node(untouched).num_edges(), 1);
    assert_eq!(h.node(untouched).state(), GameState::Lost);
}

#[test]
fn backpropagation_through_tree() {
    let mut t = Tree::new(2);
    let root = t.push_new(GameState::Ongoing);
    let child = t.push_new(GameState::Won);
    t.push_edge(root, Edge::new(3, 10));
    t.set_edge_ptr(root, 0, child);
    t.update_edge(root, 0, 1000);
    t.update_edge(root, 0, -400);
    let e = t.node(root).edges()[0];
    assert_eq!(e.visits, 2);
    assert_eq!(e.total, 600);
    assert_eq!(e.ptr, child);
    assert_eq!(t.node(child).state(), GameState::Won);
    assert_eq!(t.used(), 2);
    assert!(t.is_full());
    assert!(t.push_new(GameState::Ongoing).is_null());
    assert_eq!(t.used(), 2);
}

#[test]
fn node_slot_reset_in_place() {
    let mut n = Node::new(GameState::Ongoing);
    n.push_edge(Edge::new(1, 2));
    n.set_edge_ptr(0, NodePtr::new(false, 5));
    n.update_edge(0, 7);
    assert_eq!(n.edges()[0].visits, 1);
    n.set_state(GameState::Drawn);
    assert_eq!(n.state(), GameState::Drawn);
    n.set_new(GameState::Won);
    assert_eq!(n.state(), GameState::Won);
    assert_eq!(n.num_edges(), 0);
}

#[test]
fn sever_keeps_edges_of_own_half() {
    let mut n = Node::new(GameState::Ongoing);
    n.push_edge(Edge::new(1, 0));
    n.push_edge(Edge::new(2, 0));
    n.set_edge_ptr(0, NodePtr::new(true, 3));
    n.set_edge_ptr(1, NodePtr::new(false, 3));
    n.sever(true);
    assert_eq!(n.edges()[0].ptr, NodePtr::new(true, 3));
    assert!(n.edges()[1].ptr.is_null());
}
