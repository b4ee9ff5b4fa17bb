use layuit::index::NodeIndex;
use layuit::traverse::{Traversal, Walk, WalkStep};
use layuit::traverse::WalkStep::{Enter, Leave};
use std::collections::HashMap;

fn idx(slot: u64) -> NodeIndex {
    NodeIndex::from_bits((1u64 << 32) | slot).unwrap()
}

// 0 -> [1, 2], 1 -> [3, 4], 2 -> [5]
fn tree() -> HashMap<NodeIndex, Vec<NodeIndex>> {
    let mut m = HashMap::new();
    m.insert(idx(0), vec![idx(1), idx(2)]);
    m.insert(idx(1), vec![idx(3), idx(4)]);
    m.insert(idx(2), vec![idx(5)]);
    m
}

fn children(m: &HashMap<NodeIndex, Vec<NodeIndex>>, n: NodeIndex) -> Vec<NodeIndex> {
    m.get(&n).cloned().unwrap_or_default()
}

#[test]
fn stack_traversal_matches_layout_visit_order() {
    let m = tree();
    let mut t = Traversal::new(idx(0), true);
    while let Some(v) = t.next() {
        t.expand(children(&m, v));
    }
    assert!(t.is_done());
    let order = t.into_visited();
    // Last listed child first, depth first.
    assert_eq!(order, vec![idx(0), idx(2), idx(5), idx(1), idx(4), idx(3)]);
    // In reverse, every node comes after its children.
    let rev: Vec<_> = order.iter().rev().copied().collect();
    for (parent, kids) in &m {
        let p = rev.iter().position(|x| x == parent).unwrap();
        for k in kids {
            assert!(rev.iter().position(|x| x == k).unwrap() < p);
        }
    }
}

#[test]
fn queue_traversal_matches_removal_order() {
    let m = tree();
    let mut t = Traversal::new(idx(0), false);
    while let Some(v) = t.next() {
        t.expand(children(&m, v));
    }
    assert_eq!(
        t.visited_nodes().clone(),
        vec![idx(0), idx(1), idx(2), idx(3), idx(4), idx(5)]
    );
}

#[test]
fn expand_before_visiting_does_nothing() {
    let mut t = Traversal::new(idx(0), true);
    t.expand(vec![idx(1)]);
    assert_eq!(t.next(), Some(idx(0)));
    assert_eq!(t.next(), None);
    assert_eq!(t.into_visited(), vec![idx(0)]);
}

#[test]
fn walk_enters_and_leaves_each_subtree() {
    let m = tree();
    let mut w = Walk::new(idx(0));
    let mut steps = Vec::new();
    while let Some(s) = w.step() {
        if let WalkStep::Enter(n) = s {
            w.set_children(children(&m, n));
        }
        steps.push(s);
    }
    assert_eq!(
        steps,
        vec![
            Enter(idx(0)),
            Enter(idx(1)),
            Enter(idx(3)),
            Leave(idx(3)),
            Enter(idx(4)),
            Leave(idx(4)),
            Leave(idx(1)),
            Enter(idx(2)),
            Enter(idx(5)),
            Leave(idx(5)),
            Leave(idx(2)),
            Leave(idx(0)),
        ]
    );
    assert_eq!(w.step(), None);
}

#[test]
fn walk_prunes_nodes_without_children() {
    let m = tree();
    let mut w = Walk::new(idx(0));
    let mut entered = Vec::new();
    while let Some(s) = w.step() {
        if let WalkStep::Enter(n) = s {
            entered.push(n);
            if n != idx(1) {
                w.set_children(children(&m, n));
            }
        }
    }
    assert_eq!(entered, vec![idx(0), idx(1), idx(2), idx(5)]);
}
