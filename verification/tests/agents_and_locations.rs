use std::collections::HashMap;

use rust_ab::agentimpl::{Agent, AgentImpl, IdAllocator};
use rust_ab::engine::location::Int2D;

#[derive(Clone)]
struct Walker {
    home: Int2D,
}

impl Agent for Walker {
    fn step(&self) {
        // A real agent would act on its surroundings here; this one only
        // needs to exist.
        let _ = self.home;
    }
}

#[test]
fn identifiers_are_issued_in_order() {
    let mut ids = IdAllocator::new();
    let first = AgentImpl::new(Walker { home: Int2D { x: 0, y: 0 } }, &mut ids);
    let second = AgentImpl::new(Walker { home: Int2D { x: 1, y: 1 } }, &mut ids);
    let third = AgentImpl::new(Walker { home: Int2D { x: 2, y: 2 } }, &mut ids);
    assert_eq!(first.id, 1);
    assert_eq!(second.id, 2);
    assert_eq!(third.id, 3);
    assert!(!first.repeating);
    assert_eq!(third.clone().id(), 3);
}

#[test]
fn separate_allocators_are_independent() {
    let mut a = IdAllocator::new();
    let mut b = IdAllocator::new();
    assert_eq!(AgentImpl::new(Walker { home: Int2D { x: 0, y: 0 } }, &mut a).id, 1);
    assert_eq!(AgentImpl::new(Walker { home: Int2D { x: 0, y: 0 } }, &mut b).id, 1);
    assert_eq!(AgentImpl::new(Walker { home: Int2D { x: 0, y: 0 } }, &mut a).id, 2);
}

#[test]
fn agents_compare_by_identity() {
    let mut ids = IdAllocator::new();
    let one = AgentImpl::new(Walker { home: Int2D { x: 0, y: 0 } }, &mut ids);
    let mut other = one.clone();
    other.repeating = true;
    // Same identity, different payload: still equal.
    assert_eq!(one == other, true);
    let two = AgentImpl::new(Walker { home: Int2D { x: 0, y: 0 } }, &mut ids);
    assert_eq!(one == two, false);
    one.step();
}

#[test]
fn int2d_equality_and_hashing() {
    let a = Int2D { x: 3, y: -4 };
    let b = Int2D { x: 3, y: -4 };
    let c = Int2D { x: 3, y: 4 };
    assert_eq!(a, b);
    assert_ne!(a, c);
    let mut grid: HashMap<Int2D, u32> = HashMap::new();
    grid.insert(a, 7);
    assert_eq!(grid.get(&b), Some(&7));
    assert_eq!(grid.get(&c), None);
}
