use com_impl::descriptor::{
    root_interface_id, validate_chain, InterfaceDescriptor, InterfaceId, MethodSlot, QUERY_SIG,
    RELEASE_SIG, RETAIN_SIG,
};
use com_impl::object::{ComArena, QueryError};
use com_impl::vtable::{build_vtable, EntryPoint, VTableLayout};
use std::sync::Arc;

fn root_descriptor() -> InterfaceDescriptor {
    InterfaceDescriptor {
        id: root_interface_id(),
        parent: None,
        methods: vec![
            MethodSlot { sig: QUERY_SIG },
            MethodSlot { sig: RETAIN_SIG },
            MethodSlot { sig: RELEASE_SIG },
        ],
    }
}

fn iface(id: u128, parent: u128, sigs: &[u64]) -> InterfaceDescriptor {
    InterfaceDescriptor {
        id: InterfaceId { value: id },
        parent: Some(InterfaceId { value: parent }),
        methods: sigs.iter().map(|s| MethodSlot { sig: *s }).collect(),
    }
}

fn iface_below_root(id: u128, sigs: &[u64]) -> InterfaceDescriptor {
    InterfaceDescriptor {
        id: InterfaceId { value: id },
        parent: Some(root_interface_id()),
        methods: sigs.iter().map(|s| MethodSlot { sig: *s }).collect(),
    }
}

/// Layout for the chain root -> A (ids 10) -> B (id 11): A has two own
/// methods, B three, bound to distinct entry addresses 100..=104.
fn three_level_layout() -> VTableLayout {
    let chain = validate_chain(vec![
        root_descriptor(),
        iface_below_root(10, &[1, 2]),
        iface(11, 10, &[3, 4, 5]),
    ])
    .unwrap();
    let bindings = vec![
        vec![
            EntryPoint { addr: 100, sig: 1 },
            EntryPoint { addr: 101, sig: 2 },
        ],
        vec![
            EntryPoint { addr: 102, sig: 3 },
            EntryPoint { addr: 103, sig: 4 },
            EntryPoint { addr: 104, sig: 5 },
        ],
    ];
    build_vtable(&chain, &bindings).unwrap()
}

#[test]
fn initial_count_is_one() {
    let mut arena: ComArena<u64> = ComArena::new();
    let h = arena.construct(Arc::new(three_level_layout()), 7);
    assert_eq!(arena.ref_count(h), 1);
}

#[test]
fn retain_then_release_restores_count() {
    let mut arena: ComArena<u64> = ComArena::new();
    let h = arena.construct(Arc::new(three_level_layout()), 7);
    let before = arena.ref_count(h);
    assert_eq!(arena.retain(h), before + 1);
    assert_eq!(arena.release(h), before);
    // Not deallocated: the object still answers.
    assert_eq!(arena.ref_count(h), before);
}

#[test]
fn final_release_deallocates_and_returns_zero() {
    let mut arena: ComArena<u64> = ComArena::new();
    let h = arena.construct(Arc::new(three_level_layout()), 7);
    assert_eq!(arena.ref_count(h), 1);
    assert_eq!(arena.release(h), 0);
}

#[test]
fn query_succeeds_for_every_id_in_chain() {
    let mut arena: ComArena<u64> = ComArena::new();
    let h = arena.construct(Arc::new(three_level_layout()), 7);

    let r_root = arena.query(h, root_interface_id()).unwrap();
    assert_eq!(arena.ref_count(h), 2);
    assert_eq!(r_root.depth, 0);

    let r_a = arena.query(h, InterfaceId { value: 10 }).unwrap();
    assert_eq!(arena.ref_count(h), 3);
    assert_eq!(r_a.depth, 1);

    let r_b = arena.query(h, InterfaceId { value: 11 }).unwrap();
    assert_eq!(arena.ref_count(h), 4);
    assert_eq!(r_b.depth, 2);

    // Slot 3 (A's first own method) resolves to the same entry point
    // through every alias that exposes it, the constructed one included.
    let primary = arena.primary_ref(h);
    let via_primary = arena.dispatch(primary, 3);
    let via_a = arena.dispatch(r_a, 3);
    let via_b = arena.dispatch(r_b, 3);
    assert_eq!(via_primary, via_a);
    assert_eq!(via_a, via_b);
    assert_eq!(via_a.addr, 100);
}

#[test]
fn query_unknown_id_is_not_supported_and_changes_nothing() {
    let mut arena: ComArena<u64> = ComArena::new();
    let h = arena.construct(Arc::new(three_level_layout()), 7);
    let r = arena.query(h, InterfaceId { value: 999 });
    assert_eq!(r, Err(QueryError::NotSupported));
    assert_eq!(arena.ref_count(h), 1);
}

#[test]
fn balanced_retains_and_releases_leave_count_at_one() {
    let mut arena: ComArena<u64> = ComArena::new();
    let h = arena.construct(Arc::new(three_level_layout()), 7);
    // One interleaving of eight retain/release pairs, each release
    // after its retain, as concurrent callers would produce.
    let n = 8;
    let mut pending = 0;
    for i in 0..(2 * n) {
        if i % 3 != 1 && pending < n {
            arena.retain(h);
            pending += 1;
        } else {
            arena.release(h);
            pending -= 1;
        }
    }
    // Drain whatever is still retained.
    while pending > 0 {
        arena.release(h);
        pending -= 1;
    }
    assert_eq!(arena.ref_count(h), 1);
    // One additional release deallocates.
    assert_eq!(arena.release(h), 0);
}

#[test]
fn end_to_end_two_level_object() {
    // Construct an object of a type implementing root -> A.
    let chain = validate_chain(vec![root_descriptor(), iface_below_root(10, &[1, 2])]).unwrap();
    let bindings = vec![vec![
        EntryPoint { addr: 700, sig: 1 },
        EntryPoint { addr: 701, sig: 2 },
    ]];
    let layout = build_vtable(&chain, &bindings).unwrap();
    let mut arena: ComArena<u64> = ComArena::new();
    let h = arena.construct(Arc::new(layout), 12345);

    // Method slot 0 of A sits right after the three root slots and is
    // bound to the expected entry point.
    let primary = arena.primary_ref(h);
    assert_eq!(primary.iface, InterfaceId { value: 10 });
    let entry = arena.dispatch(primary, 3);
    assert_eq!(entry.addr, 700);

    // Query for the root succeeds and bumps the count to two.
    let r = arena.query(h, root_interface_id());
    assert!(r.is_ok());
    assert_eq!(arena.ref_count(h), 2);

    // Release twice: deallocation exactly on the second call.
    assert_eq!(arena.release(h), 1);
    assert_eq!(arena.release(h), 0);
}

#[test]
fn handles_are_independent() {
    let mut arena: ComArena<u64> = ComArena::new();
    let h1 = arena.construct(Arc::new(three_level_layout()), 1);
    let h2 = arena.construct(Arc::new(three_level_layout()), 2);
    arena.retain(h1);
    assert_eq!(arena.ref_count(h1), 2);
    assert_eq!(arena.ref_count(h2), 1);
    assert_eq!(arena.release(h2), 0);
    assert_eq!(arena.ref_count(h1), 2);
}
