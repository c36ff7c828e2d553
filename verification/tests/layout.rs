use com_impl::descriptor::{
    flattened_slots, root_interface_id, validate_chain, ChainError, InterfaceDescriptor,
    InterfaceId, MethodSlot, QUERY_SIG, RELEASE_SIG, RETAIN_SIG,
};
use com_impl::object::ComArena;
use com_impl::registry::VTableRegistry;
use com_impl::vtable::{
    build_vtable, EntryPoint, VTableError, VTableLayout, QUERY_ENTRY_ADDR, RELEASE_ENTRY_ADDR,
    RETAIN_ENTRY_ADDR,
};
use com_impl::ComInterface;
use std::sync::Arc;

fn root_descriptor() -> InterfaceDescriptor {
    InterfaceDescriptor {
        id: root_interface_id(),
        parent: None,
        methods: vec![
            MethodSlot { sig: QUERY_SIG },
            MethodSlot { sig: RETAIN_SIG },
            MethodSlot { sig: RELEASE_SIG },
        ],
    }
}

fn iface(id: u128, parent: u128, sigs: &[u64]) -> InterfaceDescriptor {
    InterfaceDescriptor {
        id: InterfaceId { value: id },
        parent: Some(InterfaceId { value: parent }),
        methods: sigs.iter().map(|s| MethodSlot { sig: *s }).collect(),
    }
}

fn iface_below_root(id: u128, sigs: &[u64]) -> InterfaceDescriptor {
    InterfaceDescriptor {
        id: InterfaceId { value: id },
        parent: Some(root_interface_id()),
        methods: sigs.iter().map(|s| MethodSlot { sig: *s }).collect(),
    }
}

fn a_bindings() -> Vec<EntryPoint> {
    vec![
        EntryPoint { addr: 100, sig: 1 },
        EntryPoint { addr: 101, sig: 2 },
    ]
}

fn b_bindings() -> Vec<EntryPoint> {
    vec![
        EntryPoint { addr: 102, sig: 3 },
        EntryPoint { addr: 103, sig: 4 },
        EntryPoint { addr: 104, sig: 5 },
    ]
}

#[test]
fn three_level_layout_has_exact_offsets() {
    let chain = validate_chain(vec![
        root_descriptor(),
        iface_below_root(10, &[1, 2]),
        iface(11, 10, &[3, 4, 5]),
    ])
    .unwrap();
    let layout = build_vtable(&chain, &vec![a_bindings(), b_bindings()]).unwrap();

    // Root's three slots at offsets 0..=2, A's two at 3..=4, B's three
    // at 5..=7.
    assert_eq!(layout.slots.len(), 8);
    assert_eq!(layout.slots[0].addr, QUERY_ENTRY_ADDR);
    assert_eq!(layout.slots[1].addr, RETAIN_ENTRY_ADDR);
    assert_eq!(layout.slots[2].addr, RELEASE_ENTRY_ADDR);
    assert_eq!(layout.slots[3].addr, 100);
    assert_eq!(layout.slots[4].addr, 101);
    assert_eq!(layout.slots[5].addr, 102);
    assert_eq!(layout.slots[6].addr, 103);
    assert_eq!(layout.slots[7].addr, 104);

    // Chain metadata: visibility grows with depth.
    assert_eq!(layout.chain.len(), 3);
    assert_eq!(layout.chain[0].visible, 3);
    assert_eq!(layout.chain[1].visible, 5);
    assert_eq!(layout.chain[2].visible, 8);
}

#[test]
fn ancestor_layout_is_a_prefix_of_the_derived_layout() {
    let full_chain = validate_chain(vec![
        root_descriptor(),
        iface_below_root(10, &[1, 2]),
        iface(11, 10, &[3, 4, 5]),
    ])
    .unwrap();
    let full = build_vtable(&full_chain, &vec![a_bindings(), b_bindings()]).unwrap();

    let a_chain =
        validate_chain(vec![root_descriptor(), iface_below_root(10, &[1, 2])]).unwrap();
    let a_layout = build_vtable(&a_chain, &vec![a_bindings()]).unwrap();

    // B's layout reinterpreted as A's exposes exactly offsets 0..=4,
    // all correct.
    assert_eq!(a_layout.slots.len(), 5);
    assert_eq!(&full.slots[..5], &a_layout.slots[..]);

    // Through the runtime: an alias typed as A sees five slots, each
    // dispatching to the same entry as the full layout.
    let mut arena: ComArena<u64> = ComArena::new();
    let h = arena.construct(Arc::new(full), 0);
    let a_ref = arena.query(h, InterfaceId { value: 10 }).unwrap();
    for k in 0..5 {
        let via_a = arena.dispatch(a_ref, k);
        let via_b = arena.dispatch(arena.primary_ref(h), k);
        assert_eq!(via_a, via_b);
        assert_eq!(via_a, a_layout.slots[k]);
    }
}

#[test]
fn flattened_slots_lists_root_then_each_interface() {
    let chain = validate_chain(vec![
        root_descriptor(),
        iface_below_root(10, &[1, 2]),
        iface(11, 10, &[3, 4, 5]),
    ])
    .unwrap();
    let flat = flattened_slots(&chain);
    let sigs: Vec<u64> = flat.iter().map(|m| m.sig).collect();
    assert_eq!(sigs, vec![QUERY_SIG, RETAIN_SIG, RELEASE_SIG, 1, 2, 3, 4, 5]);
}

#[test]
fn empty_chain_is_malformed() {
    let r = validate_chain(vec![]);
    assert_eq!(r.unwrap_err(), ChainError::MalformedChain);
}

#[test]
fn chain_without_root_first_is_malformed() {
    let r = validate_chain(vec![iface_below_root(10, &[1])]);
    assert_eq!(r.unwrap_err(), ChainError::MalformedChain);
}

#[test]
fn chain_with_wrong_parent_link_is_malformed() {
    // B claims id 99 as parent, but the preceding element is A (id 10).
    let r = validate_chain(vec![
        root_descriptor(),
        iface_below_root(10, &[1, 2]),
        iface(11, 99, &[3]),
    ]);
    assert_eq!(r.unwrap_err(), ChainError::MalformedChain);
}

#[test]
fn chain_with_parentless_link_is_malformed() {
    let orphan = InterfaceDescriptor {
        id: InterfaceId { value: 10 },
        parent: None,
        methods: vec![MethodSlot { sig: 1 }],
    };
    let r = validate_chain(vec![root_descriptor(), orphan]);
    assert_eq!(r.unwrap_err(), ChainError::MalformedChain);
}

#[test]
fn root_with_wrong_slots_is_malformed() {
    let mut bad_root = root_descriptor();
    bad_root.methods.pop();
    let r = validate_chain(vec![bad_root]);
    assert_eq!(r.unwrap_err(), ChainError::MalformedChain);
}

#[test]
fn too_few_entry_points_is_missing_method_binding() {
    let chain = validate_chain(vec![root_descriptor(), iface_below_root(10, &[1, 2])]).unwrap();
    // A declares two slots; only one entry point supplied.
    let r = build_vtable(&chain, &vec![vec![EntryPoint { addr: 100, sig: 1 }]]);
    assert_eq!(r.unwrap_err(), VTableError::MissingMethodBinding);
}

#[test]
fn missing_binding_list_is_missing_method_binding() {
    let chain = validate_chain(vec![root_descriptor(), iface_below_root(10, &[1, 2])]).unwrap();
    let r = build_vtable(&chain, &vec![]);
    assert_eq!(r.unwrap_err(), VTableError::MissingMethodBinding);
}

#[test]
fn wrong_entry_shape_is_signature_mismatch() {
    let chain = validate_chain(vec![root_descriptor(), iface_below_root(10, &[1, 2])]).unwrap();
    let r = build_vtable(
        &chain,
        &vec![vec![
            EntryPoint { addr: 100, sig: 1 },
            EntryPoint { addr: 101, sig: 9 },
        ]],
    );
    assert_eq!(r.unwrap_err(), VTableError::SignatureMismatch);
}

#[test]
fn registry_builds_each_type_exactly_once() {
    let mut reg = VTableRegistry::new();
    let chain = validate_chain(vec![root_descriptor(), iface_below_root(10, &[1, 2])]).unwrap();

    let first = reg.get_or_build(42, &chain, &vec![a_bindings()]).unwrap();
    assert_eq!(reg.entries.len(), 1);

    // A second request for the same key reuses the stored layout even
    // if different bindings are offered: built once, shared after.
    let other_bindings = vec![vec![
        EntryPoint { addr: 900, sig: 1 },
        EntryPoint { addr: 901, sig: 2 },
    ]];
    let second = reg.get_or_build(42, &chain, &other_bindings).unwrap();
    assert_eq!(reg.entries.len(), 1);
    assert_eq!(first.slots, second.slots);
    assert_eq!(second.slots[3].addr, 100);

    // A different key gets its own entry.
    let third = reg.get_or_build(43, &chain, &other_bindings).unwrap();
    assert_eq!(reg.entries.len(), 2);
    assert_eq!(third.slots[3].addr, 900);

    let looked_up = reg.lookup(42).unwrap();
    assert_eq!(looked_up.slots, first.slots);
    assert!(reg.lookup(44).is_none());
}

#[test]
fn registry_registers_nothing_on_build_failure() {
    let mut reg = VTableRegistry::new();
    let chain = validate_chain(vec![root_descriptor(), iface_below_root(10, &[1, 2])]).unwrap();
    let r = reg.get_or_build(42, &chain, &vec![]);
    assert_eq!(r.unwrap_err(), VTableError::MissingMethodBinding);
    assert_eq!(reg.entries.len(), 0);
    assert!(reg.lookup(42).is_none());
}

/// A sample object type that produces its own vtable, the way
/// implementations plug into the runtime.
struct FakeFactory;

impl ComInterface<VTableLayout> for FakeFactory {
    fn create_vtable() -> VTableLayout {
        let chain = validate_chain(vec![root_descriptor(), iface_below_root(10, &[1, 2])])
            .unwrap();
        build_vtable(&chain, &vec![a_bindings()]).unwrap()
    }
}

#[test]
fn com_interface_impl_drives_construction() {
    let mut arena: ComArena<u64> = ComArena::new();
    let h = arena.construct(Arc::new(FakeFactory::create_vtable()), 12345);
    assert_eq!(arena.ref_count(h), 1);
    let primary = arena.primary_ref(h);
    assert_eq!(primary.iface, InterfaceId { value: 10 });
    assert_eq!(arena.dispatch(primary, 4).addr, 101);
}
