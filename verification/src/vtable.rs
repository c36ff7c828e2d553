//! Composition of virtual-table layouts along an interface chain.
//!
//! Given a validated chain and, for each interface beyond the root, the
//! native entry points bound to the implementing object type, the
//! builder produces the composed layout: the parent's complete table
//! embedded as a prefix, followed by this interface's own slots in
//! declaration order. The three root slots (query, retain, release)
//! are supplied by this runtime itself, identically for every object
//! type. A layout is built once per object type and shared by
//! reference across all instances of that type.
use crate::descriptor::{
    chain_wf, flat_slots, lemma_flat_slots_step, root_id, InterfaceDescriptor, InterfaceId,
    MethodSlot, QUERY_SIG, RELEASE_SIG, RETAIN_SIG, ROOT_SLOT_COUNT,
};
use vstd::prelude::*;

verus! {

/// A native method entry point: an opaque address token and the shape
/// code of its argument/return signature. Every entry point uses the
/// one fixed calling convention required by the external ABI.
#[derive(Clone, Copy, PartialEq, Eq, Structural, Debug)]
pub struct EntryPoint {
    pub addr: u64,
    pub sig: u64,
}

/// Address token of the generic query strategy injected at the root.
pub const QUERY_ENTRY_ADDR: u64 = 0xA0;

/// Address token of the generic retain strategy injected at the root.
pub const RETAIN_ENTRY_ADDR: u64 = 0xA1;

/// Address token of the generic release strategy injected at the root.
pub const RELEASE_ENTRY_ADDR: u64 = 0xA2;

/// The three root entries, in fixed order: query, retain, release.
/// Objects never supply bespoke bindings for these; the runtime's
/// generic strategies fill the root slots of every layout.
pub open spec fn root_entries() -> Seq<EntryPoint> {
    seq![
        EntryPoint { addr: QUERY_ENTRY_ADDR, sig: QUERY_SIG },
        EntryPoint { addr: RETAIN_ENTRY_ADDR, sig: RETAIN_SIG },
        EntryPoint { addr: RELEASE_ENTRY_ADDR, sig: RELEASE_SIG },
    ]
}

/// One link of a layout's chain metadata: the interface's identifier
/// and how many leading slots of the composed table are visible through
/// a handle typed as that interface (its ancestors' slots included).
#[derive(Clone, Copy, PartialEq, Eq, Structural, Debug)]
pub struct ChainLink {
    pub id: InterfaceId,
    pub visible: usize,
}

/// A composed virtual-table layout: the flattened entry points (parent
/// layout as prefix, own entries after) together with the chain
/// metadata the query operation walks at runtime.
#[derive(Debug)]
pub struct VTableLayout {
    pub slots: Vec<EntryPoint>,
    pub chain: Vec<ChainLink>,
}

/// Build-time error: both variants are fatal and are reported before
/// any object of the affected type can be constructed.
#[derive(Clone, Copy, PartialEq, Eq, Structural, Debug)]
pub enum VTableError {
    /// An interface declares more method slots than entry points were
    /// supplied for it, or the binding lists do not line up with the
    /// chain one to one.
    MissingMethodBinding,
    /// An entry point's argument/return shape does not match the shape
    /// its slot expects.
    SignatureMismatch,
}

/// The binding lists line up with the chain: one list per interface
/// beyond the root, one entry point per declared method slot.
pub open spec fn bindings_complete(
    ds: Seq<InterfaceDescriptor>,
    bs: Seq<Vec<EntryPoint>>,
) -> bool {
    &&& bs.len() == ds.len() - 1
    &&& forall|i: int| 0 <= i < bs.len() ==> (#[trigger] bs[i])@.len() == ds[i + 1].methods@.len()
}

/// Every supplied entry point has the signature shape its slot declares.
pub open spec fn bindings_sigs_match(
    ds: Seq<InterfaceDescriptor>,
    bs: Seq<Vec<EntryPoint>>,
) -> bool {
    forall|i: int, k: int|
        0 <= i < bs.len() && i + 1 < ds.len() && 0 <= k < bs[i]@.len() && k
            < ds[i + 1].methods@.len() ==> (#[trigger] bs[i]@[k]).sig == ds[i + 1].methods@[k].sig
}

/// The concatenation of the supplied binding lists, in chain order.
pub open spec fn concat_entries(bs: Seq<Vec<EntryPoint>>) -> Seq<EntryPoint>
    decreases bs.len(),
{
    if bs.len() == 0 {
        Seq::empty()
    } else {
        concat_entries(bs.drop_last()) + bs.last()@
    }
}

/// The flattened entry points of the composed layout: the root's three
/// generic entries first, then the supplied bindings in chain order.
pub open spec fn built_slots(bs: Seq<Vec<EntryPoint>>) -> Seq<EntryPoint> {
    root_entries() + concat_entries(bs)
}

/// Taking one more binding list appends exactly those entries to the
/// concatenation.
pub proof fn lemma_concat_entries_step(bs: Seq<Vec<EntryPoint>>, i: int)
    requires
        0 <= i < bs.len(),
    ensures
        concat_entries(bs.take(i + 1)) == concat_entries(bs.take(i)) + bs[i]@,
{
    assert(bs.take(i + 1).drop_last() =~= bs.take(i));
    assert(bs.take(i + 1).last() == bs[i]);
}

/// The layout's chain metadata mirrors the descriptor chain: one link
/// per interface, with that interface's identifier and the length of
/// the flattened slot ordering of the chain up to and including it.
pub open spec fn layout_matches_chain(l: VTableLayout, ds: Seq<InterfaceDescriptor>) -> bool {
    &&& l.chain@.len() == ds.len()
    &&& forall|d: int| 0 <= d < ds.len() ==> (#[trigger] l.chain@[d]).id == ds[d].id
    &&& forall|d: int|
        0 <= d < ds.len() ==> (#[trigger] l.chain@[d]).visible == flat_slots(
            ds.take(d + 1),
        ).len()
}

/// Well-formedness of a layout on its own, with no descriptor chain at
/// hand: the chain metadata starts at the universal root with its three
/// slots, visibility grows monotonically along the chain and never
/// exceeds the table, the last link sees the whole table, and the three
/// leading slots hold the runtime's generic query, retain and release
/// strategies.
pub open spec fn layout_wf(l: VTableLayout) -> bool {
    &&& l.chain@.len() >= 1
    &&& l.chain@[0].id == root_id()
    &&& l.chain@[0].visible == ROOT_SLOT_COUNT
    &&& forall|d: int|
        0 <= d < l.chain@.len() ==> (#[trigger] l.chain@[d]).visible <= l.slots@.len()
    &&& forall|d: int|
        0 <= d && d + 1 < l.chain@.len() ==> (#[trigger] l.chain@[d]).visible <= l.chain@[d
            + 1].visible
    &&& l.chain@[l.chain@.len() - 1].visible == l.slots@.len()
    &&& l.slots@.len() >= ROOT_SLOT_COUNT
    &&& l.slots@[0] == root_entries()[0]
    &&& l.slots@[1] == root_entries()[1]
    &&& l.slots@[2] == root_entries()[2]
}

/// With complete bindings, the flattened slot ordering of the chain up
/// to depth `d` is exactly as long as the root entries plus the
/// bindings of the first `d` interfaces beyond the root.
pub proof fn lemma_flat_len_matches_concat(
    ds: Seq<InterfaceDescriptor>,
    bs: Seq<Vec<EntryPoint>>,
    d: int,
)
    requires
        chain_wf(ds),
        bindings_complete(ds, bs),
        0 <= d <= bs.len(),
    ensures
        flat_slots(ds.take(d + 1)).len() == root_entries().len() + concat_entries(
            bs.take(d),
        ).len(),
    decreases d,
{
    if d == 0 {
        lemma_flat_slots_step(ds, 0);
        assert(ds.take(0) =~= Seq::<InterfaceDescriptor>::empty());
        assert(flat_slots(Seq::<InterfaceDescriptor>::empty()) == Seq::<MethodSlot>::empty());
        assert(bs.take(0) =~= Seq::<Vec<EntryPoint>>::empty());
        assert(concat_entries(Seq::<Vec<EntryPoint>>::empty()) == Seq::<EntryPoint>::empty());
        assert(flat_slots(ds.take(1)) =~= crate::descriptor::root_method_slots());
    } else {
        lemma_flat_len_matches_concat(ds, bs, d - 1);
        lemma_flat_slots_step(ds, d);
        lemma_concat_entries_step(bs, d - 1);
        assert(bs[d - 1]@.len() == ds[d].methods@.len());
    }
}

/// Builds the composed virtual-table layout for a validated chain from
/// the entry points bound to the implementing object type, one list per
/// interface beyond the root, one entry per declared slot. The root's
/// three slots are filled by the runtime's generic strategies. Fails,
/// before any object of the type exists, when bindings are missing or
/// an entry point's signature shape does not match its slot.
pub fn build_vtable(chain: &crate::descriptor::ValidatedChain, bindings: &Vec<Vec<EntryPoint>>)
    -> (r: Result<VTableLayout, VTableError>)
    requires
        chain_wf(chain.descriptors@),
    ensures
        match r {
            Ok(l) => {
                &&& bindings_complete(chain.descriptors@, bindings@)
                &&& bindings_sigs_match(chain.descriptors@, bindings@)
                &&& l.slots@ == built_slots(bindings@)
                &&& layout_matches_chain(l, chain.descriptors@)
                &&& layout_wf(l)
            },
            Err(e) => {
                &&& !(bindings_complete(chain.descriptors@, bindings@) && bindings_sigs_match(
                    chain.descriptors@,
                    bindings@,
                ))
                &&& e == if !bindings_complete(chain.descriptors@, bindings@) {
                    VTableError::MissingMethodBinding
                } else {
                    VTableError::SignatureMismatch
                }
            },
        },
{
    let ghost ds = chain.descriptors@;
    let ghost bs = bindings@;
    if bindings.len() != chain.descriptors.len() - 1 {
        return Err(VTableError::MissingMethodBinding);
    }
    let mut i: usize = 0;
    while i < bindings.len()
        invariant
            ds == chain.descriptors@,
            bs == bindings@,
            chain_wf(ds),
            bs.len() == ds.len() - 1,
            0 <= i <= bs.len(),
            forall|j: int| 0 <= j < i ==> (#[trigger] bs[j])@.len() == ds[j + 1].methods@.len(),
        decreases bs.len() - i,
    {
        if bindings[i].len() != chain.descriptors[i + 1].methods.len() {
            return Err(VTableError::MissingMethodBinding);
        }
        i += 1;
    }
    let mut i: usize = 0;
    while i < bindings.len()
        invariant
            ds == chain.descriptors@,
            bs == bindings@,
            chain_wf(ds),
            bindings_complete(ds, bs),
            0 <= i <= bs.len(),
            forall|j: int, k: int|
                0 <= j < i && 0 <= k < bs[j]@.len() ==> (#[trigger] bs[j]@[k]).sig == ds[j
                    + 1].methods@[k].sig,
        decreases bs.len() - i,
    {
        let entries = &bindings[i];
        let methods = &chain.descriptors[i + 1].methods;
        let mut k: usize = 0;
        while k < entries.len()
            invariant
                ds == chain.descriptors@,
                bs == bindings@,
                chain_wf(ds),
                bindings_complete(ds, bs),
                0 <= i < bs.len(),
                entries@ == bs[i as int]@,
                methods@ == ds[i + 1].methods@,
                entries@.len() == methods@.len(),
                0 <= k <= entries@.len(),
                forall|j: int, k2: int|
                    0 <= j < i && 0 <= k2 < bs[j]@.len() ==> (#[trigger] bs[j]@[k2]).sig == ds[j
                        + 1].methods@[k2].sig,
                forall|k2: int|
                    0 <= k2 < k ==> (#[trigger] bs[i as int]@[k2]).sig == ds[i
                        + 1].methods@[k2].sig,
            decreases entries@.len() - k,
        {
            if entries[k].sig != methods[k].sig {
                return Err(VTableError::SignatureMismatch);
            }
            k += 1;
        }
        i += 1;
    }
    let mut slots: Vec<EntryPoint> = Vec::new();
    slots.push(EntryPoint { addr: QUERY_ENTRY_ADDR, sig: QUERY_SIG });
    slots.push(EntryPoint { addr: RETAIN_ENTRY_ADDR, sig: RETAIN_SIG });
    slots.push(EntryPoint { addr: RELEASE_ENTRY_ADDR, sig: RELEASE_SIG });
    let mut links: Vec<ChainLink> = Vec::new();
    links.push(ChainLink { id: crate::descriptor::root_interface_id(), visible: ROOT_SLOT_COUNT });
    proof {
        assert(slots@ =~= root_entries());
        assert(bs.take(0) =~= Seq::<Vec<EntryPoint>>::empty());
        assert(slots@ =~= built_slots(bs.take(0)));
        lemma_flat_len_matches_concat(ds, bs, 0);
    }
    let mut i: usize = 0;
    while i < bindings.len()
        invariant
            ds == chain.descriptors@,
            bs == bindings@,
            chain_wf(ds),
            bindings_complete(ds, bs),
            0 <= i <= bs.len(),
            slots@ == built_slots(bs.take(i as int)),
            slots@.len() == flat_slots(ds.take(i + 1)).len(),
            links@.len() == i + 1,
            forall|d: int| 0 <= d <= i ==> (#[trigger] links@[d]).id == ds[d].id,
            forall|d: int|
                0 <= d <= i ==> (#[trigger] links@[d]).visible == flat_slots(ds.take(d + 1)).len(),
            forall|d: int| 0 <= d <= i ==> (#[trigger] links@[d]).visible <= slots@.len(),
            forall|d: int|
                0 <= d < i ==> (#[trigger] links@[d]).visible <= links@[d + 1].visible,
        decreases bs.len() - i,
    {
        let entries = &bindings[i];
        let mut k: usize = 0;
        while k < entries.len()
            invariant
                ds == chain.descriptors@,
                bs == bindings@,
                0 <= i < bs.len(),
                entries@ == bs[i as int]@,
                0 <= k <= entries@.len(),
                slots@ == built_slots(bs.take(i as int)) + entries@.take(k as int),
            decreases entries@.len() - k,
        {
            slots.push(entries[k]);
            k += 1;
            proof {
                assert(entries@.take(k as int) =~= entries@.take(k - 1).push(entries@[k - 1]));
                assert(built_slots(bs.take(i as int)) + entries@.take(k as int) =~= (built_slots(
                    bs.take(i as int),
                ) + entries@.take(k - 1)).push(entries@[k - 1]));
            }
        }
        proof {
            assert(entries@.take(entries@.len() as int) =~= entries@);
            lemma_concat_entries_step(bs, i as int);
            assert(built_slots(bs.take(i as int)) + bs[i as int]@ =~= built_slots(
                bs.take(i + 1),
            ));
            lemma_flat_len_matches_concat(ds, bs, i + 1);
        }
        let id = chain.descriptors[i + 1].id;
        let visible = slots.len();
        links.push(ChainLink { id, visible });
        i += 1;
    }
    proof {
        assert(bs.take(bs.len() as int) =~= bs);
        assert(ds.take(ds.len() as int) =~= ds);
        lemma_flat_len_matches_concat(ds, bs, 0);
        assert(bs.take(0) =~= Seq::<Vec<EntryPoint>>::empty());
        assert(concat_entries(Seq::<Vec<EntryPoint>>::empty()) == Seq::<EntryPoint>::empty());
        assert(slots@[0] == root_entries()[0]);
        assert(slots@[1] == root_entries()[1]);
        assert(slots@[2] == root_entries()[2]);
    }
    let layout = VTableLayout { slots, chain: links };
    Ok(layout)
}

} // verus!
