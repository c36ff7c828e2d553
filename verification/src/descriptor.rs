//! Interface descriptors and single-inheritance chain validation.
//!
//! An interface is described by static, immutable metadata: one 128-bit
//! identifier, an ordered list of method slots, and an optional parent.
//! A chain of descriptors, root first, is validated once, ahead of any
//! object construction: the first element must be the universal root
//! (whose three fixed slots are query, retain and release), and every
//! later element must declare the element before it as its parent.
use vstd::prelude::*;

verus! {

/// A globally unique, externally defined 128-bit interface identifier,
/// compared by exact equality.
#[derive(Clone, Copy, PartialEq, Eq, Structural, Debug)]
pub struct InterfaceId {
    pub value: u128,
}

/// Identifier value of the universal root interface.
pub const ROOT_ID_VALUE: u128 = 0x00000000_0000_0000_C000_000000000046;

/// Signature shape code of the root's query slot:
/// `query(self, requested_id, out_handle) -> status`.
pub const QUERY_SIG: u64 = 0xC0;

/// Signature shape code of the root's retain slot: `retain(self) -> count`.
pub const RETAIN_SIG: u64 = 0xC1;

/// Signature shape code of the root's release slot: `release(self) -> count`.
pub const RELEASE_SIG: u64 = 0xC2;

/// Number of method slots of the universal root interface.
pub const ROOT_SLOT_COUNT: usize = 3;

/// The identifier of the universal root interface.
pub open spec fn root_id() -> InterfaceId {
    InterfaceId { value: ROOT_ID_VALUE }
}

/// Returns the identifier of the universal root interface.
pub fn root_interface_id() -> (r: InterfaceId)
    ensures
        r == root_id(),
{
    InterfaceId { value: ROOT_ID_VALUE }
}

/// One method slot of an interface: the shape code of the signature a
/// bound entry point must have. All entry points use one fixed calling
/// convention agreed with the external ABI, so the shape code is the
/// only per-slot signature datum the runtime checks.
#[derive(Clone, Copy, PartialEq, Eq, Structural, Debug)]
pub struct MethodSlot {
    pub sig: u64,
}

/// The three fixed method slots of the universal root interface, in
/// their fixed order: query, retain, release.
pub open spec fn root_method_slots() -> Seq<MethodSlot> {
    seq![
        MethodSlot { sig: QUERY_SIG },
        MethodSlot { sig: RETAIN_SIG },
        MethodSlot { sig: RELEASE_SIG },
    ]
}

/// Static metadata of one interface: its identifier, the identifier of
/// its parent (none only for the universal root), and its own method
/// slots in declaration order.
#[derive(Debug)]
pub struct InterfaceDescriptor {
    pub id: InterfaceId,
    pub parent: Option<InterfaceId>,
    pub methods: Vec<MethodSlot>,
}

/// A descriptor sequence, root first, forms a well-formed
/// single-inheritance chain when the first element is the universal
/// root with its three fixed slots and every later element declares the
/// element before it as its parent. The list form makes the parent
/// chain acyclic and terminating at the root by construction.
pub open spec fn chain_wf(ds: Seq<InterfaceDescriptor>) -> bool {
    &&& ds.len() >= 1
    &&& ds[0].id == root_id()
    &&& ds[0].parent is None
    &&& ds[0].methods@ == root_method_slots()
    &&& forall|i: int| 1 <= i < ds.len() ==> ds[i].parent == Some(ds[i - 1].id)
}

/// The flattened method-slot ordering of a chain: the root's slots
/// first, then each interface's own slots in declaration order.
pub open spec fn flat_slots(ds: Seq<InterfaceDescriptor>) -> Seq<MethodSlot>
    decreases ds.len(),
{
    if ds.len() == 0 {
        Seq::empty()
    } else {
        flat_slots(ds.drop_last()) + ds.last().methods@
    }
}

/// Taking one more descriptor appends exactly that descriptor's own
/// slots to the flattened ordering.
pub proof fn lemma_flat_slots_step(ds: Seq<InterfaceDescriptor>, d: int)
    requires
        0 <= d < ds.len(),
    ensures
        flat_slots(ds.take(d + 1)) == flat_slots(ds.take(d)) + ds[d].methods@,
{
    assert(ds.take(d + 1).drop_last() =~= ds.take(d));
    assert(ds.take(d + 1).last() == ds[d]);
}

/// Error reported by chain validation.
#[derive(Clone, Copy, PartialEq, Eq, Structural, Debug)]
pub enum ChainError {
    /// The chain is empty, the universal root is missing or not first,
    /// or a link's declared parent does not match the preceding element.
    MalformedChain,
}

/// A descriptor chain that passed validation. Produced only by
/// [`validate_chain`], whose contract guarantees [`chain_wf`] of the
/// descriptors it holds.
#[derive(Debug)]
pub struct ValidatedChain {
    pub descriptors: Vec<InterfaceDescriptor>,
}

/// Validates a root-first descriptor chain, ahead of any object
/// construction. Succeeds exactly on well-formed chains and hands the
/// descriptors back unchanged inside a [`ValidatedChain`].
pub fn validate_chain(descriptors: Vec<InterfaceDescriptor>) -> (r: Result<
    ValidatedChain,
    ChainError,
>)
    ensures
        match r {
            Ok(chain) => chain.descriptors@ == descriptors@ && chain_wf(descriptors@),
            Err(e) => e == ChainError::MalformedChain && !chain_wf(descriptors@),
        },
{
    if descriptors.len() == 0 {
        return Err(ChainError::MalformedChain);
    }
    let root = &descriptors[0];
    if root.id.value != ROOT_ID_VALUE {
        return Err(ChainError::MalformedChain);
    }
    if root.parent.is_some() {
        return Err(ChainError::MalformedChain);
    }
    if root.methods.len() != ROOT_SLOT_COUNT {
        assert(descriptors@[0].methods@ != root_method_slots());
        return Err(ChainError::MalformedChain);
    }
    if root.methods[0].sig != QUERY_SIG || root.methods[1].sig != RETAIN_SIG
        || root.methods[2].sig != RELEASE_SIG {
        assert(descriptors@[0].methods@ != root_method_slots());
        return Err(ChainError::MalformedChain);
    }
    assert(descriptors@[0].methods@ =~= root_method_slots());
    let mut i: usize = 1;
    while i < descriptors.len()
        invariant
            1 <= i <= descriptors@.len(),
            forall|j: int| 1 <= j < i ==> descriptors@[j].parent == Some(descriptors@[j - 1].id),
        decreases descriptors@.len() - i,
    {
        let ok = match &descriptors[i].parent {
            Some(p) => *p == descriptors[i - 1].id,
            None => false,
        };
        if !ok {
            return Err(ChainError::MalformedChain);
        }
        i += 1;
    }
    Ok(ValidatedChain { descriptors })
}

/// Computes the flattened method-slot ordering of a validated chain:
/// root slots first, then each interface's own slots in declaration
/// order.
pub fn flattened_slots(chain: &ValidatedChain) -> (r: Vec<MethodSlot>)
    requires
        chain_wf(chain.descriptors@),
    ensures
        r@ == flat_slots(chain.descriptors@),
{
    let ghost ds = chain.descriptors@;
    let mut r: Vec<MethodSlot> = Vec::new();
    let mut d: usize = 0;
    proof {
        assert(ds.take(0) =~= Seq::<InterfaceDescriptor>::empty());
    }
    while d < chain.descriptors.len()
        invariant
            ds == chain.descriptors@,
            0 <= d <= ds.len(),
            r@ == flat_slots(ds.take(d as int)),
        decreases ds.len() - d,
    {
        let methods = &chain.descriptors[d].methods;
        let mut k: usize = 0;
        while k < methods.len()
            invariant
                ds == chain.descriptors@,
                0 <= d < ds.len(),
                methods@ == ds[d as int].methods@,
                0 <= k <= methods@.len(),
                r@ == flat_slots(ds.take(d as int)) + methods@.take(k as int),
            decreases methods@.len() - k,
        {
            r.push(methods[k]);
            k += 1;
            proof {
                assert(methods@.take(k as int) =~= methods@.take(k - 1).push(
                    methods@[k - 1],
                ));
                assert(flat_slots(ds.take(d as int)) + methods@.take(k as int) =~= (flat_slots(
                    ds.take(d as int),
                ) + methods@.take(k - 1)).push(methods@[k - 1]));
            }
        }
        d += 1;
        proof {
            assert(methods@.take(methods@.len() as int) =~= methods@);
            lemma_flat_slots_step(ds, d - 1);
        }
    }
    proof {
        assert(ds.take(ds.len() as int) =~= ds);
    }
    r
}

} // verus!
