//! Reference-counted object instances and the runtime operations on
//! them: construction, retain, release, interface query and method
//! dispatch.
//!
//! Instances live in a [`ComArena`], an append-only slot table: a
//! handle is a slot index, construction fills a fresh slot with count
//! one, and the release that observes the transition from one to zero
//! clears the slot, deallocating the instance exactly once. Handles
//! are never reused, so a handle to a deallocated object stays dead.
//! Operating on a dead handle is outside every contract here, which is
//! the caller obligation the external ABI documents.
use crate::descriptor::InterfaceId;
use crate::vtable::{layout_wf, EntryPoint, VTableLayout};
use std::sync::Arc;
use vstd::prelude::*;

verus! {

/// One live object: the shared reference to its type's composed
/// virtual-table layout (the first field, as the ABI requires), the
/// reference counter, and the user-defined state.
pub struct ObjectInstance<S> {
    pub vtable: Arc<VTableLayout>,
    pub refcount: u64,
    pub state: S,
}

/// The slot table objects live in. Slots are appended on construction
/// and cleared by the final release; a cleared slot models deallocated
/// backing memory.
pub struct ComArena<S> {
    pub objects: Vec<Option<ObjectInstance<S>>>,
}

/// A typed alias to a live object: the object's handle together with
/// the interface the alias is typed as and that interface's depth in
/// the object's chain. Produced only by construction (primary
/// interface) or by a successful query, never by uncontrolled casting.
#[derive(Clone, Copy, PartialEq, Eq, Structural, Debug)]
pub struct InterfaceRef {
    pub handle: usize,
    pub iface: InterfaceId,
    pub depth: usize,
}

/// Negative query outcome: a normal result communicated through the
/// status channel, never a fault.
#[derive(Clone, Copy, PartialEq, Eq, Structural, Debug)]
pub enum QueryError {
    /// The requested identifier is not in the object's declared chain.
    NotSupported,
}

/// The requested identifier occurs somewhere in the layout's chain.
pub open spec fn chain_has(l: VTableLayout, riid: InterfaceId) -> bool {
    exists|j: int| 0 <= j < l.chain@.len() && (#[trigger] l.chain@[j]).id == riid
}

impl<S> ComArena<S> {
    /// Every live object has a count of at least one and a well-formed
    /// layout.
    pub open spec fn wf(self) -> bool {
        forall|h: int|
            0 <= h < self.objects@.len() && self.objects@[h] is Some ==> (
            #[trigger] self.objects@[h])->Some_0.refcount >= 1 && layout_wf(
                *self.objects@[h]->Some_0.vtable,
            )
    }

    /// The handle denotes an object that has been constructed and not
    /// yet deallocated.
    pub open spec fn live(self, h: int) -> bool {
        0 <= h < self.objects@.len() && self.objects@[h] is Some
    }

    /// The object behind a live handle.
    pub open spec fn obj(self, h: int) -> ObjectInstance<S> {
        self.objects@[h]->Some_0
    }

    /// The reference count of a live handle.
    pub open spec fn count(self, h: int) -> u64 {
        self.obj(h).refcount
    }

    /// The virtual-table layout of a live handle.
    pub open spec fn layout(self, h: int) -> VTableLayout {
        *self.obj(h).vtable
    }

    /// A typed alias is valid when its handle is live, its depth is a
    /// link of the object's chain, and that link carries the alias's
    /// interface identifier.
    pub open spec fn iface_ref_wf(self, ir: InterfaceRef) -> bool {
        &&& self.live(ir.handle as int)
        &&& (ir.depth as int) < self.layout(ir.handle as int).chain@.len()
        &&& self.layout(ir.handle as int).chain@[ir.depth as int].id == ir.iface
    }

    /// How many leading slots of the composed table the alias exposes.
    pub open spec fn visible_of(self, ir: InterfaceRef) -> usize {
        self.layout(ir.handle as int).chain@[ir.depth as int].visible
    }

    /// An empty arena: no object constructed yet.
    pub fn new() -> (a: ComArena<S>)
        ensures
            a.wf(),
            a.objects@.len() == 0,
    {
        ComArena { objects: Vec::new() }
    }

    /// Constructs an object of the type whose layout is given, with the
    /// caller's state, and returns the one implicit reference the
    /// caller now owns: a fresh handle whose count is exactly one.
    pub fn construct(&mut self, vtable: Arc<VTableLayout>, state: S) -> (h: usize)
        requires
            old(self).wf(),
            layout_wf(*vtable),
        ensures
            final(self).wf(),
            h == old(self).objects@.len(),
            final(self).objects@.len() == old(self).objects@.len() + 1,
            forall|j: int|
                0 <= j < old(self).objects@.len() ==> final(self).objects@[j] == old(
                    self,
                ).objects@[j],
            final(self).live(h as int),
            final(self).count(h as int) == 1,
            final(self).obj(h as int).vtable == vtable,
            final(self).obj(h as int).state == state,
    {
        let h = self.objects.len();
        self.objects.push(Some(ObjectInstance { vtable, refcount: 1, state }));
        h
    }

    /// Increments the reference count of a live object and returns the
    /// new count. Everything else — the object's layout and state, and
    /// every other slot — is left unchanged. The contract is one
    /// indivisible transition ([`retain_step`]), the discipline the
    /// external ABI demands of the counter: no separate load-then-branch
    /// window exists.
    pub fn retain(&mut self, h: usize) -> (c: u64)
        requires
            old(self).wf(),
            old(self).live(h as int),
            old(self).count(h as int) < u64::MAX,
        ensures
            final(self).wf(),
            c == old(self).count(h as int) + 1,
            retain_step(*old(self), *final(self), h as int, c),
    {
        let slot = &mut self.objects[h];
        match slot {
            Some(o) => {
                o.refcount = o.refcount + 1;
                let c = o.refcount;
                proof {
                    assert(final(self).objects@ =~= old(self).objects@.update(
                        h as int,
                        Some(
                            (ObjectInstance {
                                vtable: old(self).obj(h as int).vtable,
                                refcount: c,
                                state: old(self).obj(h as int).state,
                            }),
                        ),
                    ));
                }
                c
            },
            None => vstd::pervasive::unreached(),
        }
    }

    /// Decrements the reference count of a live object and returns the
    /// new count. The release that observes the transition from one to
    /// zero additionally deallocates the object — its slot is cleared,
    /// exactly once, and the handle is dead from then on. The decrement
    /// and the check for zero are one indivisible transition
    /// ([`release_step`]), never a separate load and branch.
    pub fn release(&mut self, h: usize) -> (c: u64)
        requires
            old(self).wf(),
            old(self).live(h as int),
        ensures
            final(self).wf(),
            c == old(self).count(h as int) - 1,
            release_step(*old(self), *final(self), h as int, c),
    {
        let last = match &self.objects[h] {
            Some(o) => o.refcount == 1,
            None => vstd::pervasive::unreached(),
        };
        if last {
            let slot = &mut self.objects[h];
            *slot = None;
            proof {
                assert(final(self).objects@ =~= old(self).objects@.update(h as int, None));
            }
            0
        } else {
            let slot = &mut self.objects[h];
            match slot {
                Some(o) => {
                    o.refcount = o.refcount - 1;
                    let c = o.refcount;
                    proof {
                        assert(final(self).objects@ =~= old(self).objects@.update(
                            h as int,
                            Some(
                                (ObjectInstance {
                                    vtable: old(self).obj(h as int).vtable,
                                    refcount: c,
                                    state: old(self).obj(h as int).state,
                                }),
                            ),
                        ));
                    }
                    c
                },
                None => vstd::pervasive::unreached(),
            }
        }
    }

    /// Walks the object's declared chain for the requested identifier.
    /// On the first match it retains the object and returns a typed
    /// alias to the same instance; when the identifier is not in the
    /// chain it returns `NotSupported`, performs no retain, and leaves
    /// the arena exactly as it was. Total: every identifier either
    /// matches or explicitly does not.
    pub fn query(&mut self, h: usize, riid: InterfaceId) -> (r: Result<InterfaceRef, QueryError>)
        requires
            old(self).wf(),
            old(self).live(h as int),
            old(self).count(h as int) < u64::MAX,
        ensures
            final(self).wf(),
            match r {
                Ok(ir) => {
                    &&& chain_has(old(self).layout(h as int), riid)
                    &&& ir.handle == h
                    &&& ir.iface == riid
                    &&& 0 <= ir.depth < old(self).layout(h as int).chain@.len()
                    &&& old(self).layout(h as int).chain@[ir.depth as int].id == riid
                    &&& forall|j: int|
                        0 <= j < ir.depth ==> (#[trigger] old(self).layout(
                            h as int,
                        ).chain@[j]).id != riid
                    &&& final(self).iface_ref_wf(ir)
                    &&& retain_step(
                        *old(self),
                        *final(self),
                        h as int,
                        (old(self).count(h as int) + 1) as u64,
                    )
                },
                Err(e) => {
                    &&& e == QueryError::NotSupported
                    &&& !chain_has(old(self).layout(h as int), riid)
                    &&& *final(self) == *old(self)
                },
            },
    {
        let found = match &self.objects[h] {
            Some(o) => chain_find(&o.vtable, riid),
            None => vstd::pervasive::unreached(),
        };
        match found {
            Some(depth) => {
                self.retain(h);
                Ok(InterfaceRef { handle: h, iface: riid, depth })
            },
            None => Err(QueryError::NotSupported),
        }
    }

    /// The typed alias the constructor's caller holds: the object seen
    /// as its primary interface, the last link of its chain.
    pub fn primary_ref(&self, h: usize) -> (ir: InterfaceRef)
        requires
            self.wf(),
            self.live(h as int),
        ensures
            self.iface_ref_wf(ir),
            ir.handle == h,
            ir.depth == self.layout(h as int).chain@.len() - 1,
            ir.iface == self.layout(h as int).chain@[self.layout(h as int).chain@.len() - 1].id,
            self.visible_of(ir) == self.layout(h as int).slots@.len(),
    {
        let o = match &self.objects[h] {
            Some(o) => o,
            None => vstd::pervasive::unreached(),
        };
        let depth = o.vtable.chain.len() - 1;
        let iface = o.vtable.chain[depth].id;
        InterfaceRef { handle: h, iface, depth }
    }

    /// Reads the current reference count of a live object.
    pub fn ref_count(&self, h: usize) -> (c: u64)
        requires
            self.live(h as int),
        ensures
            c == self.count(h as int),
    {
        match &self.objects[h] {
            Some(o) => o.refcount,
            None => vstd::pervasive::unreached(),
        }
    }

    /// Invoking a method through a typed alias: dereferences the
    /// object's virtual table and indexes the requested slot, which
    /// must be visible through the alias's interface. The entry point
    /// at slot `k` is the same whichever valid alias of the object it
    /// is reached through.
    pub fn dispatch(&self, ir: InterfaceRef, slot: usize) -> (e: EntryPoint)
        requires
            self.wf(),
            self.iface_ref_wf(ir),
            slot < self.visible_of(ir),
        ensures
            e == self.layout(ir.handle as int).slots@[slot as int],
    {
        let o = match &self.objects[ir.handle] {
            Some(o) => o,
            None => vstd::pervasive::unreached(),
        };
        o.vtable.slots[slot]
    }
}

/// Exactly what a retain does: the count of the retained object goes up
/// by one and everything else is unchanged.
pub open spec fn retain_step<S>(pre: ComArena<S>, post: ComArena<S>, h: int, c: u64) -> bool {
    &&& pre.live(h)
    &&& pre.count(h) < u64::MAX
    &&& c == pre.count(h) + 1
    &&& post.objects@ == pre.objects@.update(
        h,
        Some(
            (ObjectInstance {
                vtable: pre.obj(h).vtable,
                refcount: c,
                state: pre.obj(h).state,
            }),
        ),
    )
}

/// Exactly what a release does: the count goes down by one; the release
/// that observes the transition from one to zero clears the slot
/// instead, deallocating the object.
pub open spec fn release_step<S>(pre: ComArena<S>, post: ComArena<S>, h: int, c: u64) -> bool {
    &&& pre.live(h)
    &&& pre.count(h) >= 1
    &&& c == pre.count(h) - 1
    &&& if pre.count(h) == 1 {
        post.objects@ == pre.objects@.update(h, None::<ObjectInstance<S>>)
    } else {
        post.objects@ == pre.objects@.update(
            h,
            Some(
                (ObjectInstance {
                    vtable: pre.obj(h).vtable,
                    refcount: c,
                    state: pre.obj(h).state,
                }),
            ),
        )
    }
}

/// Finds the first link of the chain carrying the requested identifier.
fn chain_find(l: &VTableLayout, riid: InterfaceId) -> (r: Option<usize>)
    ensures
        match r {
            Some(d) => {
                &&& 0 <= d < l.chain@.len()
                &&& l.chain@[d as int].id == riid
                &&& forall|j: int| 0 <= j < d ==> (#[trigger] l.chain@[j]).id != riid
            },
            None => !chain_has(*l, riid),
        },
{
    let mut i: usize = 0;
    while i < l.chain.len()
        invariant
            0 <= i <= l.chain@.len(),
            forall|j: int| 0 <= j < i ==> (#[trigger] l.chain@[j]).id != riid,
        decreases l.chain@.len() - i,
    {
        if l.chain[i].id == riid {
            return Some(i);
        }
        i += 1;
    }
    None
}

} // verus!
