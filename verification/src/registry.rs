//! The process-wide, append-only table of composed layouts, keyed by
//! object type.
//!
//! A virtual-table layout belongs to an object *type*, not to an
//! instance: it is built once, on first need, and every instance of the
//! type thereafter shares the same layout by reference. The registry
//! gives that single-initialization guarantee: a key is bound at most
//! once, a second request for the same key reuses the stored layout,
//! and entries are never removed, so a shared layout outlives every
//! object referencing it.
use crate::descriptor::{chain_wf, ValidatedChain};
use crate::vtable::{
    bindings_complete, bindings_sigs_match, build_vtable, built_slots, layout_matches_chain,
    layout_wf, EntryPoint, VTableError, VTableLayout,
};
use std::sync::Arc;
use vstd::prelude::*;

verus! {

/// One registered type: its key and the shared layout built for it.
pub struct RegistryEntry {
    pub type_key: u64,
    pub layout: Arc<VTableLayout>,
}

/// The write-once-per-type layout table.
pub struct VTableRegistry {
    pub entries: Vec<RegistryEntry>,
}

impl VTableRegistry {
    /// Keys are bound at most once and every stored layout is
    /// well-formed.
    pub open spec fn wf(self) -> bool {
        &&& forall|i: int, j: int|
            0 <= i < j < self.entries@.len() ==> (#[trigger] self.entries@[i]).type_key != (
            #[trigger] self.entries@[j]).type_key
        &&& forall|i: int|
            0 <= i < self.entries@.len() ==> layout_wf(*(#[trigger] self.entries@[i]).layout)
    }

    /// The key is bound in the registry.
    pub open spec fn has_type(self, type_key: u64) -> bool {
        exists|i: int| 0 <= i < self.entries@.len() && (#[trigger] self.entries@[i]).type_key == type_key
    }

    /// The layout bound to a key.
    pub open spec fn layout_of(self, type_key: u64) -> VTableLayout {
        *self.entries@[choose|i: int|
            0 <= i < self.entries@.len() && (#[trigger] self.entries@[i]).type_key == type_key].layout
    }

    /// An empty registry: no type registered yet.
    pub fn new() -> (r: VTableRegistry)
        ensures
            r.wf(),
            r.entries@.len() == 0,
    {
        VTableRegistry { entries: Vec::new() }
    }

    /// Looks a type's layout up without building anything.
    pub fn lookup(&self, type_key: u64) -> (r: Option<Arc<VTableLayout>>)
        requires
            self.wf(),
        ensures
            match r {
                Some(l) => self.has_type(type_key) && *l == self.layout_of(type_key) && layout_wf(
                    *l,
                ),
                None => !self.has_type(type_key),
            },
    {
        let mut i: usize = 0;
        while i < self.entries.len()
            invariant
                self.wf(),
                0 <= i <= self.entries@.len(),
                forall|j: int| 0 <= j < i ==> (#[trigger] self.entries@[j]).type_key != type_key,
            decreases self.entries@.len() - i,
        {
            if self.entries[i].type_key == type_key {
                let l = self.entries[i].layout.clone();
                proof {
                    lemma_unique_key_layout(*self, type_key, i as int);
                }
                return Some(l);
            }
            i += 1;
        }
        None
    }

    /// Returns the layout registered for the type, building and
    /// registering it first if the key is not bound yet: built exactly
    /// once per type, shared by every later caller. Building fails as
    /// the builder does — missing bindings or a signature mismatch —
    /// and a failure registers nothing, so no object of the type can be
    /// constructed. Existing entries are never touched.
    pub fn get_or_build(
        &mut self,
        type_key: u64,
        chain: &ValidatedChain,
        bindings: &Vec<Vec<EntryPoint>>,
    ) -> (r: Result<Arc<VTableLayout>, VTableError>)
        requires
            old(self).wf(),
            chain_wf(chain.descriptors@),
        ensures
            final(self).wf(),
            final(self).has_type(type_key) <==> (old(self).has_type(type_key) || r is Ok),
            old(self).has_type(type_key) ==> *final(self) == *old(self) && (r matches Ok(l)
                && *l == old(self).layout_of(type_key)),
            !old(self).has_type(type_key) ==> match r {
                Ok(l) => {
                    &&& bindings_complete(chain.descriptors@, bindings@)
                    &&& bindings_sigs_match(chain.descriptors@, bindings@)
                    &&& (*l).slots@ == built_slots(bindings@)
                    &&& layout_matches_chain(*l, chain.descriptors@)
                    &&& layout_wf(*l)
                    &&& final(self).entries@.len() == old(self).entries@.len() + 1
                    &&& final(self).entries@[old(self).entries@.len() as int].type_key == type_key
                    &&& final(self).entries@[old(self).entries@.len() as int].layout == l
                    &&& final(self).layout_of(type_key) == *l
                },
                Err(e) => {
                    &&& !(bindings_complete(chain.descriptors@, bindings@) && bindings_sigs_match(
                        chain.descriptors@,
                        bindings@,
                    ))
                    &&& e == if !bindings_complete(chain.descriptors@, bindings@) {
                        VTableError::MissingMethodBinding
                    } else {
                        VTableError::SignatureMismatch
                    }
                    &&& *final(self) == *old(self)
                },
            },
            forall|i: int|
                0 <= i < old(self).entries@.len() ==> final(self).entries@[i] == old(
                    self,
                ).entries@[i],
    {
        let existing = self.lookup(type_key);
        match existing {
            Some(l) => Ok(l),
            None => {
                match build_vtable(chain, bindings) {
                    Ok(layout) => {
                        let l = Arc::new(layout);
                        let stored = l.clone();
                        self.entries.push(RegistryEntry { type_key, layout: stored });
                        proof {
                            let n = old(self).entries@.len() as int;
                            assert(final(self).entries@[n].type_key == type_key);
                            lemma_unique_key_layout(*final(self), type_key, n);
                        }
                        Ok(l)
                    },
                    Err(e) => Err(e),
                }
            },
        }
    }
}

/// With unique keys, any entry whose key matches is the entry
/// [`VTableRegistry::layout_of`] denotes.
proof fn lemma_unique_key_layout(reg: VTableRegistry, type_key: u64, i: int)
    requires
        reg.wf(),
        0 <= i < reg.entries@.len(),
        reg.entries@[i].type_key == type_key,
    ensures
        reg.has_type(type_key),
        reg.layout_of(type_key) == *reg.entries@[i].layout,
{
    let j = choose|j: int|
        0 <= j < reg.entries@.len() && (#[trigger] reg.entries@[j]).type_key == type_key;
    if i != j {
        assert(reg.entries@[i].type_key != reg.entries@[j].type_key);
    }
}

} // verus!
