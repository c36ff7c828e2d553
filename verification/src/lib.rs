//! A COM-style object runtime core.
//!
//! Native objects are exposed through virtual dispatch tables so that a
//! caller holding only an opaque interface handle can invoke methods by
//! slot position, query for other supported interfaces at runtime, and
//! manage the object's lifetime through reference counting.
//!
//! The crate is organised leaf to root:
//! - [`descriptor`]: immutable interface metadata and chain validation;
//! - [`vtable`]: composition of virtual-table layouts along an
//!   interface inheritance chain, parent layout embedded as a prefix;
//! - [`object`]: reference-counted object instances with query, retain,
//!   release and slot dispatch;
//! - [`registry`]: the write-once-per-type table of shared layouts;
//! - [`laws`]: proofs of the properties the runtime guarantees.
use vstd::prelude::*;

pub mod descriptor;
pub mod laws;
pub mod object;
pub mod registry;
pub mod vtable;

verus! {

/// Implemented by an object type to produce the virtual-table value for
/// its primary interface.
pub trait ComInterface<V> {
    fn create_vtable() -> V;
}

} // verus!
