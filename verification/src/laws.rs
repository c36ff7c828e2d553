//! Proofs of the guarantees the runtime makes across operations:
//! reference-count round trips, single deallocation, path-independent
//! dispatch, layout compatibility of ancestor interfaces, and the
//! balance of interleaved retains and releases.
use crate::descriptor::{chain_wf, flat_slots, InterfaceDescriptor};
use crate::object::{release_step, retain_step, ComArena, InterfaceRef};
use crate::vtable::{
    bindings_complete, bindings_sigs_match, built_slots, concat_entries, lemma_concat_entries_step,
    lemma_flat_len_matches_concat, root_entries, EntryPoint,
};
use vstd::prelude::*;

verus! {

/// A retain followed by a release returns the count to its pre-retain
/// value, does not deallocate, and leaves the arena exactly as it was.
pub proof fn law_retain_then_release_restores<S>(
    a0: ComArena<S>,
    a1: ComArena<S>,
    a2: ComArena<S>,
    h: int,
    c1: u64,
    c2: u64,
)
    requires
        a0.wf(),
        retain_step(a0, a1, h, c1),
        release_step(a1, a2, h, c2),
    ensures
        c2 == a0.count(h),
        a2.live(h),
        a2.objects@ == a0.objects@,
{
    assert(a0.count(h) >= 1);
    assert(a1.count(h) == c1 && c1 >= 2);
    assert(a2.objects@ =~= a0.objects@);
}

/// The release that finds the count at one deallocates: it returns
/// zero, the handle is dead afterwards, and because every release
/// demands a live handle, no further release of that handle is
/// possible — the object is deallocated exactly once.
pub proof fn law_final_release_deallocates<S>(a0: ComArena<S>, a1: ComArena<S>, h: int, c: u64)
    requires
        a0.count(h) == 1,
        release_step(a0, a1, h, c),
    ensures
        c == 0,
        !a1.live(h),
        forall|a2: ComArena<S>, c2: u64| !(#[trigger] release_step(a1, a2, h, c2)),
        forall|a2: ComArena<S>, c2: u64| !(#[trigger] retain_step(a1, a2, h, c2)),
{
}

/// Method slot `k` of an object resolves to the same entry point
/// through every valid typed alias of that object — whether the alias
/// came from construction or from a successful query.
pub proof fn law_dispatch_path_independent<S>(
    a: ComArena<S>,
    ir1: InterfaceRef,
    ir2: InterfaceRef,
    k: int,
)
    requires
        a.wf(),
        a.iface_ref_wf(ir1),
        a.iface_ref_wf(ir2),
        ir1.handle == ir2.handle,
        0 <= k < a.visible_of(ir1),
        k < a.visible_of(ir2),
    ensures
        a.layout(ir1.handle as int).slots@[k] == a.layout(ir2.handle as int).slots@[k],
{
}

/// The concatenated bindings of a chain prefix are the leading entries
/// of the full concatenation.
proof fn lemma_concat_entries_prefix(bs: Seq<Vec<EntryPoint>>, d: int)
    requires
        0 <= d <= bs.len(),
    ensures
        concat_entries(bs.take(d)).len() <= concat_entries(bs).len(),
        concat_entries(bs).take(concat_entries(bs.take(d)).len() as int) == concat_entries(
            bs.take(d),
        ),
    decreases bs.len() - d,
{
    if d == bs.len() {
        assert(bs.take(d) =~= bs);
        assert(concat_entries(bs).take(concat_entries(bs).len() as int) =~= concat_entries(bs));
    } else {
        lemma_concat_entries_step(bs, d);
        lemma_concat_entries_prefix(bs, d + 1);
        let x = concat_entries(bs.take(d));
        let y = concat_entries(bs.take(d + 1));
        assert(y.take(x.len() as int) =~= x);
        assert(concat_entries(bs).take(x.len() as int) =~= y.take(x.len() as int));
    }
}

/// Layout compatibility along the chain: the composed layout built for
/// a chain truncated at any depth — an ancestor interface — is exactly
/// the leading prefix of the layout built for the full chain, as long
/// as the ancestor's flattened slot ordering. Reinterpreting a derived
/// layout as an ancestor layout therefore exposes exactly the
/// ancestor's slots, each holding the same entry point.
pub proof fn law_ancestor_layout_is_prefix(
    ds: Seq<InterfaceDescriptor>,
    bs: Seq<Vec<EntryPoint>>,
    d: int,
)
    requires
        chain_wf(ds),
        bindings_complete(ds, bs),
        bindings_sigs_match(ds, bs),
        0 <= d <= bs.len(),
    ensures
        chain_wf(ds.take(d + 1)),
        bindings_complete(ds.take(d + 1), bs.take(d)),
        bindings_sigs_match(ds.take(d + 1), bs.take(d)),
        built_slots(bs.take(d)).len() == flat_slots(ds.take(d + 1)).len(),
        built_slots(bs.take(d)).len() <= built_slots(bs).len(),
        built_slots(bs).take(built_slots(bs.take(d)).len() as int) == built_slots(bs.take(d)),
{
    lemma_flat_len_matches_concat(ds, bs, d);
    lemma_concat_entries_prefix(bs, d);
    let x = concat_entries(bs.take(d));
    assert(built_slots(bs).take(built_slots(bs.take(d)).len() as int) =~= built_slots(bs.take(d)))
        by {
        assert(forall|i: int|
            0 <= i < x.len() ==> built_slots(bs)[root_entries().len() + i] == concat_entries(
                bs,
            )[i]);
    }
}

/// One reference-counting operation of a caller thread.
pub enum RefOp {
    Retain,
    Release,
}

/// How many of the operations are retains.
pub open spec fn retains_in(ops: Seq<RefOp>) -> int
    decreases ops.len(),
{
    if ops.len() == 0 {
        0
    } else {
        retains_in(ops.drop_last()) + if ops.last() is Retain {
            1int
        } else {
            0int
        }
    }
}

/// How many of the operations are releases.
pub open spec fn releases_in(ops: Seq<RefOp>) -> int
    decreases ops.len(),
{
    if ops.len() == 0 {
        0
    } else {
        releases_in(ops.drop_last()) + if ops.last() is Release {
            1int
        } else {
            0int
        }
    }
}

/// In every prefix, no more releases than retains have happened: the
/// shape of any interleaving of threads that each retain before they
/// release.
pub open spec fn balanced_prefixes(ops: Seq<RefOp>) -> bool {
    forall|n: int|
        0 <= n <= ops.len() ==> releases_in(#[trigger] ops.take(n)) <= retains_in(ops.take(n))
}

/// The arena transition one operation performs on the object behind
/// `h`, exactly as the exec retain and release contracts state it.
pub open spec fn op_step<S>(pre: ComArena<S>, post: ComArena<S>, h: int, op: RefOp) -> bool {
    match op {
        RefOp::Retain => retain_step(pre, post, h, (pre.count(h) + 1) as u64),
        RefOp::Release => release_step(pre, post, h, (pre.count(h) - 1) as u64),
    }
}

/// Along a balanced trace the count is exactly one plus retains minus
/// releases so far, and the object stays live.
proof fn lemma_balanced_trace_counts<S>(
    trace: Seq<ComArena<S>>,
    ops: Seq<RefOp>,
    h: int,
    n: int,
)
    requires
        trace.len() == ops.len() + 1,
        trace[0].live(h),
        trace[0].count(h) == 1,
        balanced_prefixes(ops),
        forall|m: int| 0 <= m < ops.len() ==> #[trigger] op_step(trace[m], trace[m + 1], h, ops[m]),
        0 <= n <= ops.len(),
    ensures
        trace[n].live(h),
        trace[n].count(h) == 1 + retains_in(ops.take(n)) - releases_in(ops.take(n)),
    decreases n,
{
    if n == 0 {
        assert(ops.take(0) =~= Seq::<RefOp>::empty());
    } else {
        lemma_balanced_trace_counts(trace, ops, h, n - 1);
        let m = n - 1;
        assert(op_step(trace[m], trace[m + 1], h, ops[m]));
        assert(trace[m + 1] == trace[n]);
        assert(ops.take(n).drop_last() =~= ops.take(n - 1));
        assert(ops.take(n).last() == ops[n - 1]);
        if ops[n - 1] is Release {
            assert(releases_in(ops.take(n)) <= retains_in(ops.take(n)));
            assert(trace[n - 1].count(h) >= 2);
        }
    }
}

/// Any interleaving of retain/release pairs on a fresh object — each
/// caller retains before it releases, so every prefix has at least as
/// many retains as releases — leaves the object live the whole way
/// through, causes no deallocation, and when the retains and releases
/// have paired off the count is back at exactly one, ready for the one
/// further release that deallocates.
pub proof fn law_balanced_ops_preserve_object<S>(trace: Seq<ComArena<S>>, ops: Seq<RefOp>, h: int)
    requires
        trace.len() == ops.len() + 1,
        trace[0].live(h),
        trace[0].count(h) == 1,
        balanced_prefixes(ops),
        forall|m: int| 0 <= m < ops.len() ==> #[trigger] op_step(trace[m], trace[m + 1], h, ops[m]),
    ensures
        forall|n: int| 0 <= n <= ops.len() ==> trace[n].live(h),
        retains_in(ops) == releases_in(ops) ==> trace[ops.len() as int].count(h) == 1,
{
    assert forall|n: int| 0 <= n <= ops.len() implies trace[n].live(h) by {
        lemma_balanced_trace_counts(trace, ops, h, n);
    }
    lemma_balanced_trace_counts(trace, ops, h, ops.len() as int);
    assert(ops.take(ops.len() as int) =~= ops);
}

} // verus!
