//! The layer's cross-cutting laws, proved over the kernel model.
//!
//! Each law is stated over the same spec functions the operations' own
//! contracts use, so it composes directly with them: what `update` promises
//! of the kernel state is exactly what `lookup`'s contract reads back.

use vstd::prelude::*;
use crate::kernel::{links_attached, lookup_result, update_model, Hook, Kernel, KernelLink,
    MapModel};
use crate::object::{BpfMap, Program};

verus! {

/// After a successful update of `key` to `value`, a lookup of `key` on the
/// resulting map state answers exactly `value`.
pub proof fn lemma_update_then_lookup(m: MapModel, key: Seq<u8>, value: Seq<u8>)
    ensures
        lookup_result(update_model(m, key, value), key) == Some(value),
{
}

/// An update of one key leaves what a lookup of any other key answers alone.
pub proof fn lemma_update_preserves_other_keys(
    m: MapModel,
    key: Seq<u8>,
    value: Seq<u8>,
    other: Seq<u8>,
)
    requires
        other != key,
    ensures
        lookup_result(update_model(m, key, value), other) == lookup_result(m, other),
{
}

/// A cloned map handle names the same kernel object: against any kernel
/// state it sees exactly the map state the original sees.
pub proof fn lemma_map_clone_observes_same_object(orig: BpfMap, cl: BpfMap, k: Kernel)
    requires
        cl == orig,
    ensures
        k.map_at(cl.fd as int) == k.map_at(orig.fd as int),
        cl.valid(k) == orig.valid(k),
{
}

/// An update made through a clone is visible through the original handle:
/// both name the same descriptor, so once the kernel records the written
/// value there, a lookup through the original answers it.
pub proof fn lemma_clone_update_visible(
    orig: BpfMap,
    cl: BpfMap,
    m: MapModel,
    key: Seq<u8>,
    value: Seq<u8>,
    k2: Kernel,
)
    requires
        cl == orig,
        k2.map_at(cl.fd as int) == Some(update_model(m, key, value)),
    ensures
        k2.map_at(orig.fd as int) matches Some(m2) && lookup_result(m2, key) == Some(value),
{
}

/// A cloned program handle names the same kernel object.
pub proof fn lemma_program_clone_observes_same_object(orig: Program, cl: Program, k: Kernel)
    requires
        cl == orig,
    ensures
        k.has_prog(cl.fd as int) == k.has_prog(orig.fd as int),
{
}

/// Detaching the only attachment at a hook frees the hook: afterwards no
/// attachment occupies it, so an equivalent attach at that hook is accepted
/// again rather than rejected as busy.
pub proof fn lemma_detach_frees_hook(pre: Seq<KernelLink>, i: int, h: Hook)
    requires
        0 <= i < pre.len(),
        pre[i].hook == h,
        forall|j: int| 0 <= j < pre.len() && j != i ==> pre[j].hook != h,
    ensures
        !links_attached(pre.remove(i), h),
{
    let post = pre.remove(i);
    assert forall|j: int| 0 <= j < post.len() implies post[j].hook != h by {
        if j < i {
            assert(post[j] == pre[j]);
        } else {
            assert(post[j] == pre[j + 1]);
        }
    }
}

} // verus!
