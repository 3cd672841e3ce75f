//! The descriptor cache: a fixed-capacity descriptor pool together with the
//! sets allocated from it. Capacities are configuration constants, not
//! derived from the interface; exhausting them is a fatal construction error
//! for the caller, so allocation demands that capacity is left.

use vstd::prelude::*;
use crate::interface::DescriptorKind;
use crate::layout::SetLayoutBinding;
use crate::plan::SetLayoutGroup;

verus! {

/// Pool capacity for uniform buffer descriptors.
pub const UNIFORM_CAPACITY: u32 = 32;

/// Pool capacity for combined image sampler descriptors.
pub const SAMPLER_CAPACITY: u32 = 16;

/// Pool capacity for input attachment descriptors.
pub const INPUT_ATTACHMENT_CAPACITY: u32 = 3;

/// Most descriptor sets the pool can have allocated at once.
pub const MAX_SETS: u32 = 16;

/// One live descriptor set: its handle and how many descriptors of each kind
/// it consumes from the pool.
#[derive(Clone, Copy, PartialEq, Eq, Structural, Debug)]
pub struct LiveSet {
    pub handle: u64,
    pub uniforms: u32,
    pub samplers: u32,
    pub attachments: u32,
}

/// Descriptors of one kind among a set's layout entries.
pub open spec fn count_kind(bs: Seq<SetLayoutBinding>, kind: DescriptorKind) -> int
    decreases bs.len(),
{
    if bs.len() == 0 {
        0
    } else {
        count_kind(bs.drop_last(), kind) + if bs.last().kind == kind {
            1int
        } else {
            0int
        }
    }
}

/// The count of one kind never exceeds the number of entries.
pub proof fn lemma_count_kind_bound(bs: Seq<SetLayoutBinding>, kind: DescriptorKind)
    ensures
        0 <= count_kind(bs, kind) <= bs.len(),
    decreases bs.len(),
{
    if bs.len() > 0 {
        lemma_count_kind_bound(bs.drop_last(), kind);
    }
}

/// Descriptors of one kind demanded by a list of set layouts.
pub open spec fn demand_kind(layouts: Seq<SetLayoutGroup>, kind: DescriptorKind) -> int
    decreases layouts.len(),
{
    if layouts.len() == 0 {
        0
    } else {
        demand_kind(layouts.drop_last(), kind) + count_kind(layouts.last().bindings@, kind)
    }
}

/// A prefix of the layouts demands no more than the whole.
pub proof fn lemma_demand_prefix(layouts: Seq<SetLayoutGroup>, kind: DescriptorKind, i: int)
    requires
        0 <= i <= layouts.len(),
    ensures
        0 <= demand_kind(layouts.take(i), kind) <= demand_kind(layouts, kind),
    decreases layouts.len(),
{
    if layouts.len() == 0 {
        assert(layouts.take(i) =~= layouts);
    } else if i == layouts.len() {
        assert(layouts.take(i) =~= layouts);
        lemma_demand_prefix(layouts.drop_last(), kind, i - 1);
        lemma_count_kind_bound(layouts.last().bindings@, kind);
    } else {
        lemma_demand_prefix(layouts.drop_last(), kind, i);
        assert(layouts.take(i) =~= layouts.drop_last().take(i));
        lemma_count_kind_bound(layouts.last().bindings@, kind);
    }
}

/// Appending one layout grows the demand by that layout's count.
pub proof fn lemma_demand_step(layouts: Seq<SetLayoutGroup>, kind: DescriptorKind, i: int)
    requires
        0 <= i < layouts.len(),
    ensures
        demand_kind(layouts.take(i + 1), kind) == demand_kind(layouts.take(i), kind) + count_kind(
            layouts[i].bindings@,
            kind,
        ),
{
    assert(layouts.take(i + 1).drop_last() =~= layouts.take(i));
    assert(layouts.take(i + 1).last() == layouts[i]);
}

/// Uniform buffer descriptors held by the live sets.
pub open spec fn sum_uniforms(live: Seq<LiveSet>) -> int
    decreases live.len(),
{
    if live.len() == 0 {
        0
    } else {
        sum_uniforms(live.drop_last()) + live.last().uniforms
    }
}

/// Combined image sampler descriptors held by the live sets.
pub open spec fn sum_samplers(live: Seq<LiveSet>) -> int
    decreases live.len(),
{
    if live.len() == 0 {
        0
    } else {
        sum_samplers(live.drop_last()) + live.last().samplers
    }
}

/// Input attachment descriptors held by the live sets.
pub open spec fn sum_attachments(live: Seq<LiveSet>) -> int
    decreases live.len(),
{
    if live.len() == 0 {
        0
    } else {
        sum_attachments(live.drop_last()) + live.last().attachments
    }
}

/// Kind totals of the live sets are never negative.
pub proof fn lemma_sums_nonneg(live: Seq<LiveSet>)
    ensures
        sum_uniforms(live) >= 0,
        sum_samplers(live) >= 0,
        sum_attachments(live) >= 0,
    decreases live.len(),
{
    if live.len() > 0 {
        lemma_sums_nonneg(live.drop_last());
    }
}

/// Counts one kind's layout entries.
pub fn kind_count(bindings: &Vec<SetLayoutBinding>, kind: DescriptorKind) -> (r: usize)
    ensures
        r == count_kind(bindings@, kind),
{
    proof {
        lemma_count_kind_bound(bindings@, kind);
    }
    let mut r: usize = 0;
    let mut i: usize = 0;
    proof {
        assert(bindings@.take(0) =~= Seq::<SetLayoutBinding>::empty());
    }
    while i < bindings.len()
        invariant
            0 <= i <= bindings@.len(),
            r == count_kind(bindings@.take(i as int), kind),
            r <= i,
        decreases bindings@.len() - i,
    {
        proof {
            assert(bindings@.take(i + 1).drop_last() =~= bindings@.take(i as int));
            assert(bindings@.take(i + 1).last() == bindings@[i as int]);
        }
        if bindings[i].kind == kind {
            r = r + 1;
        }
        i = i + 1;
    }
    proof {
        assert(bindings@.take(bindings@.len() as int) =~= bindings@);
    }
    r
}

/// The first live entry with the given handle removed; anything else is kept
/// in order.
pub open spec fn remove_handle(live: Seq<LiveSet>, h: u64) -> Seq<LiveSet>
    decreases live.len(),
{
    if live.len() == 0 {
        live
    } else if live[0].handle == h {
        live.skip(1)
    } else {
        seq![live[0]] + remove_handle(live.skip(1), h)
    }
}

/// The live list after a batch of handles is removed, first occurrences, in
/// batch order.
pub open spec fn remove_all(live: Seq<LiveSet>, hs: Seq<u64>) -> Seq<LiveSet>
    decreases hs.len(),
{
    if hs.len() == 0 {
        live
    } else {
        remove_all(remove_handle(live, hs[0]), hs.skip(1))
    }
}

/// Whether some live entry carries the handle.
pub open spec fn holds_handle(live: Seq<LiveSet>, h: u64) -> bool {
    exists|k: int| 0 <= k < live.len() && (#[trigger] live[k]).handle == h
}

/// Removing the entry at the first position with the handle is exactly
/// `remove_handle`.
proof fn lemma_remove_at(live: Seq<LiveSet>, h: u64, idx: int)
    requires
        0 <= idx < live.len(),
        live[idx].handle == h,
        forall|k: int| 0 <= k < idx ==> (#[trigger] live[k]).handle != h,
    ensures
        remove_handle(live, h) == live.take(idx) + live.skip(idx + 1),
    decreases live.len(),
{
    if idx == 0 {
        assert(live.take(0) =~= Seq::<LiveSet>::empty());
        assert(remove_handle(live, h) =~= live.take(0) + live.skip(1));
    } else {
        lemma_remove_at(live.skip(1), h, idx - 1);
        assert(live.skip(1).take(idx - 1) =~= live.take(idx).skip(1));
        assert(live.skip(1).skip(idx) =~= live.skip(idx + 1));
        assert(remove_handle(live, h) =~= live.take(idx) + live.skip(idx + 1));
    }
}

/// Removal never grows any kind's total.
proof fn lemma_sums_of_parts(live: Seq<LiveSet>, idx: int)
    requires
        0 <= idx < live.len(),
    ensures
        sum_uniforms(live.take(idx) + live.skip(idx + 1)) == sum_uniforms(live) - live[idx].uniforms,
        sum_samplers(live.take(idx) + live.skip(idx + 1)) == sum_samplers(live) - live[idx].samplers,
        sum_attachments(live.take(idx) + live.skip(idx + 1)) == sum_attachments(live)
            - live[idx].attachments,
    decreases live.len() - idx,
{
    if idx == live.len() - 1 {
        assert(live.take(idx) + live.skip(idx + 1) =~= live.drop_last());
    } else {
        let shorter = live.drop_last();
        lemma_sums_of_parts(shorter, idx);
        assert((live.take(idx) + live.skip(idx + 1)).drop_last() =~= shorter.take(idx)
            + shorter.skip(idx + 1));
        assert((live.take(idx) + live.skip(idx + 1)).last() == live.last());
    }
}

/// One entry of the client-index map: an arbitrary client-supplied index and
/// the descriptor-set list stored under it.
#[derive(Debug)]
pub struct SetListEntry {
    pub index: usize,
    pub handles: Vec<u64>,
}

/// The set list stored under a client index: the first entry with that index
/// decides; well-formed caches keep the indices unique.
pub open spec fn lookup_sets(entries: Seq<SetListEntry>, index: usize) -> Option<Seq<u64>>
    decreases entries.len(),
{
    if entries.len() == 0 {
        None
    } else if entries[0].index == index {
        Some(entries[0].handles@)
    } else {
        lookup_sets(entries.skip(1), index)
    }
}

/// Replacing the entry at a position, keeping its index, changes exactly
/// that index's lookup, provided indices are unique.
proof fn lemma_lookup_update(entries: Seq<SetListEntry>, k: int, e: SetListEntry, j: usize)
    requires
        0 <= k < entries.len(),
        e.index == entries[k].index,
        forall|k1: int, k2: int|
            0 <= k1 < k2 < entries.len() ==> entries[k1].index != entries[k2].index,
    ensures
        lookup_sets(entries.update(k, e), j) == if j == e.index {
            Some(e.handles@)
        } else {
            lookup_sets(entries, j)
        },
    decreases entries.len(),
{
    if k == 0 {
        if entries[0].index != j {
            assert(entries.update(k, e).skip(1) =~= entries.skip(1));
        }
    } else {
        lemma_lookup_update(entries.skip(1), k - 1, e, j);
        assert(entries.update(k, e).skip(1) =~= entries.skip(1).update(k - 1, e));
        assert(entries.update(k, e)[0] == entries[0]);
        if entries[0].index == j {
            assert(entries[0].index != entries[k].index);
        }
    }
}

/// Appending an entry leaves every stored index's lookup unchanged and makes
/// the new index's lookup the appended list, when the index was absent.
proof fn lemma_lookup_push(entries: Seq<SetListEntry>, e: SetListEntry, j: usize)
    requires
        forall|k: int| 0 <= k < entries.len() ==> (#[trigger] entries[k]).index != e.index,
    ensures
        lookup_sets(entries.push(e), j) == if j == e.index {
            Some(e.handles@)
        } else {
            lookup_sets(entries, j)
        },
    decreases entries.len(),
{
    reveal_with_fuel(lookup_sets, 3);
    if entries.len() == 0 {
        assert(entries.push(e)[0] == e);
        if j != e.index {
            assert(entries.push(e).skip(1) =~= Seq::<SetListEntry>::empty());
        }
    } else {
        assert forall|k: int| 0 <= k < entries.skip(1).len() implies (#[trigger] entries.skip(
            1,
        )[k]).index != e.index by {
            assert(entries.skip(1)[k] == entries[k + 1]);
        }
        lemma_lookup_push(entries.skip(1), e, j);
        assert(entries.push(e).skip(1) =~= entries.skip(1).push(e));
        assert(entries.push(e)[0] == entries[0]);
        assert(entries[0].index != e.index);
    }
}

/// A descriptor cache: one pool handle, the sets currently allocated from
/// the pool with their per-kind consumption, and a mapping from an arbitrary
/// client-supplied index to an allocated descriptor-set list. The pool's
/// capacity bounds hold at all times; they are this type's well-formedness.
#[derive(Debug)]
pub struct DescriptorCache {
    /// Handle of the descriptor pool.
    pub pool: u64,
    /// The sets currently allocated, in allocation order.
    pub live: Vec<LiveSet>,
    /// The client-index map, with unique indices.
    pub sets: Vec<SetListEntry>,
}

impl DescriptorCache {
    /// The pool's capacity is never exceeded, in sets or in any kind, and
    /// the client-index map holds each index at most once.
    pub open spec fn wf(self) -> bool {
        &&& self.live@.len() <= MAX_SETS
        &&& sum_uniforms(self.live@) <= UNIFORM_CAPACITY
        &&& sum_samplers(self.live@) <= SAMPLER_CAPACITY
        &&& sum_attachments(self.live@) <= INPUT_ATTACHMENT_CAPACITY
        &&& forall|k1: int, k2: int|
            0 <= k1 < k2 < self.sets@.len() ==> self.sets@[k1].index != self.sets@[k2].index
    }

    /// A fresh cache around a newly created pool: no sets allocated.
    pub fn new(pool: u64) -> (r: Self)
        ensures
            r.wf(),
            r.pool == pool,
            r.live@.len() == 0,
            r.sets@.len() == 0,
    {
        DescriptorCache { pool, live: Vec::new(), sets: Vec::new() }
    }

    /// Sets currently allocated from the pool.
    pub fn sets_in_use(&self) -> (r: usize)
        ensures
            r == self.live@.len(),
    {
        self.live.len()
    }

    /// One batched allocation: one new set per layout, each consuming its
    /// layout's descriptor counts, with fresh ascending handles from the
    /// issuer. Demands that the pool has room for every set and every
    /// descriptor; exhaustion is the caller's fatal error, never a partial
    /// allocation.
    pub fn allocate(
        &mut self,
        layouts: &Vec<SetLayoutGroup>,
        issuer: &mut crate::registry::HandleIssuer,
    ) -> (r: Vec<u64>)
        requires
            old(self).wf(),
            old(self).live@.len() + layouts@.len() <= MAX_SETS,
            sum_uniforms(old(self).live@) + demand_kind(layouts@, DescriptorKind::UniformBuffer)
                <= UNIFORM_CAPACITY,
            sum_samplers(old(self).live@) + demand_kind(
                layouts@,
                DescriptorKind::CombinedImageSampler,
            ) <= SAMPLER_CAPACITY,
            sum_attachments(old(self).live@) + demand_kind(
                layouts@,
                DescriptorKind::InputAttachment,
            ) <= INPUT_ATTACHMENT_CAPACITY,
            old(issuer).next + layouts@.len() <= u64::MAX,
        ensures
            final(self).wf(),
            final(self).pool == old(self).pool,
            final(self).sets == old(self).sets,
            r@.len() == layouts@.len(),
            forall|k: int| 0 <= k < r@.len() ==> r@[k] == old(issuer).next + k,
            final(issuer).next == old(issuer).next + layouts@.len(),
            final(self).live@.len() == old(self).live@.len() + layouts@.len(),
            forall|k: int| 0 <= k < old(self).live@.len() ==> final(self).live@[k] == old(
                self,
            ).live@[k],
            forall|k: int| 0 <= k < layouts@.len() ==> {
                let e = #[trigger] final(self).live@[old(self).live@.len() + k];
                &&& e.handle == old(issuer).next + k
                &&& e.uniforms == count_kind(layouts@[k].bindings@, DescriptorKind::UniformBuffer)
                &&& e.samplers == count_kind(
                    layouts@[k].bindings@,
                    DescriptorKind::CombinedImageSampler,
                )
                &&& e.attachments == count_kind(
                    layouts@[k].bindings@,
                    DescriptorKind::InputAttachment,
                )
            },
    {
        let ghost live0 = self.live@;
        let ghost next0 = issuer.next;
        let mut r: Vec<u64> = Vec::new();
        let mut j: usize = 0;
        proof {
            assert(layouts@.take(0) =~= Seq::<SetLayoutGroup>::empty());
        }
        while j < layouts.len()
            invariant
                0 <= j <= layouts@.len(),
                live0.len() + layouts@.len() <= MAX_SETS,
                sum_uniforms(live0) + demand_kind(layouts@, DescriptorKind::UniformBuffer)
                    <= UNIFORM_CAPACITY,
                sum_samplers(live0) + demand_kind(layouts@, DescriptorKind::CombinedImageSampler)
                    <= SAMPLER_CAPACITY,
                sum_attachments(live0) + demand_kind(layouts@, DescriptorKind::InputAttachment)
                    <= INPUT_ATTACHMENT_CAPACITY,
                next0 + layouts@.len() <= u64::MAX,
                issuer.next == next0 + j,
                r@.len() == j,
                forall|k: int| 0 <= k < j ==> r@[k] == next0 + k,
                self.pool == old(self).pool,
                self.sets == old(self).sets,
                old(self).wf(),
                self.live@.len() == live0.len() + j,
                forall|k: int| 0 <= k < live0.len() ==> self.live@[k] == live0[k],
                forall|k: int| 0 <= k < j ==> {
                    let e = #[trigger] self.live@[live0.len() + k];
                    &&& e.handle == next0 + k
                    &&& e.uniforms == count_kind(
                        layouts@[k].bindings@,
                        DescriptorKind::UniformBuffer,
                    )
                    &&& e.samplers == count_kind(
                        layouts@[k].bindings@,
                        DescriptorKind::CombinedImageSampler,
                    )
                    &&& e.attachments == count_kind(
                        layouts@[k].bindings@,
                        DescriptorKind::InputAttachment,
                    )
                },
                sum_uniforms(self.live@) == sum_uniforms(live0) + demand_kind(
                    layouts@.take(j as int),
                    DescriptorKind::UniformBuffer,
                ),
                sum_samplers(self.live@) == sum_samplers(live0) + demand_kind(
                    layouts@.take(j as int),
                    DescriptorKind::CombinedImageSampler,
                ),
                sum_attachments(self.live@) == sum_attachments(live0) + demand_kind(
                    layouts@.take(j as int),
                    DescriptorKind::InputAttachment,
                ),
            decreases layouts@.len() - j,
        {
            let g = &layouts[j];
            proof {
                lemma_count_kind_bound(g.bindings@, DescriptorKind::UniformBuffer);
                lemma_count_kind_bound(g.bindings@, DescriptorKind::CombinedImageSampler);
                lemma_count_kind_bound(g.bindings@, DescriptorKind::InputAttachment);
                lemma_demand_prefix(layouts@, DescriptorKind::UniformBuffer, j as int);
                lemma_demand_prefix(layouts@, DescriptorKind::CombinedImageSampler, j as int);
                lemma_demand_prefix(layouts@, DescriptorKind::InputAttachment, j as int);
                lemma_demand_step(layouts@, DescriptorKind::UniformBuffer, j as int);
                lemma_demand_step(layouts@, DescriptorKind::CombinedImageSampler, j as int);
                lemma_demand_step(layouts@, DescriptorKind::InputAttachment, j as int);
                lemma_demand_prefix(layouts@, DescriptorKind::UniformBuffer, j + 1);
                lemma_demand_prefix(layouts@, DescriptorKind::CombinedImageSampler, j + 1);
                lemma_demand_prefix(layouts@, DescriptorKind::InputAttachment, j + 1);
            }
            proof {
                lemma_sums_nonneg(live0);
                assert(count_kind(g.bindings@, DescriptorKind::UniformBuffer) == demand_kind(
                    layouts@.take(j + 1),
                    DescriptorKind::UniformBuffer,
                ) - demand_kind(layouts@.take(j as int), DescriptorKind::UniformBuffer));
                assert(count_kind(g.bindings@, DescriptorKind::CombinedImageSampler)
                    == demand_kind(layouts@.take(j + 1), DescriptorKind::CombinedImageSampler)
                    - demand_kind(layouts@.take(j as int), DescriptorKind::CombinedImageSampler));
                assert(count_kind(g.bindings@, DescriptorKind::InputAttachment) == demand_kind(
                    layouts@.take(j + 1),
                    DescriptorKind::InputAttachment,
                ) - demand_kind(layouts@.take(j as int), DescriptorKind::InputAttachment));
            }
            let nu = kind_count(&g.bindings, DescriptorKind::UniformBuffer);
            let ns = kind_count(&g.bindings, DescriptorKind::CombinedImageSampler);
            let na = kind_count(&g.bindings, DescriptorKind::InputAttachment);
            proof {
                assert(nu <= UNIFORM_CAPACITY);
                assert(ns <= SAMPLER_CAPACITY);
                assert(na <= INPUT_ATTACHMENT_CAPACITY);
            }
            let h = issuer.issue();
            let entry = LiveSet {
                handle: h,
                uniforms: nu as u32,
                samplers: ns as u32,
                attachments: na as u32,
            };
            let ghost live_before = self.live@;
            self.live.push(entry);
            r.push(h);
            proof {
                assert(self.live@.drop_last() =~= live_before);
                assert(self.live@.last() == entry);
                assert(sum_uniforms(self.live@) == sum_uniforms(live_before) + entry.uniforms);
                assert(sum_samplers(self.live@) == sum_samplers(live_before) + entry.samplers);
                assert(sum_attachments(self.live@) == sum_attachments(live_before)
                    + entry.attachments);
            }
            j = j + 1;
        }
        proof {
            assert(layouts@.take(layouts@.len() as int) =~= layouts@);
        }
        r
    }

    /// One batched release: removes the given sets from the pool, returning
    /// their capacity. Every handle must name a set this pool currently
    /// holds, each at most once; there is no partial free.
    pub fn free(&mut self, handles: &Vec<u64>)
        requires
            old(self).wf(),
            forall|k: int| 0 <= k < handles@.len() ==> holds_handle(
                remove_all(old(self).live@, handles@.take(k)),
                #[trigger] handles@[k],
            ),
        ensures
            final(self).wf(),
            final(self).pool == old(self).pool,
            final(self).sets == old(self).sets,
            final(self).live@ == remove_all(old(self).live@, handles@),
    {
        let ghost live0 = self.live@;
        let ghost hs = handles@;
        let mut k: usize = 0;
        proof {
            assert(hs.take(0) =~= Seq::<u64>::empty());
        }
        while k < handles.len()
            invariant
                0 <= k <= hs.len(),
                hs == handles@,
                old(self).wf(),
                forall|m: int| 0 <= m < hs.len() ==> holds_handle(
                    remove_all(live0, hs.take(m)),
                    #[trigger] hs[m],
                ),
                self.live@ == remove_all(live0, hs.take(k as int)),
                self.pool == old(self).pool,
                self.sets == old(self).sets,
                self.wf(),
            decreases hs.len() - k,
        {
            let h = handles[k];
            proof {
                assert(holds_handle(remove_all(live0, hs.take(k as int)), h));
            }
            let mut idx: usize = 0;
            let n = self.live.len();
            while idx < n && self.live[idx].handle != h
                invariant
                    0 <= idx <= n,
                    n == self.live@.len(),
                    holds_handle(self.live@, h),
                    forall|m: int| 0 <= m < idx ==> (#[trigger] self.live@[m]).handle != h,
                decreases n - idx,
            {
                idx = idx + 1;
            }
            proof {
                if idx == n {
                    let w = choose|w: int|
                        0 <= w < self.live@.len() && (#[trigger] self.live@[w]).handle == h;
                    assert(false);
                }
                lemma_remove_at(self.live@, h, idx as int);
                lemma_sums_of_parts(self.live@, idx as int);
            }
            let ghost live_before = self.live@;
            self.live.remove(idx);
            proof {
                assert(self.live@ =~= live_before.take(idx as int) + live_before.skip(idx + 1));
                lemma_remove_all_snoc(live0, hs.take(k + 1));
                assert(hs.take(k + 1).drop_last() =~= hs.take(k as int));
                assert(hs.take(k + 1).last() == h);
                assert(self.live@ == remove_all(live0, hs.take(k + 1)));
            }
            k = k + 1;
        }
        proof {
            assert(hs.take(hs.len() as int) =~= hs);
        }
    }

    /// Stores a descriptor-set list under a client index, replacing what the
    /// index held before; every other index is untouched.
    pub fn insert_sets(&mut self, index: usize, handles: Vec<u64>)
        requires
            old(self).wf(),
        ensures
            final(self).wf(),
            final(self).pool == old(self).pool,
            final(self).live == old(self).live,
            lookup_sets(final(self).sets@, index) == Some(handles@),
            forall|j: usize|
                j != index ==> lookup_sets(final(self).sets@, j) == lookup_sets(
                    old(self).sets@,
                    j,
                ),
    {
        let ghost entries0 = self.sets@;
        let n = self.sets.len();
        let mut k: usize = 0;
        while k < n && self.sets[k].index != index
            invariant
                0 <= k <= n,
                n == self.sets@.len(),
                forall|m: int| 0 <= m < k ==> (#[trigger] self.sets@[m]).index != index,
            decreases n - k,
        {
            k = k + 1;
        }
        if k < n {
            let ghost handles_g = handles@;
            let entry = &mut self.sets[k];
            proof {
                assert(entry.index == index);
            }
            entry.handles = handles;
            proof {
                let e = SetListEntry { index: entries0[k as int].index, handles: entry.handles };
                assert(self.sets@ =~= entries0.update(k as int, self.sets@[k as int]));
                assert forall|j: usize| true implies lookup_sets(self.sets@, j) == (if j == index {
                    Some(handles_g)
                } else {
                    lookup_sets(entries0, j)
                }) by {
                    lemma_lookup_update(entries0, k as int, self.sets@[k as int], j);
                }
            }
        } else {
            let ghost handles_g = handles@;
            self.sets.push(SetListEntry { index, handles });
            proof {
                assert(self.sets@.drop_last() =~= entries0);
                assert forall|j: usize| true implies lookup_sets(self.sets@, j) == (if j == index {
                    Some(handles_g)
                } else {
                    lookup_sets(entries0, j)
                }) by {
                    assert(self.sets@ =~= entries0.push(self.sets@.last()));
                    lemma_lookup_push(entries0, self.sets@.last(), j);
                }
                assert forall|k1: int, k2: int|
                    0 <= k1 < k2 < self.sets@.len() implies self.sets@[k1].index
                    != self.sets@[k2].index by {
                    if k2 == self.sets@.len() - 1 {
                        assert(entries0[k1].index != index);
                    }
                }
            }
        }
    }

    /// The descriptor-set list stored under a client index, if any.
    pub fn get_sets(&self, index: usize) -> (r: Option<&Vec<u64>>)
        ensures
            match r {
                Some(v) => lookup_sets(self.sets@, index) == Some(v@),
                None => lookup_sets(self.sets@, index) is None,
            },
    {
        let ghost entries = self.sets@;
        let n = self.sets.len();
        let mut k: usize = 0;
        proof {
            assert(entries.skip(0) =~= entries);
        }
        while k < n
            invariant
                0 <= k <= n,
                n == self.sets@.len(),
                entries == self.sets@,
                lookup_sets(entries, index) == lookup_sets(entries.skip(k as int), index),
            decreases n - k,
        {
            proof {
                assert(entries.skip(k as int)[0] == entries[k as int]);
                assert(entries.skip(k as int).skip(1) =~= entries.skip(k + 1));
            }
            if self.sets[k].index == index {
                return Some(&self.sets[k].handles);
            }
            k = k + 1;
        }
        proof {
            assert(entries.skip(n as int) =~= Seq::<SetListEntry>::empty());
        }
        None
    }
}

/// Removing a batch then one more handle is removing the extended batch.
proof fn lemma_remove_all_snoc(live: Seq<LiveSet>, hs: Seq<u64>)
    requires
        hs.len() > 0,
    ensures
        remove_all(live, hs) == remove_handle(remove_all(live, hs.drop_last()), hs.last()),
    decreases hs.len(),
{
    reveal_with_fuel(remove_all, 3);
    if hs.len() == 1 {
        assert(hs.drop_last() =~= Seq::<u64>::empty());
        assert(hs.skip(1) =~= Seq::<u64>::empty());
        assert(remove_all(live, hs) == remove_handle(live, hs[0]));
        assert(remove_all(live, hs.drop_last()) == live);
    } else {
        lemma_remove_all_snoc(remove_handle(live, hs[0]), hs.skip(1));
        assert(hs.skip(1).drop_last() =~= hs.drop_last().skip(1));
        assert(hs.skip(1).last() == hs.last());
        assert(hs.drop_last()[0] == hs[0]);
        assert(remove_all(live, hs.drop_last()) == remove_all(
            remove_handle(live, hs[0]),
            hs.drop_last().skip(1),
        ));
        assert(remove_all(live, hs) == remove_all(remove_handle(live, hs[0]), hs.skip(1)));
    }
}

} // verus!
