//! The pipeline variant registry: a fixed table indexed by pipeline
//! identity, holding at most one constructed variant per identity, a lazily
//! built shared shader module handle, and the render pass every variant
//! compiles against. Native resources are modeled as distinct integer
//! handles drawn from one issuer, so that ownership and release order are
//! stated exactly.

use vstd::prelude::*;
use vstd::pervasive::unreached;
use crate::plan::PipelinePlan;
use crate::pool::DescriptorCache;

verus! {

/// Issues native resource handles: each one fresh and strictly larger than
/// every handle issued before it.
#[derive(Debug)]
pub struct HandleIssuer {
    pub next: u64,
}

impl HandleIssuer {
    /// A fresh issuer; handle zero is never issued.
    pub fn new() -> (r: Self)
        ensures
            r.next == 1,
    {
        HandleIssuer { next: 1 }
    }

    /// Issues one handle.
    pub fn issue(&mut self) -> (h: u64)
        requires
            old(self).next < u64::MAX,
        ensures
            h == old(self).next,
            final(self).next == old(self).next + 1,
    {
        let h = self.next;
        self.next = self.next + 1;
        h
    }
}

/// One released native resource, in the order releases happen.
#[derive(Clone, Copy, PartialEq, Eq, Structural, Debug)]
pub enum Release {
    Pool(u64),
    Pipeline(u64),
    PipelineLayout(u64),
    SetLayout(u64),
    ShaderModule(u64),
}

/// One constructed pipeline variant: its descriptor-set layouts in ascending
/// set order, its pipeline layout, its pipeline, and its descriptor caches.
#[derive(Debug)]
pub struct PipelineVariant {
    /// The variant's identity, in camel case.
    pub name: String,
    /// One set-layout handle per distinct set index, in creation order.
    pub set_layouts: Vec<u64>,
    /// The pipeline layout handle.
    pub layout: u64,
    /// The pipeline handle.
    pub pipeline: u64,
    /// Descriptor caches, grown on demand and never shrunk.
    pub caches: Vec<DescriptorCache>,
}

impl PipelineVariant {
    /// Core handles were issued in creation order: set layouts strictly
    /// ascending, then the pipeline layout, then the pipeline; every
    /// descriptor cache respects its pool capacity; and pool handles were
    /// issued in cache creation order, strictly ascending, so no two caches
    /// of the variant share a pool.
    pub open spec fn wf(self) -> bool {
        &&& forall|k1: int, k2: int|
            0 <= k1 < k2 < self.set_layouts@.len() ==> self.set_layouts@[k1]
                < self.set_layouts@[k2]
        &&& forall|k: int| 0 <= k < self.set_layouts@.len() ==> self.set_layouts@[k] < self.layout
        &&& self.layout < self.pipeline
        &&& forall|k: int| 0 <= k < self.caches@.len() ==> (#[trigger] self.caches@[k]).wf()
        &&& forall|k1: int, k2: int|
            0 <= k1 < k2 < self.caches@.len() ==> self.caches@[k1].pool < self.caches@[k2].pool
    }

    /// Every pool handle of the variant lies below the bound.
    pub open spec fn pools_below(self, bound: u64) -> bool {
        forall|k: int| 0 <= k < self.caches@.len() ==> (#[trigger] self.caches@[k]).pool < bound
    }

    /// The least core handle.
    pub open spec fn core_lo(self) -> u64 {
        if self.set_layouts@.len() > 0 {
            self.set_layouts@[0]
        } else {
            self.layout
        }
    }

    /// Whether a handle is one of the variant's core handles: its pipeline,
    /// its pipeline layout, or one of its set layouts.
    pub open spec fn core_contains(self, h: u64) -> bool {
        h == self.pipeline || h == self.layout || self.set_layouts@.contains(h)
    }

    /// Core handles lie between the least one and the pipeline handle.
    pub proof fn lemma_core_range(self, h: u64)
        requires
            self.wf(),
            self.core_contains(h),
        ensures
            self.core_lo() <= h <= self.pipeline,
    {
        if self.set_layouts@.contains(h) {
            let k = choose|k: int|
                0 <= k < self.set_layouts@.len() && self.set_layouts@[k] == h;
            if k > 0 {
                assert(self.set_layouts@[0] < self.set_layouts@[k]);
            }
        }
    }

    /// The variant's release sequence: its caches' pools in reverse creation
    /// order, then the pipeline, then the pipeline layout, then each set
    /// layout in creation order.
    pub open spec fn releases(self) -> Seq<Release> {
        let n = self.caches@.len();
        Seq::new(n, |i: int| Release::Pool(self.caches@[n - 1 - i].pool)) + seq![
            Release::Pipeline(self.pipeline),
            Release::PipelineLayout(self.layout),
        ] + self.set_layouts@.map_values(|h: u64| Release::SetLayout(h))
    }

    /// Destroys the variant, releasing every owned native resource exactly
    /// once: pools in reverse creation order, then the pipeline, the
    /// pipeline layout, and the set layouts, in that order.
    pub fn destroy(self) -> (log: Vec<Release>)
        ensures
            log@ == self.releases(),
    {
        let PipelineVariant { name: _, set_layouts, layout, pipeline, mut caches } = self;
        let ghost caches0 = caches@;
        let mut log: Vec<Release> = Vec::new();
        let n = caches.len();
        while caches.len() > 0
            invariant
                caches@ =~= caches0.take(caches@.len() as int),
                caches@.len() <= n == caches0.len(),
                log@.len() == n - caches@.len(),
                forall|i: int| 0 <= i < log@.len() ==> log@[i] == Release::Pool(
                    caches0[n - 1 - i].pool,
                ),
            decreases caches@.len(),
        {
            let c = match caches.pop() {
                Some(c) => c,
                None => unreached(),
            };
            log.push(Release::Pool(c.pool));
        }
        log.push(Release::Pipeline(pipeline));
        log.push(Release::PipelineLayout(layout));
        let mut k: usize = 0;
        let ghost mid = log@;
        while k < set_layouts.len()
            invariant
                0 <= k <= set_layouts@.len(),
                log@ == mid + set_layouts@.take(k as int).map_values(
                    |h: u64| Release::SetLayout(h),
                ),
            decreases set_layouts@.len() - k,
        {
            log.push(Release::SetLayout(set_layouts[k]));
            proof {
                assert(log@ =~= mid + set_layouts@.take(k + 1).map_values(
                    |h: u64| Release::SetLayout(h),
                ));
            }
            k = k + 1;
        }
        proof {
            assert(set_layouts@.take(set_layouts@.len() as int) =~= set_layouts@);
            assert(log@ =~= self.releases());
        }
        log
    }
}

/// Two constructed variants never share a core handle: their core handle
/// ranges are disjoint.
pub open spec fn core_disjoint(a: PipelineVariant, b: PipelineVariant) -> bool {
    a.pipeline < b.core_lo() || b.pipeline < a.core_lo()
}

/// Two variants share no descriptor pool.
pub open spec fn pools_disjoint(a: PipelineVariant, b: PipelineVariant) -> bool {
    forall|k1: int, k2: int|
        0 <= k1 < a.caches@.len() && 0 <= k2 < b.caches@.len() ==> (#[trigger] a.caches@[k1]).pool
            != (#[trigger] b.caches@[k2]).pool
}

/// The registry's fixed table: one optional variant per identity, the
/// construction plans, the identities in construction order, the handle
/// issuer, the lazily built shader module handle, and the borrowed render
/// pass handle.
#[derive(Debug)]
pub struct PipelineRegistry {
    /// One construction plan per identity.
    pub plans: Vec<PipelinePlan>,
    /// At most one constructed variant per identity.
    pub table: Vec<Option<PipelineVariant>>,
    /// Identities in construction order.
    pub order: Vec<usize>,
    /// Source of fresh native handles.
    pub issuer: HandleIssuer,
    /// The shared shader module handle, built on the first construction.
    pub shader_module: Option<u64>,
    /// The render pass all variants compile against; borrowed, never
    /// released here.
    pub render_pass: u64,
}

impl PipelineRegistry {
    /// The variant constructed for an identity. Meaningful only where the
    /// table holds one.
    pub open spec fn variant_at(self, id: int) -> PipelineVariant {
        match self.table@[id] {
            Some(v) => v,
            None => vstd::pervasive::arbitrary(),
        }
    }

    /// Whether the identity's variant has been constructed.
    pub open spec fn constructed(self, id: int) -> bool {
        0 <= id < self.table@.len() && self.table@[id] is Some
    }

    /// The registry's invariant: the table matches the plans; the order list
    /// names exactly the constructed identities, each once; every
    /// constructed variant is well formed, matches its plan, and its core
    /// handles are below the issuer's next handle; and the core handles of
    /// distinct variants are disjoint.
    pub open spec fn wf(self) -> bool {
        &&& self.table@.len() == self.plans@.len()
        &&& forall|id: int| self.constructed(id) ==> (#[trigger] self.variant_at(id)).wf()
        &&& forall|id: int| #[trigger]
            self.constructed(id) ==> self.variant_at(id).pipeline < self.issuer.next
        &&& forall|id: int| #[trigger]
            self.constructed(id) ==> self.variant_at(id).name@ == self.plans@[id].name@
        &&& forall|id: int| #[trigger]
            self.constructed(id) ==> self.variant_at(id).set_layouts@.len()
                == self.plans@[id].set_layouts@.len()
        &&& forall|k: int|
            0 <= k < self.order@.len() ==> self.constructed(#[trigger] self.order@[k] as int)
        &&& forall|k1: int, k2: int|
            0 <= k1 < k2 < self.order@.len() ==> self.order@[k1] != self.order@[k2]
        &&& forall|id: int| self.constructed(id) ==> self.order@.contains(id as usize)
        &&& forall|id: int| #[trigger]
            self.constructed(id) ==> self.variant_at(id).pools_below(self.issuer.next)
        &&& forall|id1: int, id2: int|
            #![trigger self.variant_at(id1), self.variant_at(id2)]
            self.constructed(id1) && self.constructed(id2) && id1 != id2 ==> core_disjoint(
                self.variant_at(id1),
                self.variant_at(id2),
            ) && pools_disjoint(self.variant_at(id1), self.variant_at(id2))
        &&& match self.shader_module {
            Some(h) => h < self.issuer.next,
            None => true,
        }
    }

    /// An empty registry over the module's plans: nothing constructed, no
    /// shader module yet.
    pub fn new(plans: Vec<PipelinePlan>, render_pass: u64) -> (r: Self)
        ensures
            r.wf(),
            r.plans@ == plans@,
            r.table@.len() == plans@.len(),
            forall|id: int| 0 <= id < r.table@.len() ==> !r.constructed(id),
            r.order@.len() == 0,
            r.shader_module is None,
            r.render_pass == render_pass,
            r.issuer.next == 1,
    {
        let mut table: Vec<Option<PipelineVariant>> = Vec::new();
        let mut i: usize = 0;
        let n = plans.len();
        while i < n
            invariant
                0 <= i <= n,
                table@.len() == i,
                forall|k: int| 0 <= k < i ==> table@[k] is None,
            decreases n - i,
        {
            table.push(None);
            i = i + 1;
        }
        PipelineRegistry {
            plans,
            table,
            order: Vec::new(),
            issuer: HandleIssuer::new(),
            shader_module: None,
            render_pass,
        }
    }

    /// How many identities the registry covers.
    pub fn pipeline_count(&self) -> (r: usize)
        ensures
            r == self.table@.len(),
    {
        self.table.len()
    }

    /// Read access to a constructed variant.
    pub fn borrow_variant(&self, id: usize) -> (v: &PipelineVariant)
        requires
            self.constructed(id as int),
        ensures
            *v == self.variant_at(id as int),
    {
        match &self.table[id] {
            Some(v) => v,
            None => unreached(),
        }
    }

    /// Lazily constructs the variant of one identity and returns it: the
    /// first request builds the shader module if no variant was built yet,
    /// then the set layouts in ascending set order, the pipeline layout, and
    /// the pipeline, all with fresh handles; every later request returns the
    /// same instance unchanged, constructing nothing.
    pub fn get(&mut self, id: usize) -> (v: &PipelineVariant)
        requires
            old(self).wf(),
            id < old(self).table@.len(),
            old(self).issuer.next + old(self).plans@[id as int].set_layouts@.len() + 3
                <= u64::MAX,
        ensures
            final(self).wf(),
            final(self).table@.len() == old(self).table@.len(),
            final(self).plans@ == old(self).plans@,
            final(self).render_pass == old(self).render_pass,
            final(self).constructed(id as int),
            *v == final(self).variant_at(id as int),
            old(self).shader_module is Some ==> final(self).shader_module == old(
                self,
            ).shader_module,
            final(self).issuer.next <= old(self).issuer.next + old(self).plans@[
                id as int
            ].set_layouts@.len() + 3,
            old(self).constructed(id as int) ==> *final(self) == *old(self) && *v == old(
                self,
            ).variant_at(id as int),
            !old(self).constructed(id as int) ==> {
                &&& final(self).table@ == old(self).table@.update(id as int, Some(*v))
                &&& final(self).order@ == old(self).order@.push(id)
                &&& v.name@ == old(self).plans@[id as int].name@
                &&& v.set_layouts@.len() == old(self).plans@[id as int].set_layouts@.len()
                &&& v.caches@.len() == 0
                &&& v.core_lo() >= old(self).issuer.next
                &&& final(self).shader_module is Some
            },
    {
        if self.table[id].is_some() {
            return match &self.table[id] {
                Some(v) => v,
                None => unreached(),
            };
        }
        let ghost old_self = *self;
        // The shared shader module is built once, on the first construction
        // that needs it.
        if self.shader_module.is_none() {
            let m = self.issuer.issue();
            self.shader_module = Some(m);
        }
        let ghost sm = self.shader_module;
        let n_sets = self.plans[id].set_layouts.len();
        let ghost base = self.issuer.next;
        let mut set_layouts: Vec<u64> = Vec::new();
        let mut k: usize = 0;
        while k < n_sets
            invariant
                0 <= k <= n_sets,
                set_layouts@.len() == k,
                self.issuer.next == base + k,
                base + n_sets + 2 <= u64::MAX,
                forall|m: int| 0 <= m < k ==> set_layouts@[m] == base + m,
                self.plans == old_self.plans,
                self.table == old_self.table,
                self.order == old_self.order,
                self.render_pass == old_self.render_pass,
                self.shader_module == sm,
                sm is Some,
                sm matches Some(h) ==> h < base,
            decreases n_sets - k,
        {
            let h = self.issuer.issue();
            set_layouts.push(h);
            k = k + 1;
        }
        let layout = self.issuer.issue();
        let pipeline = self.issuer.issue();
        let name = self.plans[id].name.clone();
        let v = PipelineVariant { name, set_layouts, layout, pipeline, caches: Vec::new() };
        self.table[id] = Some(v);
        self.order.push(id);
        proof {
            let fin = *self;
            assert(fin.variant_at(id as int).wf());
            assert forall|j: int| fin.constructed(j) && j != id implies fin.variant_at(j)
                == old_self.variant_at(j) && old_self.constructed(j) by {}
            assert forall|i1: int, i2: int|
                #![trigger fin.variant_at(i1), fin.variant_at(i2)]
                fin.constructed(i1) && fin.constructed(i2) && i1 != i2 implies core_disjoint(
                fin.variant_at(i1),
                fin.variant_at(i2),
            ) by {
                if i1 == id {
                    assert(old_self.constructed(i2));
                    assert(old_self.variant_at(i2).pipeline < old_self.issuer.next);
                    assert(fin.variant_at(i1).core_lo() >= base);
                } else if i2 == id {
                    assert(old_self.constructed(i1));
                    assert(old_self.variant_at(i1).pipeline < old_self.issuer.next);
                    assert(fin.variant_at(i2).core_lo() >= base);
                } else {
                    assert(old_self.constructed(i1) && old_self.constructed(i2));
                    assert(core_disjoint(old_self.variant_at(i1), old_self.variant_at(i2)));
                }
            }
            assert forall|i1: int| fin.constructed(i1) implies fin.order@.contains(
                i1 as usize,
            ) by {
                if i1 != id {
                    assert(old_self.constructed(i1));
                    assert(old_self.order@.contains(i1 as usize));
                    let w = choose|w: int|
                        0 <= w < old_self.order@.len() && old_self.order@[w] == i1 as usize;
                    assert(fin.order@[w] == i1 as usize);
                } else {
                    assert(fin.order@[fin.order@.len() - 1] == id);
                }
            }
        }
        match &self.table[id] {
            Some(v) => v,
            None => unreached(),
        }
    }

    /// Grows a constructed variant's descriptor caches on demand until the
    /// index is in range, each new cache around a fresh pool, and returns
    /// the pool handle at that index: monotonic growth, never shrinking, and
    /// existing caches are left unchanged.
    pub fn get_cache(&mut self, id: usize, index: usize) -> (pool: u64)
        requires
            old(self).wf(),
            old(self).constructed(id as int),
            old(self).issuer.next + index + 1 <= u64::MAX,
        ensures
            final(self).wf(),
            final(self).plans@ == old(self).plans@,
            final(self).order@ == old(self).order@,
            final(self).render_pass == old(self).render_pass,
            final(self).shader_module == old(self).shader_module,
            final(self).table@.len() == old(self).table@.len(),
            forall|j: int|
                0 <= j < final(self).table@.len() && j != id ==> final(self).table@[j] == old(
                    self,
                ).table@[j],
            final(self).constructed(id as int),
            final(self).issuer.next <= old(self).issuer.next + index + 1,
            cache_growth(
                old(self).variant_at(id as int),
                final(self).variant_at(id as int),
                index as int,
                pool,
            ),
            forall|k: int|
                old(self).variant_at(id as int).caches@.len() <= k < final(self).variant_at(
                    id as int,
                ).caches@.len() ==> (#[trigger] final(self).variant_at(id as int).caches@[k]).pool
                    >= old(self).issuer.next,
    {
        let ghost old_self = *self;
        let slot = &mut self.table[id];
        let issuer = &mut self.issuer;
        let taken = slot.take();
        let mut v = match taken {
            Some(v) => v,
            None => unreached(),
        };
        let ghost v0 = v;
        let ghost next0 = issuer.next;
        proof {
            assert(v0 == old_self.variant_at(id as int));
        }
        proof {
            assert(old_self.variant_at(id as int).pools_below(old_self.issuer.next));
        }
        while v.caches.len() <= index
            invariant
                v0.wf(),
                v0.pools_below(next0),
                v.name == v0.name,
                v.set_layouts == v0.set_layouts,
                v.layout == v0.layout,
                v.pipeline == v0.pipeline,
                v.caches@.len() >= v0.caches@.len(),
                v.caches@.len() <= index + 1 || v.caches@.len() == v0.caches@.len(),
                issuer.next == next0 + v.caches@.len() - v0.caches@.len(),
                next0 + index + 1 <= u64::MAX,
                forall|k: int| 0 <= k < v0.caches@.len() ==> v.caches@[k] == v0.caches@[k],
                forall|k: int|
                    v0.caches@.len() <= k < v.caches@.len() ==> (#[trigger] v.caches@[k]).live@
                        =~= Seq::<crate::pool::LiveSet>::empty(),
                forall|k: int|
                    v0.caches@.len() <= k < v.caches@.len() ==> (#[trigger] v.caches@[k]).wf(),
                forall|k: int|
                    v0.caches@.len() <= k < v.caches@.len() ==> (#[trigger] v.caches@[k]).pool
                        >= next0,
                v.pools_below(issuer.next),
                forall|k1: int, k2: int|
                    0 <= k1 < k2 < v.caches@.len() ==> v.caches@[k1].pool < v.caches@[k2].pool,
            decreases index + 1 - v.caches@.len(),
        {
            let h = issuer.issue();
            v.caches.push(DescriptorCache::new(h));
        }
        let pool: u64 = v.caches[index].pool;
        *slot = Some(v);
        proof {
            let fin = *self;
            assert(fin.table@ == old_self.table@.update(
                id as int,
                fin.table@[id as int],
            ));
            assert forall|j: int| fin.constructed(j) && j != id implies (fin.variant_at(j)
                == old_self.variant_at(j) && old_self.constructed(j)) by {}
            assert(fin.variant_at(id as int).wf());
            assert forall|i1: int, i2: int|
                #![trigger fin.variant_at(i1), fin.variant_at(i2)]
                fin.constructed(i1) && fin.constructed(i2) && i1 != i2 implies (core_disjoint(
                fin.variant_at(i1),
                fin.variant_at(i2),
            ) && pools_disjoint(fin.variant_at(i1), fin.variant_at(i2))) by {
                assert(core_disjoint(old_self.variant_at(i1), old_self.variant_at(i2)));
                assert(pools_disjoint(old_self.variant_at(i1), old_self.variant_at(i2)));
                let w1 = fin.variant_at(i1);
                let w2 = fin.variant_at(i2);
                assert forall|k1: int, k2: int|
                    0 <= k1 < w1.caches@.len() && 0 <= k2 < w2.caches@.len() implies (
                #[trigger] w1.caches@[k1]).pool != (#[trigger] w2.caches@[k2]).pool by {
                    if i1 == id && k1 >= v0.caches@.len() {
                        assert(w1.caches@[k1].pool >= next0);
                        assert(old_self.variant_at(i2).pools_below(old_self.issuer.next));
                        assert(w2.caches@[k2].pool < next0);
                    } else if i2 == id && k2 >= v0.caches@.len() {
                        assert(w2.caches@[k2].pool >= next0);
                        assert(old_self.variant_at(i1).pools_below(old_self.issuer.next));
                        assert(w1.caches@[k1].pool < next0);
                    } else {
                        assert(w1.caches@[k1] == old_self.variant_at(i1).caches@[k1]);
                        assert(w2.caches@[k2] == old_self.variant_at(i2).caches@[k2]);
                    }
                }
            }
            assert forall|j: int| #[trigger] fin.constructed(j) implies fin.variant_at(
                j,
            ).pools_below(fin.issuer.next) by {
                if j != id {
                    assert(old_self.variant_at(j).pools_below(old_self.issuer.next));
                }
            }
            assert forall|i1: int| fin.constructed(i1) implies fin.order@.contains(
                i1 as usize,
            ) by {
                assert(old_self.constructed(i1));
            }
        }
        pool
    }

    /// The registry's release sequence over a construction order: the last
    /// constructed variant's releases first, back to the first constructed.
    pub open spec fn order_releases(
        table: Seq<Option<PipelineVariant>>,
        order: Seq<usize>,
    ) -> Seq<Release>
        decreases order.len(),
    {
        if order.len() == 0 {
            Seq::empty()
        } else {
            (match table[order.last() as int] {
                Some(v) => v.releases(),
                None => Seq::empty(),
            }) + Self::order_releases(table, order.drop_last())
        }
    }

    /// Everything the registry's destruction releases: every constructed
    /// variant, in reverse construction order, then the shader module if it
    /// was built. The render pass is borrowed and not released here.
    pub open spec fn registry_releases(self) -> Seq<Release> {
        Self::order_releases(self.table@, self.order@) + match self.shader_module {
            Some(h) => seq![Release::ShaderModule(h)],
            None => Seq::empty(),
        }
    }

    /// Destroys the registry: releases every constructed variant exactly
    /// once, in reverse construction order — each variant's pools, then its
    /// pipeline, pipeline layout, and set layouts — and finally the shared
    /// shader module.
    pub fn destroy(self) -> (log: Vec<Release>)
        requires
            self.wf(),
        ensures
            log@ == self.registry_releases(),
    {
        let ghost table0 = self.table@;
        let ghost order0 = self.order@;
        let PipelineRegistry { plans: _, mut table, mut order, issuer: _, shader_module, render_pass: _ } =
            self;
        let mut log: Vec<Release> = Vec::new();
        proof {
            assert(order0.take(order0.len() as int) =~= order0);
        }
        while order.len() > 0
            invariant
                order@ =~= order0.take(order@.len() as int),
                order@.len() <= order0.len(),
                table@.len() == table0.len(),
                forall|k1: int, k2: int|
                    0 <= k1 < k2 < order0.len() ==> order0[k1] != order0[k2],
                forall|k: int|
                    0 <= k < order0.len() ==> 0 <= #[trigger] order0[k] < table0.len()
                        && table0[order0[k] as int] is Some,
                forall|k: int|
                    0 <= k < order@.len() ==> table@[#[trigger] order0[k] as int] == table0[order0[k] as int],
                log@ + Self::order_releases(table0, order@) =~= Self::order_releases(
                    table0,
                    order0,
                ),
            decreases order@.len(),
        {
            let id = match order.pop() {
                Some(id) => id,
                None => unreached(),
            };
            proof {
                assert(order0[order@.len() as int] == id);
                assert(table0[id as int] is Some);
                assert(table@[id as int] == table0[id as int]);
            }
            let slot = &mut table[id];
            let taken = slot.take();
            let v = match taken {
                Some(v) => v,
                None => unreached(),
            };
            let ghost log_before = log@;
            let mut rel = v.destroy();
            log.append(&mut rel);
            proof {
                let m = order@.len() as int;
                assert(order@ =~= order0.take(m));
                assert(order0.take(m + 1).drop_last() =~= order0.take(m));
                assert(order0.take(m + 1).last() == id);
                assert forall|k: int| 0 <= k < order@.len() implies table@[#[trigger] order0[k] as int]
                    == table0[order0[k] as int] by {
                    assert(order0[k] != id);
                }
                assert(Self::order_releases(table0, order0.take(m + 1)) == v.releases()
                    + Self::order_releases(table0, order0.take(m)));
                assert(log@ =~= log_before + v.releases());
                assert(log@ + Self::order_releases(table0, order@) =~= (log_before
                    + Self::order_releases(table0, order0.take(m + 1))));
                assert(log@ + Self::order_releases(table0, order@) =~= Self::order_releases(
                    table0,
                    order0,
                ));
            }
        }
        proof {
            assert(order0.take(0) =~= Seq::<usize>::empty());
        }
        match shader_module {
            Some(h) => {
                log.push(Release::ShaderModule(h));
            },
            None => {},
        }
        proof {
            assert(log@ =~= self.registry_releases());
        }
        log
    }
}

/// How one variant's cache list grows on demand: core handles and existing
/// caches unchanged, the list long enough to hold the index, every added
/// cache empty, and the returned pool the one at the index.
pub open spec fn cache_growth(
    v0: PipelineVariant,
    v1: PipelineVariant,
    index: int,
    pool: u64,
) -> bool {
    &&& v1.name == v0.name
    &&& v1.set_layouts == v0.set_layouts
    &&& v1.layout == v0.layout
    &&& v1.pipeline == v0.pipeline
    &&& v1.caches@.len() == if index < v0.caches@.len() {
        v0.caches@.len() as int
    } else {
        index + 1
    }
    &&& forall|k: int| 0 <= k < v0.caches@.len() ==> v1.caches@[k] == v0.caches@[k]
    &&& forall|k: int|
        v0.caches@.len() <= k < v1.caches@.len() ==> (#[trigger] v1.caches@[k]).live@ =~= Seq::<
            crate::pool::LiveSet,
        >::empty()
    &&& 0 <= index < v1.caches@.len()
    &&& pool == v1.caches@[index].pool
}

/// Distinct identities never share a native resource: their pipelines,
/// pipeline layouts, and set layouts are pairwise different handles.
pub proof fn lemma_variants_share_nothing(r: PipelineRegistry, id1: int, id2: int, h: u64)
    requires
        r.wf(),
        r.constructed(id1),
        r.constructed(id2),
        id1 != id2,
    ensures
        !(r.variant_at(id1).core_contains(h) && r.variant_at(id2).core_contains(h)),
        r.variant_at(id1).pipeline != r.variant_at(id2).pipeline,
        r.variant_at(id1).layout != r.variant_at(id2).layout,
{
    let v1 = r.variant_at(id1);
    let v2 = r.variant_at(id2);
    assert(core_disjoint(v1, v2));
    if v1.core_contains(h) && v2.core_contains(h) {
        v1.lemma_core_range(h);
        v2.lemma_core_range(h);
    }
    assert(v1.core_contains(v1.pipeline));
    assert(v2.core_contains(v2.pipeline));
    if v1.pipeline == v2.pipeline {
        v1.lemma_core_range(v1.pipeline);
        v2.lemma_core_range(v1.pipeline);
    }
    if v1.layout == v2.layout {
        v1.lemma_core_range(v1.layout);
        v2.lemma_core_range(v2.layout);
    }
}




/// How often a release occurs in a log.
pub open spec fn count_release(rs: Seq<Release>, r: Release) -> int
    decreases rs.len(),
{
    if rs.len() == 0 {
        0
    } else {
        count_release(rs.drop_last(), r) + if rs.last() == r {
            1int
        } else {
            0int
        }
    }
}

/// Counting distributes over concatenation.
proof fn lemma_count_concat(a: Seq<Release>, b: Seq<Release>, r: Release)
    ensures
        count_release(a + b, r) == count_release(a, r) + count_release(b, r),
    decreases b.len(),
{
    if b.len() == 0 {
        assert(a + b =~= a);
    } else {
        lemma_count_concat(a, b.drop_last(), r);
        assert((a + b).drop_last() =~= a + b.drop_last());
        assert((a + b).last() == b.last());
    }
}

/// A log none of whose entries is the release counts it zero times.
proof fn lemma_count_zero(rs: Seq<Release>, r: Release)
    requires
        forall|i: int| 0 <= i < rs.len() ==> rs[i] != r,
    ensures
        count_release(rs, r) == 0,
    decreases rs.len(),
{
    if rs.len() > 0 {
        lemma_count_zero(rs.drop_last(), r);
    }
}

/// A variant's release sequence names a pipeline handle exactly once: its
/// own, and no other.
proof fn lemma_variant_count(v: PipelineVariant, h: u64)
    ensures
        count_release(v.releases(), Release::Pipeline(h)) == if v.pipeline == h {
            1int
        } else {
            0int
        },
{
    let n = v.caches@.len();
    let pools = Seq::new(n, |i: int| Release::Pool(v.caches@[n - 1 - i].pool));
    let mid = seq![Release::Pipeline(v.pipeline), Release::PipelineLayout(v.layout)];
    let sls = v.set_layouts@.map_values(|x: u64| Release::SetLayout(x));
    lemma_count_zero(pools, Release::Pipeline(h));
    lemma_count_zero(sls, Release::Pipeline(h));
    assert(count_release(mid, Release::Pipeline(h)) == if v.pipeline == h {
        1int
    } else {
        0int
    }) by {
        reveal_with_fuel(count_release, 3);
        assert(mid.drop_last() =~= seq![Release::Pipeline(v.pipeline)]);
        assert(mid.drop_last().drop_last() =~= Seq::<Release>::empty());
        assert(mid.last() == Release::PipelineLayout(v.layout));
        assert(mid.drop_last().last() == Release::Pipeline(v.pipeline));
    }
    lemma_count_concat(pools, mid, Release::Pipeline(h));
    lemma_count_concat(pools + mid, sls, Release::Pipeline(h));
    assert(v.releases() == (pools + mid) + sls);
}

/// Over an order none of whose variants carries the pipeline handle, the
/// release log counts it zero times.
proof fn lemma_order_count_zero(
    table: Seq<Option<PipelineVariant>>,
    order: Seq<usize>,
    h: u64,
)
    requires
        forall|k: int| 0 <= k < order.len() ==> 0 <= #[trigger] order[k] < table.len(),
        forall|k: int| 0 <= k < order.len() ==> table[#[trigger] order[k] as int] is Some,
        forall|k: int|
            0 <= k < order.len() ==> (match table[#[trigger] order[k] as int] {
                Some(v) => v.pipeline != h,
                None => true,
            }),
    ensures
        count_release(PipelineRegistry::order_releases(table, order), Release::Pipeline(h)) == 0,
    decreases order.len(),
{
    if order.len() > 0 {
        lemma_order_count_zero(table, order.drop_last(), h);
        match table[order.last() as int] {
            Some(v) => {
                lemma_variant_count(v, h);
                lemma_count_concat(
                    v.releases(),
                    PipelineRegistry::order_releases(table, order.drop_last()),
                    Release::Pipeline(h),
                );
            },
            None => {},
        }
    }
}

/// Over an order that names the variant exactly once and no other variant
/// with its pipeline handle, the release log counts that handle once.
proof fn lemma_order_count_one(
    table: Seq<Option<PipelineVariant>>,
    order: Seq<usize>,
    h: u64,
    id: usize,
)
    requires
        forall|k: int| 0 <= k < order.len() ==> 0 <= #[trigger] order[k] < table.len(),
        forall|k: int| 0 <= k < order.len() ==> table[#[trigger] order[k] as int] is Some,
        order.contains(id),
        table[id as int] is Some,
        (match table[id as int] {
            Some(v) => v.pipeline == h,
            None => false,
        }),
        forall|k1: int, k2: int| 0 <= k1 < k2 < order.len() ==> order[k1] != order[k2],
        forall|k: int|
            0 <= k < order.len() && order[k] != id ==> (match table[#[trigger] order[k] as int] {
                Some(v) => v.pipeline != h,
                None => true,
            }),
    ensures
        count_release(PipelineRegistry::order_releases(table, order), Release::Pipeline(h)) == 1,
    decreases order.len(),
{
    let rest = order.drop_last();
    match table[order.last() as int] {
        Some(v) => {
            lemma_variant_count(v, h);
            lemma_count_concat(
                v.releases(),
                PipelineRegistry::order_releases(table, rest),
                Release::Pipeline(h),
            );
            if order.last() == id {
                assert forall|k: int| 0 <= k < rest.len() implies (match table[#[trigger] rest[k] as int] {
                    Some(w) => w.pipeline != h,
                    None => true,
                }) by {
                    assert(order[k] != order[order.len() - 1]);
                }
                lemma_order_count_zero(table, rest, h);
            } else {
                assert(v.pipeline != h);
                let w = choose|w: int| 0 <= w < order.len() && order[w] == id;
                assert(w < order.len() - 1);
                assert(rest[w] == id);
                assert(rest.contains(id));
                lemma_order_count_one(table, rest, h, id);
            }
        },
        None => {
            assert(false);
        },
    }
}

/// Destroying the registry releases each constructed variant's pipeline
/// exactly once: the release log of a well-formed registry names every
/// constructed identity's pipeline handle once and only once.
pub proof fn lemma_destroy_releases_once(r: PipelineRegistry, id: int)
    requires
        r.wf(),
        r.constructed(id),
    ensures
        count_release(
            r.registry_releases(),
            Release::Pipeline(r.variant_at(id).pipeline),
        ) == 1,
{
    let h = r.variant_at(id).pipeline;
    vstd::std_specs::vec::axiom_spec_len(&r.table);
    assert((id as usize) as int == id);
    assert(r.table@[id] is Some);
    assert forall|k: int| 0 <= k < r.order@.len() && r.order@[k] != id as usize implies (
    match r.table@[#[trigger] r.order@[k] as int] {
        Some(v) => v.pipeline != h,
        None => true,
    }) by {
        let j = r.order@[k] as int;
        assert(r.constructed(j));
        if r.variant_at(j).pipeline == h {
            lemma_variants_share_nothing(r, id, j, h);
        }
    }
    lemma_order_count_one(r.table@, r.order@, h, id as usize);
    match r.shader_module {
        Some(m) => {
            lemma_count_zero(seq![Release::ShaderModule(m)], Release::Pipeline(h));
            lemma_count_concat(
                PipelineRegistry::order_releases(r.table@, r.order@),
                seq![Release::ShaderModule(m)],
                Release::Pipeline(h),
            );
        },
        None => {
            lemma_count_concat(
                PipelineRegistry::order_releases(r.table@, r.order@),
                Seq::<Release>::empty(),
                Release::Pipeline(h),
            );
        },
    }
}

} // verus!
