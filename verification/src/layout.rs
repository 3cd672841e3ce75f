//! Layout synthesis: from a pipeline's ordered vertex inputs, the attribute
//! formats, byte offsets, and total stride; from its uniform bindings, the
//! partition into descriptor sets sorted by set index.

use vstd::prelude::*;
use crate::interface::{DescriptorKind, ShaderStage, UniformBinding, UniformBindingView, VertexInputType};

verus! {

/// Wire format of one vertex attribute, by component count of a float vector.
#[derive(Clone, Copy, PartialEq, Eq, Structural, Debug)]
pub enum AttributeFormat {
    R32G32Sfloat,
    R32G32B32Sfloat,
    R32G32B32A32Sfloat,
}

/// The closed format table: each vertex input type has exactly one format.
pub open spec fn spec_format(t: VertexInputType) -> AttributeFormat {
    match t {
        VertexInputType::Vec2 => AttributeFormat::R32G32Sfloat,
        VertexInputType::Vec3 => AttributeFormat::R32G32B32Sfloat,
        VertexInputType::Vec4 => AttributeFormat::R32G32B32A32Sfloat,
    }
}

/// The closed size table: byte size of each vertex input type.
pub open spec fn spec_size(t: VertexInputType) -> u32 {
    match t {
        VertexInputType::Vec2 => 8,
        VertexInputType::Vec3 => 12,
        VertexInputType::Vec4 => 16,
    }
}

/// Wire format for a vertex input type.
pub fn get_format(t: VertexInputType) -> (r: AttributeFormat)
    ensures
        r == spec_format(t),
{
    match t {
        VertexInputType::Vec2 => AttributeFormat::R32G32Sfloat,
        VertexInputType::Vec3 => AttributeFormat::R32G32B32Sfloat,
        VertexInputType::Vec4 => AttributeFormat::R32G32B32A32Sfloat,
    }
}

/// Byte size of a vertex input type.
pub fn get_size(t: VertexInputType) -> (r: u32)
    ensures
        r == spec_size(t),
{
    match t {
        VertexInputType::Vec2 => 8,
        VertexInputType::Vec3 => 12,
        VertexInputType::Vec4 => 16,
    }
}

/// Total byte size of a sequence of vertex inputs.
pub open spec fn total_size(inputs: Seq<VertexInputType>) -> int
    decreases inputs.len(),
{
    if inputs.len() == 0 {
        0
    } else {
        total_size(inputs.drop_last()) + spec_size(inputs.last())
    }
}

/// Every prefix of the inputs occupies no more bytes than the whole.
pub proof fn lemma_total_size_prefix(inputs: Seq<VertexInputType>, i: int)
    requires
        0 <= i <= inputs.len(),
    ensures
        total_size(inputs.take(i)) <= total_size(inputs),
        total_size(inputs) <= 16 * inputs.len(),
        total_size(inputs.take(i)) >= 0,
    decreases inputs.len(),
{
    if inputs.len() == 0 {
        assert(inputs.take(i) =~= inputs);
    } else if i == inputs.len() {
        assert(inputs.take(i) =~= inputs);
        lemma_total_size_prefix(inputs.drop_last(), i - 1);
    } else {
        lemma_total_size_prefix(inputs.drop_last(), i);
        assert(inputs.take(i) =~= inputs.drop_last().take(i));
    }
}

/// Appending one input grows the total by that input's size.
pub proof fn lemma_total_size_step(inputs: Seq<VertexInputType>, i: int)
    requires
        0 <= i < inputs.len(),
    ensures
        total_size(inputs.take(i + 1)) == total_size(inputs.take(i)) + spec_size(inputs[i]),
{
    assert(inputs.take(i + 1).drop_last() =~= inputs.take(i));
    assert(inputs.take(i + 1).last() == inputs[i]);
}

/// One entry of the vertex attribute description list.
#[derive(Clone, Copy, PartialEq, Eq, Structural, Debug)]
pub struct VertexAttribute {
    /// 0-based input index.
    pub location: u32,
    /// Wire format of the input at this location.
    pub format: AttributeFormat,
    /// Byte offset of the input within one vertex.
    pub offset: u32,
}

/// The synthesized vertex layout: a single binding at slot 0 with per-vertex
/// input rate, a total stride, and one attribute per input.
#[derive(Debug)]
pub struct VertexLayout {
    /// Sum of all input sizes, in bytes.
    pub stride: u32,
    /// One attribute per vertex input, in declaration order.
    pub attributes: Vec<VertexAttribute>,
}

/// Computes the vertex attribute layout of an ordered input list: offsets
/// accumulate strictly left to right, the stride is the sum of all input
/// sizes, and the location of each attribute is its 0-based input index.
pub fn compute_vertex_layout(inputs: &Vec<VertexInputType>) -> (r: VertexLayout)
    requires
        16 * inputs@.len() <= u32::MAX,
    ensures
        r.stride == total_size(inputs@),
        r.attributes@.len() == inputs@.len(),
        forall|i: int|
            0 <= i < inputs@.len() ==> {
                &&& (#[trigger] r.attributes@[i]).location == i
                &&& r.attributes@[i].format == spec_format(inputs@[i])
                &&& r.attributes@[i].offset == total_size(inputs@.take(i))
            },
{
    let mut attributes: Vec<VertexAttribute> = Vec::new();
    let mut offset: u32 = 0;
    let mut loc: usize = 0;
    proof {
        assert(inputs@.take(0) =~= Seq::<VertexInputType>::empty());
    }
    while loc < inputs.len()
        invariant
            16 * inputs@.len() <= u32::MAX,
            0 <= loc <= inputs@.len(),
            offset == total_size(inputs@.take(loc as int)),
            attributes@.len() == loc,
            forall|i: int|
                0 <= i < loc ==> {
                    &&& (#[trigger] attributes@[i]).location == i
                    &&& attributes@[i].format == spec_format(inputs@[i])
                    &&& attributes@[i].offset == total_size(inputs@.take(i))
                },
        decreases inputs@.len() - loc,
    {
        let t = inputs[loc];
        proof {
            lemma_total_size_prefix(inputs@, loc as int);
            lemma_total_size_prefix(inputs@, loc + 1);
            lemma_total_size_step(inputs@, loc as int);
        }
        attributes.push(VertexAttribute { location: loc as u32, format: get_format(t), offset });
        offset = offset + get_size(t);
        loc = loc + 1;
    }
    proof {
        assert(inputs@.take(inputs@.len() as int) =~= inputs@);
    }
    VertexLayout { stride: offset, attributes }
}

/// The distinct descriptor-set indices that occur among the bindings.
pub open spec fn has_set(uniforms: Seq<UniformBindingView>, set: u32) -> bool {
    exists|k: int| 0 <= k < uniforms.len() && (#[trigger] uniforms[k]).descriptor_set == set
}

/// The distinct descriptor-set indices present among the bindings, sorted in
/// ascending order. This order fixes the order in which descriptor-set
/// layouts are created and indexed everywhere else.
pub fn get_sorted_sets(uniforms: &Vec<UniformBinding>) -> (r: Vec<u32>)
    ensures
        forall|k1: int, k2: int| 0 <= k1 < k2 < r@.len() ==> r@[k1] < r@[k2],
        forall|s: u32| r@.contains(s) <==> has_set(uniforms.deep_view(), s),
{
    let ghost uv = uniforms.deep_view();
    let mut r: Vec<u32> = Vec::new();
    let mut i: usize = 0;
    while i < uniforms.len()
        invariant
            uv == uniforms.deep_view(),
            uv.len() == uniforms@.len(),
            0 <= i <= uv.len(),
            forall|k1: int, k2: int| 0 <= k1 < k2 < r@.len() ==> r@[k1] < r@[k2],
            forall|s: u32| r@.contains(s) <==> has_set(uv.take(i as int), s),
        decreases uv.len() - i,
    {
        let s = uniforms[i].descriptor_set;
        proof {
            assert(uv[i as int].descriptor_set == s);
        }
        let ghost old_r = r@;
        // Find the first position whose value is >= s.
        let mut p: usize = 0;
        while p < r.len() && r[p] < s
            invariant
                0 <= p <= r@.len(),
                forall|k1: int, k2: int| 0 <= k1 < k2 < r@.len() ==> r@[k1] < r@[k2],
                forall|k: int| 0 <= k < p ==> r@[k] < s,
            decreases r@.len() - p,
        {
            p = p + 1;
        }
        if p == r.len() || r[p] > s {
            r.insert(p, s);
            proof {
                assert forall|k1: int, k2: int| 0 <= k1 < k2 < r@.len() implies r@[k1]
                    < r@[k2] by {
                    if k2 < p {
                    } else if k1 < p && k2 == p {
                    } else if k1 < p && k2 > p {
                        assert(old_r[k1] < old_r[p - 1] || k1 == k2 - 2 || true);
                    } else if k1 == p {
                        assert(r@[k2] == old_r[k2 - 1]);
                    } else {
                        assert(r@[k1] == old_r[k1 - 1] && r@[k2] == old_r[k2 - 1]);
                    }
                }
                assert forall|t: u32| r@.contains(t) <==> has_set(
                    uv.take(i + 1),
                    t,
                ) by {
                    assert(uv.take(i + 1)[i as int] == uv[i as int]);
                    if r@.contains(t) {
                        let k = choose|k: int| 0 <= k < r@.len() && r@[k] == t;
                        if k < p {
                            assert(old_r[k] == t);
                            assert(old_r.contains(t));
                        } else if k == p {
                            assert(t == s);
                        } else {
                            assert(old_r[k - 1] == t);
                            assert(old_r.contains(t));
                        }
                        if t != s {
                            assert(has_set(uv.take(i as int), t));
                            let m = choose|m: int|
                                0 <= m < uv.take(i as int).len() && (#[trigger] uv.take(
                                    i as int,
                                )[m]).descriptor_set == t;
                            assert(uv.take(i + 1)[m].descriptor_set == t);
                        }
                    }
                    if has_set(uv.take(i + 1), t) {
                        let m = choose|m: int|
                            0 <= m < uv.take(i + 1).len() && (#[trigger] uv.take(
                                i + 1,
                            )[m]).descriptor_set == t;
                        if m < i {
                            assert(uv.take(i as int)[m].descriptor_set == t);
                            assert(has_set(uv.take(i as int), t));
                            assert(old_r.contains(t));
                            let k = choose|k: int| 0 <= k < old_r.len() && old_r[k] == t;
                            if k < p {
                                assert(r@[k] == t);
                            } else {
                                assert(r@[k + 1] == t);
                            }
                        } else {
                            assert(t == s);
                            assert(r@[p as int] == s);
                        }
                    }
                }
            }
        } else {
            proof {
                assert(r@[p as int] == s);
                assert forall|t: u32| r@.contains(t) <==> has_set(
                    uv.take(i + 1),
                    t,
                ) by {
                    assert(uv.take(i + 1)[i as int] == uv[i as int]);
                    if has_set(uv.take(i + 1), t) {
                        let m = choose|m: int|
                            0 <= m < uv.take(i + 1).len() && (#[trigger] uv.take(
                                i + 1,
                            )[m]).descriptor_set == t;
                        if m < i {
                            assert(uv.take(i as int)[m].descriptor_set == t);
                            assert(has_set(uv.take(i as int), t));
                        } else {
                            assert(t == s);
                        }
                    }
                    if r@.contains(t) && t != s {
                        assert(has_set(uv.take(i as int), t));
                        let m = choose|m: int|
                            0 <= m < uv.take(i as int).len() && (#[trigger] uv.take(
                                i as int,
                            )[m]).descriptor_set == t;
                        assert(uv.take(i + 1)[m].descriptor_set == t);
                    }
                }
            }
        }
        i = i + 1;
    }
    proof {
        assert(uv.take(uv.len() as int) =~= uv);
    }
    r
}

/// One entry of a descriptor-set layout: a binding slot, the descriptor kind
/// bound there, a descriptor count (always one in this design), and the stage
/// that reads it.
#[derive(Clone, Copy, PartialEq, Eq, Structural, Debug)]
pub struct SetLayoutBinding {
    pub binding: u32,
    pub kind: DescriptorKind,
    pub count: u32,
    pub stage: ShaderStage,
}

/// The layout entry derived from one uniform binding.
pub open spec fn binding_entry(u: UniformBindingView) -> SetLayoutBinding {
    SetLayoutBinding { binding: u.binding, kind: u.kind, count: 1, stage: u.stage }
}

/// The layout entries of one descriptor set: the bindings whose set index
/// matches, in declaration order (deliberately not sorted by slot).
pub open spec fn spec_set_bindings(uniforms: Seq<UniformBindingView>, set: u32) -> Seq<
    SetLayoutBinding,
>
    decreases uniforms.len(),
{
    if uniforms.len() == 0 {
        Seq::empty()
    } else {
        spec_set_bindings(uniforms.drop_last(), set) + if uniforms.last().descriptor_set == set {
            seq![binding_entry(uniforms.last())]
        } else {
            Seq::empty()
        }
    }
}

/// Collects the layout entries of one descriptor set, in declaration order.
pub fn set_layout_bindings(uniforms: &Vec<UniformBinding>, set: u32) -> (r: Vec<SetLayoutBinding>)
    ensures
        r@ == spec_set_bindings(uniforms.deep_view(), set),
{
    let ghost uv = uniforms.deep_view();
    let mut r: Vec<SetLayoutBinding> = Vec::new();
    let mut i: usize = 0;
    proof {
        assert(uv.take(0) =~= Seq::<UniformBindingView>::empty());
    }
    while i < uniforms.len()
        invariant
            uv == uniforms.deep_view(),
            uv.len() == uniforms@.len(),
            0 <= i <= uv.len(),
            r@ == spec_set_bindings(uv.take(i as int), set),
        decreases uv.len() - i,
    {
        proof {
            assert(uv.take(i + 1).drop_last() =~= uv.take(i as int));
            assert(uv.take(i + 1).last() == uv[i as int]);
        }
        if uniforms[i].descriptor_set == set {
            let u = &uniforms[i];
            proof {
                assert(uv[i as int].descriptor_set == set);
                assert(binding_entry(uv[i as int]) == (SetLayoutBinding {
                    binding: u.binding,
                    kind: u.kind,
                    count: 1,
                    stage: u.stage,
                }));
            }
            r.push(SetLayoutBinding { binding: u.binding, kind: u.kind, count: 1, stage: u.stage });
            proof {
                assert(r@ =~= spec_set_bindings(uv.take(i + 1), set));
            }
        } else {
            proof {
                assert(uv[i as int].descriptor_set != set);
                assert(r@ =~= spec_set_bindings(uv.take(i + 1), set));
            }
        }
        i = i + 1;
    }
    proof {
        assert(uv.take(uv.len() as int) =~= uv);
    }
    r
}

} // verus!
