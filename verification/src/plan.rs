//! Per-pipeline construction plans: everything the runtime needs to build a
//! pipeline variant, derived from its interface record. A plan carries the
//! generated type names, the entry-point names, the vertex layout, the
//! descriptor-set layout groups in ascending set order, the per-set write
//! operations, and the fixed-function state policy.

use vstd::prelude::*;
use crate::interface::{DescriptorKind, PipelineInterface, PipelineInterfaceView, UniformBinding, UniformBindingView};
use crate::layout::{
    compute_vertex_layout, get_sorted_sets, has_set, set_layout_bindings, spec_set_bindings,
    total_size, SetLayoutBinding, VertexLayout,
};
use crate::names::{camel_of, lower_of, to_camelcase, to_lowercase, undash, undash_of};
use crate::source::SourceFn;
use crate::extract::{get_pipelines, spec_extract, ExtractError, ExtractErrorView};

verus! {

/// One descriptor set of a pipeline: its set index and its layout entries in
/// declaration order.
#[derive(Debug)]
pub struct SetLayoutGroup {
    pub set: u32,
    pub bindings: Vec<SetLayoutBinding>,
}

/// What the descriptor-set layout plan promises: groups in strictly
/// ascending set order, exactly one group per set index present among the
/// bindings, each group holding that set's layout entries in declaration
/// order.
pub open spec fn wf_set_layouts(groups: Seq<SetLayoutGroup>, uniforms: Seq<UniformBindingView>) -> bool {
    &&& forall|k1: int, k2: int| 0 <= k1 < k2 < groups.len() ==> groups[k1].set < groups[k2].set
    &&& forall|s: u32|
        (exists|k: int| 0 <= k < groups.len() && (#[trigger] groups[k]).set == s) <==> has_set(
            uniforms,
            s,
        )
    &&& forall|k: int|
        0 <= k < groups.len() ==> (#[trigger] groups[k]).bindings@ == spec_set_bindings(
            uniforms,
            groups[k].set,
        )
}

/// The descriptor-set layout construction plan: one group per distinct set
/// index, in ascending set order — the order in which the set layouts are
/// created and indexed by position everywhere else.
pub fn set_layouts_methods(uniforms: &Vec<UniformBinding>) -> (r: Vec<SetLayoutGroup>)
    ensures
        wf_set_layouts(r@, uniforms.deep_view()),
{
    let sets = get_sorted_sets(uniforms);
    let mut r: Vec<SetLayoutGroup> = Vec::new();
    let mut i: usize = 0;
    while i < sets.len()
        invariant
            0 <= i <= sets@.len(),
            r@.len() == i,
            forall|k1: int, k2: int| 0 <= k1 < k2 < sets@.len() ==> sets@[k1] < sets@[k2],
            forall|s: u32| sets@.contains(s) <==> has_set(uniforms.deep_view(), s),
            forall|k: int| 0 <= k < i ==> (#[trigger] r@[k]).set == sets@[k],
            forall|k: int| 0 <= k < i ==> (#[trigger] r@[k]).bindings@ == spec_set_bindings(
                uniforms.deep_view(),
                sets@[k],
            ),
        decreases sets@.len() - i,
    {
        let set = sets[i];
        let bindings = set_layout_bindings(uniforms, set);
        r.push(SetLayoutGroup { set, bindings });
        i = i + 1;
    }
    proof {
        assert forall|s: u32| (exists|k: int|
            0 <= k < r@.len() && (#[trigger] r@[k]).set == s) <==> has_set(
            uniforms.deep_view(),
            s,
        ) by {
            if exists|k: int| 0 <= k < r@.len() && (#[trigger] r@[k]).set == s {
                let k = choose|k: int| 0 <= k < r@.len() && (#[trigger] r@[k]).set == s;
                assert(sets@[k] == s);
                assert(sets@.contains(s));
            }
            if has_set(uniforms.deep_view(), s) {
                assert(sets@.contains(s));
                let k = choose|k: int| 0 <= k < sets@.len() && sets@[k] == s;
                assert(r@[k].set == s);
            }
        }
    }
    r
}

/// The kind-specific resource reference a write-descriptor record carries.
#[derive(Clone, Copy, PartialEq, Eq, Structural, Debug)]
pub enum WriteInfoKind {
    /// A buffer info record, for a uniform buffer.
    BufferInfo,
    /// An image info record, for a combined image sampler.
    ImageInfo,
    /// A pass-through attachment info record, for an input attachment.
    AttachmentInfo,
}

/// The reference type a caller hands to a write operation for one binding.
#[derive(Clone, Copy, PartialEq, Eq, Structural, Debug)]
pub enum WriteArgKind {
    /// A buffer reference.
    BufferRef,
    /// An image-plus-sampler reference.
    TextureRef,
    /// An attachment image reference.
    AttachmentRef,
}

/// The info record each descriptor kind is written through.
pub open spec fn spec_info_of(kind: DescriptorKind) -> WriteInfoKind {
    match kind {
        DescriptorKind::UniformBuffer => WriteInfoKind::BufferInfo,
        DescriptorKind::CombinedImageSampler => WriteInfoKind::ImageInfo,
        DescriptorKind::InputAttachment => WriteInfoKind::AttachmentInfo,
    }
}

/// The reference type a caller passes for each descriptor kind.
pub open spec fn spec_arg_of(kind: DescriptorKind) -> WriteArgKind {
    match kind {
        DescriptorKind::UniformBuffer => WriteArgKind::BufferRef,
        DescriptorKind::CombinedImageSampler => WriteArgKind::TextureRef,
        DescriptorKind::InputAttachment => WriteArgKind::AttachmentRef,
    }
}

/// One write-descriptor record: destination binding slot, descriptor kind,
/// and the kind-specific info record. The destination set is the operation's
/// parameter; the destination array element is always zero.
#[derive(Clone, Copy, PartialEq, Eq, Structural, Debug)]
pub struct WriteDesc {
    pub binding: u32,
    pub kind: DescriptorKind,
    pub info: WriteInfoKind,
}

/// One parameter of a per-set write operation: named after the uniform it
/// binds, typed after the uniform's kind.
#[derive(Debug)]
pub struct WriteParam {
    pub name: String,
    pub arg: WriteArgKind,
}

/// Mathematical form of one write-operation parameter.
pub struct WriteParamView {
    pub name: Seq<char>,
    pub arg: WriteArgKind,
}

impl DeepView for WriteParam {
    type V = WriteParamView;

    open spec fn deep_view(&self) -> WriteParamView {
        WriteParamView { name: self.name@, arg: self.arg }
    }
}

/// The write records of one descriptor set: one per binding of that set, in
/// declaration order (deliberately not sorted by slot).
pub open spec fn spec_set_writes(uniforms: Seq<UniformBindingView>, set: u32) -> Seq<WriteDesc>
    decreases uniforms.len(),
{
    if uniforms.len() == 0 {
        Seq::empty()
    } else {
        spec_set_writes(uniforms.drop_last(), set) + if uniforms.last().descriptor_set == set {
            seq![
                WriteDesc {
                    binding: uniforms.last().binding,
                    kind: uniforms.last().kind,
                    info: spec_info_of(uniforms.last().kind),
                },
            ]
        } else {
            Seq::empty()
        }
    }
}

/// The parameters of one set's write operation, in declaration order.
pub open spec fn spec_set_params(uniforms: Seq<UniformBindingView>, set: u32) -> Seq<WriteParamView>
    decreases uniforms.len(),
{
    if uniforms.len() == 0 {
        Seq::empty()
    } else {
        spec_set_params(uniforms.drop_last(), set) + if uniforms.last().descriptor_set == set {
            seq![
                WriteParamView {
                    name: uniforms.last().name,
                    arg: spec_arg_of(uniforms.last().kind),
                },
            ]
        } else {
            Seq::empty()
        }
    }
}

/// The write operation of one descriptor set: the records to apply in one
/// batched update, and the parameters the operation takes. The whole set is
/// rewritten in one call; there are no partial writes.
#[derive(Debug)]
pub struct WriteSetPlan {
    pub set: u32,
    pub writes: Vec<WriteDesc>,
    pub params: Vec<WriteParam>,
}

/// What the write-operation plan promises: one operation per set index
/// present among the bindings, in strictly ascending set order; each
/// operation's records and parameters follow declaration order within its
/// set.
pub open spec fn wf_write_sets(plans: Seq<WriteSetPlan>, uniforms: Seq<UniformBindingView>) -> bool {
    &&& forall|k1: int, k2: int| 0 <= k1 < k2 < plans.len() ==> plans[k1].set < plans[k2].set
    &&& forall|s: u32|
        (exists|k: int| 0 <= k < plans.len() && (#[trigger] plans[k]).set == s) <==> has_set(
            uniforms,
            s,
        )
    &&& forall|k: int|
        0 <= k < plans.len() ==> (#[trigger] plans[k]).writes@ == spec_set_writes(
            uniforms,
            plans[k].set,
        )
    &&& forall|k: int|
        0 <= k < plans.len() ==> (#[trigger] plans[k]).params.deep_view() == spec_set_params(
            uniforms,
            plans[k].set,
        )
}

/// The per-set write operations: one per distinct set index, in ascending
/// set order; within a set, records and parameters follow declaration order.
pub fn write_set_methods(uniforms: &Vec<UniformBinding>) -> (r: Vec<WriteSetPlan>)
    ensures
        wf_write_sets(r@, uniforms.deep_view()),
{
    let sets = get_sorted_sets(uniforms);
    let mut r: Vec<WriteSetPlan> = Vec::new();
    let mut i: usize = 0;
    while i < sets.len()
        invariant
            0 <= i <= sets@.len(),
            r@.len() == i,
            forall|k1: int, k2: int| 0 <= k1 < k2 < sets@.len() ==> sets@[k1] < sets@[k2],
            forall|s: u32| sets@.contains(s) <==> has_set(uniforms.deep_view(), s),
            forall|k: int| 0 <= k < i ==> (#[trigger] r@[k]).set == sets@[k],
            forall|k: int| 0 <= k < i ==> (#[trigger] r@[k]).writes@ == spec_set_writes(
                uniforms.deep_view(),
                sets@[k],
            ),
            forall|k: int| 0 <= k < i ==> (#[trigger] r@[k]).params.deep_view() == spec_set_params(
                uniforms.deep_view(),
                sets@[k],
            ),
        decreases sets@.len() - i,
    {
        let set = sets[i];
        let plan = write_set_plan(uniforms, set);
        r.push(plan);
        i = i + 1;
    }
    proof {
        assert forall|s: u32| (exists|k: int|
            0 <= k < r@.len() && (#[trigger] r@[k]).set == s) <==> has_set(
            uniforms.deep_view(),
            s,
        ) by {
            if exists|k: int| 0 <= k < r@.len() && (#[trigger] r@[k]).set == s {
                let k = choose|k: int| 0 <= k < r@.len() && (#[trigger] r@[k]).set == s;
                assert(sets@[k] == s);
                assert(sets@.contains(s));
            }
            if has_set(uniforms.deep_view(), s) {
                assert(sets@.contains(s));
                let k = choose|k: int| 0 <= k < sets@.len() && sets@[k] == s;
                assert(r@[k].set == s);
            }
        }
    }
    r
}

/// Builds the write operation of one descriptor set.
fn write_set_plan(uniforms: &Vec<UniformBinding>, set: u32) -> (r: WriteSetPlan)
    ensures
        r.set == set,
        r.writes@ == spec_set_writes(uniforms.deep_view(), set),
        r.params.deep_view() == spec_set_params(uniforms.deep_view(), set),
{
    let ghost uv = uniforms.deep_view();
    let mut writes: Vec<WriteDesc> = Vec::new();
    let mut params: Vec<WriteParam> = Vec::new();
    let mut i: usize = 0;
    proof {
        assert(uv.take(0) =~= Seq::<UniformBindingView>::empty());
    }
    while i < uniforms.len()
        invariant
            uv == uniforms.deep_view(),
            uv.len() == uniforms@.len(),
            0 <= i <= uv.len(),
            writes@ == spec_set_writes(uv.take(i as int), set),
            params.deep_view() == spec_set_params(uv.take(i as int), set),
        decreases uv.len() - i,
    {
        proof {
            assert(uv.take(i + 1).drop_last() =~= uv.take(i as int));
            assert(uv.take(i + 1).last() == uv[i as int]);
        }
        let u = &uniforms[i];
        proof {
            assert(uv[i as int].descriptor_set == u.descriptor_set);
            assert(uv[i as int].kind == u.kind);
            assert(uv[i as int].binding == u.binding);
            assert(uv[i as int].name == u.name@);
        }
        if u.descriptor_set == set {
            let kind = u.kind;
            let info = match kind {
                DescriptorKind::UniformBuffer => WriteInfoKind::BufferInfo,
                DescriptorKind::CombinedImageSampler => WriteInfoKind::ImageInfo,
                DescriptorKind::InputAttachment => WriteInfoKind::AttachmentInfo,
            };
            let arg = match kind {
                DescriptorKind::UniformBuffer => WriteArgKind::BufferRef,
                DescriptorKind::CombinedImageSampler => WriteArgKind::TextureRef,
                DescriptorKind::InputAttachment => WriteArgKind::AttachmentRef,
            };
            writes.push(WriteDesc { binding: u.binding, kind, info });
            params.push(WriteParam { name: u.name.clone(), arg });
            proof {
                assert(writes@ =~= spec_set_writes(uv.take(i + 1), set));
                assert(params.deep_view() =~= spec_set_params(uv.take(i + 1), set));
            }
        } else {
            proof {
                assert(writes@ =~= spec_set_writes(uv.take(i + 1), set));
                assert(params.deep_view() =~= spec_set_params(uv.take(i + 1), set));
            }
        }
        i = i + 1;
    }
    proof {
        assert(uv.take(uv.len() as int) =~= uv);
    }
    WriteSetPlan { set, writes, params }
}

/// The hand-chosen fixed-function policy baked into every pipeline: depth
/// test and write enabled with greater-is-nearer comparison, no stencil,
/// solid fill with no culling and counter-clockwise front face, a single
/// sample, two color attachments with standard alpha blending, and dynamic
/// viewport and scissor seeded from a fixed design-time extent.
#[derive(Clone, Copy, PartialEq, Eq, Structural, Debug)]
pub struct FixedFunctionState {
    pub depth_test: bool,
    pub depth_write: bool,
    /// Greater-is-nearer depth comparison.
    pub depth_compare_greater: bool,
    pub stencil_test: bool,
    pub solid_fill: bool,
    pub culling: bool,
    pub front_face_counter_clockwise: bool,
    pub sample_count: u32,
    /// Number of color attachments, each blended the same way.
    pub color_attachments: u32,
    pub blend_enable: bool,
    pub blend_src_alpha: bool,
    pub blend_dst_one_minus_src_alpha: bool,
    pub dynamic_viewport: bool,
    pub dynamic_scissor: bool,
    /// Design-time default extent that seeds the initial viewport state; the
    /// actual extents are supplied at draw time through the dynamic states.
    pub default_width: u32,
    pub default_height: u32,
}

/// The one fixed-function policy of this generator.
pub open spec fn spec_fixed_state() -> FixedFunctionState {
    FixedFunctionState {
        depth_test: true,
        depth_write: true,
        depth_compare_greater: true,
        stencil_test: false,
        solid_fill: true,
        culling: false,
        front_face_counter_clockwise: true,
        sample_count: 1,
        color_attachments: 2,
        blend_enable: true,
        blend_src_alpha: true,
        blend_dst_one_minus_src_alpha: true,
        dynamic_viewport: true,
        dynamic_scissor: true,
        default_width: 1920,
        default_height: 1080,
    }
}

/// The fixed-function policy, as a value.
pub fn default_fixed_state() -> (r: FixedFunctionState)
    ensures
        r == spec_fixed_state(),
{
    FixedFunctionState {
        depth_test: true,
        depth_write: true,
        depth_compare_greater: true,
        stencil_test: false,
        solid_fill: true,
        culling: false,
        front_face_counter_clockwise: true,
        sample_count: 1,
        color_attachments: 2,
        blend_enable: true,
        blend_src_alpha: true,
        blend_dst_one_minus_src_alpha: true,
        dynamic_viewport: true,
        dynamic_scissor: true,
        default_width: 1920,
        default_height: 1080,
    }
}

/// The full construction recipe of one pipeline variant.
#[derive(Debug)]
pub struct PipelinePlan {
    /// The pipeline's identity, in camel case.
    pub name: String,
    /// Name of the generated pipeline type.
    pub struct_name: String,
    /// Name of the generated descriptor-cache type.
    pub cache_struct_name: String,
    /// Entry-point name of the vertex stage.
    pub vertex_entry: String,
    /// Entry-point name of the fragment stage.
    pub fragment_entry: String,
    /// Vertex binding stride and attribute descriptions.
    pub vertex_layout: VertexLayout,
    /// Descriptor-set layout groups, in ascending set order.
    pub set_layouts: Vec<SetLayoutGroup>,
    /// Per-set write operations, in ascending set order.
    pub write_sets: Vec<WriteSetPlan>,
    /// The fixed-function policy.
    pub fixed: FixedFunctionState,
}

/// Everything a pipeline plan promises of its interface: the generated
/// names derive from the identity, the entry points carry the stage
/// suffixes, the vertex layout is the interface's, the set layout groups and
/// write operations partition the interface's bindings, and the
/// fixed-function policy is the one policy of this generator.
pub open spec fn plan_of_interface(r: PipelinePlan, p: PipelineInterfaceView) -> bool {
    &&& r.name@ == p.name
    &&& r.struct_name@ == "Pipeline"@ + p.name
    &&& r.cache_struct_name@ == "PipelineCache"@ + p.name
    &&& r.vertex_entry@ == lower_of(p.name) + "_vs"@
    &&& r.fragment_entry@ == lower_of(p.name) + "_fs"@
    &&& r.vertex_layout.stride == total_size(p.arg_types)
    &&& r.vertex_layout.attributes@.len() == p.arg_types.len()
    &&& forall|i: int|
        0 <= i < p.arg_types.len() ==> {
            &&& (#[trigger] r.vertex_layout.attributes@[i]).location == i
            &&& r.vertex_layout.attributes@[i].format == crate::layout::spec_format(
                p.arg_types[i],
            )
            &&& r.vertex_layout.attributes@[i].offset == total_size(p.arg_types.take(i))
        }
    &&& wf_set_layouts(r.set_layouts@, p.uniforms)
    &&& wf_write_sets(r.write_sets@, p.uniforms)
    &&& r.fixed == spec_fixed_state()
}

/// Builds the construction recipe of one pipeline from its interface: the
/// generated names, the stage entry points, the vertex layout, the
/// descriptor-set layout groups, the write operations, and the
/// fixed-function policy.
pub fn pipeline(p: &PipelineInterface) -> (r: PipelinePlan)
    requires
        16 * p.arg_types@.len() <= u32::MAX,
    ensures
        plan_of_interface(r, p.deep_view()),
{
    let name = p.name.clone();
    let struct_name = "Pipeline".to_owned().concat(p.name.as_str());
    let cache_struct_name = "PipelineCache".to_owned().concat(p.name.as_str());
    let low = to_lowercase(p.name.as_str());
    let vertex_entry = low.clone().concat("_vs");
    let fragment_entry = low.concat("_fs");
    let vertex_layout = compute_vertex_layout(&p.arg_types);
    let set_layouts = set_layouts_methods(&p.uniforms);
    let write_sets = write_set_methods(&p.uniforms);
    let fixed = default_fixed_state();
    PipelinePlan {
        name,
        struct_name,
        cache_struct_name,
        vertex_entry,
        fragment_entry,
        vertex_layout,
        set_layouts,
        write_sets,
        fixed,
    }
}

/// The registry plan of one shader module: the name of the closed pipeline
/// enumeration, the name of the compiled bytecode blob, and the variant
/// names in discovery order.
#[derive(Debug)]
pub struct RegistryPlan {
    /// Name of the generated pipeline enumeration.
    pub enum_name: String,
    /// File name of the compiled bytecode blob.
    pub spv_name: String,
    /// One variant name per discovered pipeline, in discovery order.
    pub variant_names: Vec<String>,
}

/// Builds the registry plan of a module: the enumeration named after the
/// camel-cased module name, the bytecode blob named after the module with
/// dashes normalized to underscores, and one variant per pipeline.
pub fn cache(module_name: &str, pipelines: &Vec<PipelinePlan>) -> (r: RegistryPlan)
    ensures
        r.enum_name@ == "Shader"@ + camel_of(module_name@),
        r.spv_name@ == undash_of(module_name@) + ".spv"@,
        r.variant_names.deep_view() == pipelines@.map_values(|p: PipelinePlan| p.name@),
{
    let enum_name = "Shader".to_owned().concat(to_camelcase(module_name).as_str());
    let spv_name = undash(module_name).concat(".spv");
    let mut variant_names: Vec<String> = Vec::new();
    let mut i: usize = 0;
    while i < pipelines.len()
        invariant
            0 <= i <= pipelines@.len(),
            variant_names@.len() == i,
            forall|k: int| 0 <= k < i ==> (#[trigger] variant_names@[k])@ == pipelines@[k].name@,
        decreases pipelines@.len() - i,
    {
        variant_names.push(pipelines[i].name.clone());
        i = i + 1;
    }
    proof {
        assert(variant_names.deep_view() =~~= pipelines@.map_values(|p: PipelinePlan| p.name@));
    }
    RegistryPlan { enum_name, spv_name, variant_names }
}

/// Why module generation aborted.
#[derive(Debug)]
pub enum GenError {
    /// Interface extraction failed.
    Extract(ExtractError),
    /// A pipeline declares more vertex inputs than a byte stride can count.
    TooManyVertexInputs,
}

/// The generated module: the crate-level wrapper name, the bytecode blob
/// name, one construction plan per pipeline, and the registry plan.
#[derive(Debug)]
pub struct GeneratedModule {
    pub crate_name: String,
    pub spv_name: String,
    pub pipelines: Vec<PipelinePlan>,
    pub registry: RegistryPlan,
}

/// Builds the whole generated module for a shader source: extracts the
/// pipeline interfaces, derives one construction plan per pipeline, and the
/// registry plan over all of them. Fails exactly when extraction fails, or
/// when a pipeline's vertex inputs cannot fit a byte stride.
pub fn gen_pipelines(module_name: &str, fns: &Vec<SourceFn>) -> (r: Result<
    GeneratedModule,
    GenError,
>)
    ensures
        match r {
            Ok(m) => {
                &&& spec_extract(fns.deep_view(), fns.deep_view()) matches Ok(intfs)
                &&& m.pipelines@.len() == intfs.len()
                &&& forall|k: int|
                    0 <= k < intfs.len() ==> plan_of_interface(
                        #[trigger] m.pipelines@[k],
                        intfs[k],
                    )
                &&& m.crate_name@ == "Crate"@ + camel_of(module_name@)
                &&& m.spv_name@ == undash_of(module_name@) + ".spv"@
                &&& m.registry.enum_name@ == "Shader"@ + camel_of(module_name@)
                &&& m.registry.variant_names.deep_view() == m.pipelines@.map_values(
                    |p: PipelinePlan| p.name@,
                )
            },
            Err(GenError::Extract(e)) => spec_extract(fns.deep_view(), fns.deep_view())
                == Err::<Seq<crate::interface::PipelineInterfaceView>, ExtractErrorView>(
                e.deep_view(),
            ),
            Err(GenError::TooManyVertexInputs) => {
                &&& spec_extract(fns.deep_view(), fns.deep_view()) matches Ok(intfs)
                &&& exists|k: int| 0 <= k < intfs.len() && 16 * (#[trigger] intfs[k]).arg_types.len()
                    > u32::MAX
            },
        },
{
    let intfs = match get_pipelines(fns) {
        Err(e) => {
            return Err(GenError::Extract(e));
        },
        Ok(v) => v,
    };
    let ghost intfsv = intfs.deep_view();
    let mut plans: Vec<PipelinePlan> = Vec::new();
    let mut i: usize = 0;
    while i < intfs.len()
        invariant
            0 <= i <= intfs@.len(),
            intfsv == intfs.deep_view(),
            intfsv.len() == intfs@.len(),
            spec_extract(fns.deep_view(), fns.deep_view()) == Ok::<
                Seq<crate::interface::PipelineInterfaceView>,
                ExtractErrorView,
            >(intfsv),
            plans@.len() == i,
            forall|k: int| 0 <= k < i ==> plan_of_interface(#[trigger] plans@[k], intfsv[k]),
        decreases intfs@.len() - i,
    {
        let p = &intfs[i];
        if p.arg_types.len() > (u32::MAX / 16) as usize {
            proof {
                let exv = spec_extract(fns.deep_view(), fns.deep_view());
                match exv {
                    Ok(intfs0) => {
                        assert(intfs0 == intfsv);
                        assert(16 * intfs0[i as int].arg_types.len() > u32::MAX);
                        assert(exists|k: int|
                            0 <= k < intfs0.len() && 16 * (#[trigger] intfs0[k]).arg_types.len()
                                > u32::MAX);
                    },
                    Err(_) => {
                        assert(false);
                    },
                }
            }
            return Err(GenError::TooManyVertexInputs);
        }
        plans.push(pipeline(p));
        i = i + 1;
    }
    let registry = cache(module_name, &plans);
    let crate_name = "Crate".to_owned().concat(to_camelcase(module_name).as_str());
    let spv_name = undash(module_name).concat(".spv");
    Ok(GeneratedModule { crate_name, spv_name, pipelines: plans, registry })
}

} // verus!
