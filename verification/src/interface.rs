//! Data model of a shader module's pipeline interface: vertex input types,
//! uniform/resource bindings, and the per-pipeline interface record that the
//! extractor produces and every later stage consumes.

use vstd::prelude::*;

verus! {

/// A per-vertex input: a float vector type with 2, 3, or 4 components.
/// The order of inputs in a pipeline interface is significant: it defines
/// attribute locations and byte offsets.
#[derive(Clone, Copy, PartialEq, Eq, Structural, Debug)]
pub enum VertexInputType {
    Vec2,
    Vec3,
    Vec4,
}

/// The kinds of descriptor this system reasons about.
#[derive(Clone, Copy, PartialEq, Eq, Structural, Debug)]
pub enum DescriptorKind {
    UniformBuffer,
    CombinedImageSampler,
    InputAttachment,
}

/// The shader stage a declaration belongs to.
#[derive(Clone, Copy, PartialEq, Eq, Structural, Debug)]
pub enum ShaderStage {
    Vertex,
    Fragment,
}

/// One uniform/resource binding: a slot within a descriptor set, the set
/// index, the descriptor kind, and the stage that reads it. Within one
/// interface each (set, slot) pair is expected to be unique.
#[derive(Debug)]
pub struct UniformBinding {
    /// The declared identifier, used to name the parameter of the generated
    /// per-set write operation.
    pub name: String,
    /// Binding slot within the descriptor set.
    pub binding: u32,
    /// Descriptor-set index.
    pub descriptor_set: u32,
    /// What is bound at this slot.
    pub kind: DescriptorKind,
    /// The stage whose declaration introduced the binding.
    pub stage: ShaderStage,
}

/// Mathematical form of one uniform binding.
pub struct UniformBindingView {
    pub name: Seq<char>,
    pub binding: u32,
    pub descriptor_set: u32,
    pub kind: DescriptorKind,
    pub stage: ShaderStage,
}

impl DeepView for UniformBinding {
    type V = UniformBindingView;

    open spec fn deep_view(&self) -> UniformBindingView {
        UniformBindingView {
            name: self.name@,
            binding: self.binding,
            descriptor_set: self.descriptor_set,
            kind: self.kind,
            stage: self.stage,
        }
    }
}

/// One pipeline candidate discovered in a shader module: its identity (name),
/// its ordered vertex inputs, and its uniform bindings in declaration order.
#[derive(Debug)]
pub struct PipelineInterface {
    /// Identity of the pipeline, in camel case, derived from the common
    /// prefix of its entry points.
    pub name: String,
    /// Ordered vertex inputs of the paired vertex entry point.
    pub arg_types: Vec<VertexInputType>,
    /// Uniform bindings in declaration order: the vertex stage's, then the
    /// fragment stage's.
    pub uniforms: Vec<UniformBinding>,
}

/// Mathematical form of one pipeline interface.
pub struct PipelineInterfaceView {
    pub name: Seq<char>,
    pub arg_types: Seq<VertexInputType>,
    pub uniforms: Seq<UniformBindingView>,
}

impl DeepView for PipelineInterface {
    type V = PipelineInterfaceView;

    open spec fn deep_view(&self) -> PipelineInterfaceView {
        PipelineInterfaceView {
            name: self.name@,
            arg_types: self.arg_types@,
            uniforms: self.uniforms.deep_view(),
        }
    }
}

} // verus!
