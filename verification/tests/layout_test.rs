use pipewriter::extract::{get_pipelines, ExtractError};
use pipewriter::interface::{DescriptorKind, ShaderStage, UniformBinding, VertexInputType};
use pipewriter::layout::{
    compute_vertex_layout, get_format, get_size, get_sorted_sets, set_layout_bindings,
    AttributeFormat,
};
use pipewriter::names::{get_prefix, to_camelcase, to_lowercase, undash};
use pipewriter::plan::{
    cache, default_fixed_state, pipeline, set_layouts_methods, write_set_methods, WriteArgKind,
    WriteInfoKind,
};
use pipewriter::source::{ArgShape, AttrShape, MetaItem, SourceFn};

fn binding(name: &str, set: u32, slot: u32, kind: DescriptorKind, stage: ShaderStage) -> UniformBinding {
    UniformBinding { name: String::from(name), binding: slot, descriptor_set: set, kind, stage }
}

#[test]
fn vertex_layout_vec3_vec3_vec2() {
    let inputs = vec![VertexInputType::Vec3, VertexInputType::Vec3, VertexInputType::Vec2];
    let layout = compute_vertex_layout(&inputs);
    assert_eq!(layout.stride, 32);
    assert_eq!(layout.attributes.len(), 3);
    let offsets: Vec<u32> = layout.attributes.iter().map(|a| a.offset).collect();
    assert_eq!(offsets, vec![0, 12, 24]);
    let locations: Vec<u32> = layout.attributes.iter().map(|a| a.location).collect();
    assert_eq!(locations, vec![0, 1, 2]);
    assert_eq!(layout.attributes[2].format, AttributeFormat::R32G32Sfloat);
}

#[test]
fn format_and_size_table() {
    assert_eq!(get_size(VertexInputType::Vec2), 8);
    assert_eq!(get_size(VertexInputType::Vec3), 12);
    assert_eq!(get_size(VertexInputType::Vec4), 16);
    assert_eq!(get_format(VertexInputType::Vec4), AttributeFormat::R32G32B32A32Sfloat);
    assert_eq!(get_format(VertexInputType::Vec3), AttributeFormat::R32G32B32Sfloat);
}

#[test]
fn sorted_sets_from_unordered_bindings() {
    let uniforms = vec![
        binding("a", 2, 0, DescriptorKind::UniformBuffer, ShaderStage::Vertex),
        binding("b", 0, 0, DescriptorKind::UniformBuffer, ShaderStage::Vertex),
        binding("c", 1, 0, DescriptorKind::CombinedImageSampler, ShaderStage::Fragment),
        binding("d", 0, 1, DescriptorKind::UniformBuffer, ShaderStage::Fragment),
    ];
    assert_eq!(get_sorted_sets(&uniforms), vec![0, 1, 2]);
    let groups = set_layouts_methods(&uniforms);
    assert_eq!(groups.len(), 3);
    assert_eq!(groups[0].set, 0);
    assert_eq!(groups[1].set, 1);
    assert_eq!(groups[2].set, 2);
    // Within a set, declaration order is kept: binding b before d.
    assert_eq!(groups[0].bindings.len(), 2);
    assert_eq!(groups[0].bindings[0].binding, 0);
    assert_eq!(groups[0].bindings[1].binding, 1);
    assert_eq!(groups[0].bindings[0].count, 1);
}

#[test]
fn set_layout_bindings_filters_one_set() {
    let uniforms = vec![
        binding("a", 0, 0, DescriptorKind::UniformBuffer, ShaderStage::Vertex),
        binding("b", 1, 2, DescriptorKind::InputAttachment, ShaderStage::Fragment),
        binding("c", 0, 1, DescriptorKind::CombinedImageSampler, ShaderStage::Fragment),
    ];
    let entries = set_layout_bindings(&uniforms, 0);
    assert_eq!(entries.len(), 2);
    assert_eq!(entries[0].binding, 0);
    assert_eq!(entries[0].kind, DescriptorKind::UniformBuffer);
    assert_eq!(entries[1].binding, 1);
    assert_eq!(entries[1].kind, DescriptorKind::CombinedImageSampler);
    assert!(set_layout_bindings(&uniforms, 3).is_empty());
}

#[test]
fn write_set_plans_follow_declaration_order() {
    let uniforms = vec![
        binding("model", 0, 1, DescriptorKind::UniformBuffer, ShaderStage::Vertex),
        binding("material", 0, 0, DescriptorKind::CombinedImageSampler, ShaderStage::Fragment),
        binding("depth", 1, 0, DescriptorKind::InputAttachment, ShaderStage::Fragment),
    ];
    let plans = write_set_methods(&uniforms);
    assert_eq!(plans.len(), 2);
    assert_eq!(plans[0].set, 0);
    // Declaration order, not slot order: slot 1 before slot 0.
    assert_eq!(plans[0].writes[0].binding, 1);
    assert_eq!(plans[0].writes[0].info, WriteInfoKind::BufferInfo);
    assert_eq!(plans[0].writes[1].binding, 0);
    assert_eq!(plans[0].writes[1].info, WriteInfoKind::ImageInfo);
    assert_eq!(plans[0].params[0].name, "model");
    assert_eq!(plans[0].params[0].arg, WriteArgKind::BufferRef);
    assert_eq!(plans[0].params[1].name, "material");
    assert_eq!(plans[0].params[1].arg, WriteArgKind::TextureRef);
    assert_eq!(plans[1].set, 1);
    assert_eq!(plans[1].writes[0].info, WriteInfoKind::AttachmentInfo);
    assert_eq!(plans[1].params[0].arg, WriteArgKind::AttachmentRef);
}

#[test]
fn name_transforms() {
    assert_eq!(to_camelcase("main"), "Main");
    assert_eq!(to_camelcase("simple_shader"), "SimpleShader");
    assert_eq!(to_camelcase("simple-shader"), "SimpleShader");
    assert_eq!(to_lowercase("Main"), "main");
    assert_eq!(undash("simple-shader"), "simple_shader");
    assert_eq!(get_prefix("main_fs"), "main");
    assert_eq!(get_prefix("main_vs"), "main");
    assert_eq!(get_prefix("helper"), "helper");
    assert_eq!(get_prefix("fs"), "fs");
}

#[test]
fn pipeline_plan_names_and_policy() {
    let fns = vec![SourceFn {
        name: String::from("sky_fs"),
        attrs: vec![AttrShape::List(
            Some(String::from("spirv")),
            vec![MetaItem::Word(String::from("fragment"))],
        )],
        args: Vec::new(),
    }];
    let interfaces = get_pipelines(&fns).expect("extraction must succeed");
    let plan = pipeline(&interfaces[0]);
    assert_eq!(plan.name, "Sky");
    assert_eq!(plan.struct_name, "PipelineSky");
    assert_eq!(plan.cache_struct_name, "PipelineCacheSky");
    assert_eq!(plan.vertex_entry, "sky_vs");
    assert_eq!(plan.fragment_entry, "sky_fs");
    let fixed = default_fixed_state();
    assert!(fixed.depth_test && fixed.depth_write && fixed.depth_compare_greater);
    assert!(!fixed.stencil_test && !fixed.culling);
    assert!(fixed.solid_fill && fixed.front_face_counter_clockwise);
    assert_eq!(fixed.sample_count, 1);
    assert_eq!(fixed.color_attachments, 2);
    assert!(fixed.blend_enable && fixed.blend_src_alpha && fixed.blend_dst_one_minus_src_alpha);
    assert!(fixed.dynamic_viewport && fixed.dynamic_scissor);
    assert_eq!((fixed.default_width, fixed.default_height), (1920, 1080));
    let registry_plan = cache("simple-shader", &vec![plan]);
    assert_eq!(registry_plan.enum_name, "ShaderSimpleShader");
    assert_eq!(registry_plan.spv_name, "simple_shader.spv");
    assert_eq!(registry_plan.variant_names, vec![String::from("Sky")]);
}

#[test]
fn malformed_attribute_is_an_error() {
    let fns = vec![SourceFn {
        name: String::from("main_fs"),
        attrs: vec![AttrShape::List(None, Vec::new())],
        args: Vec::new(),
    }];
    match get_pipelines(&fns) {
        Err(ExtractError::MalformedAttribute) => {},
        _ => panic!("expected a malformed attribute error"),
    }
}

#[test]
fn unknown_vertex_type_is_an_error() {
    let fns = vec![
        SourceFn {
            name: String::from("main_fs"),
            attrs: vec![AttrShape::List(
                Some(String::from("spirv")),
                vec![MetaItem::Word(String::from("fragment"))],
            )],
            args: Vec::new(),
        },
        SourceFn {
            name: String::from("main_vs"),
            attrs: vec![AttrShape::List(
                Some(String::from("spirv")),
                vec![MetaItem::Word(String::from("vertex"))],
            )],
            args: vec![ArgShape {
                name: String::from("in_mat"),
                type_ident: Some(String::from("Mat4")),
                by_value: true,
                attrs: Vec::new(),
            }],
        },
    ];
    match get_pipelines(&fns) {
        Err(ExtractError::UnknownVertexType(t)) => assert_eq!(t, "Mat4"),
        _ => panic!("expected an unknown vertex type error"),
    }
}

#[test]
fn half_binding_declaration_is_an_error() {
    let fns = vec![SourceFn {
        name: String::from("main_fs"),
        attrs: vec![AttrShape::List(
            Some(String::from("spirv")),
            vec![MetaItem::Word(String::from("fragment"))],
        )],
        args: vec![ArgShape {
            name: String::from("material"),
            type_ident: Some(String::from("Texture")),
            by_value: false,
            attrs: vec![AttrShape::List(
                Some(String::from("spirv")),
                vec![MetaItem::IntPair(String::from("descriptor_set"), 0)],
            )],
        }],
    }];
    match get_pipelines(&fns) {
        Err(ExtractError::MalformedBinding) => {},
        _ => panic!("expected a malformed binding error"),
    }
}
