use pipewriter::extract::get_pipelines;
use pipewriter::interface::{DescriptorKind, ShaderStage, VertexInputType};
use pipewriter::plan::gen_pipelines;
use pipewriter::registry::PipelineRegistry;
use pipewriter::source::{ArgShape, AttrShape, MetaItem, SourceFn};

fn spirv_attr(words: &[&str]) -> AttrShape {
    AttrShape::List(
        Some(String::from("spirv")),
        words.iter().map(|w| MetaItem::Word(String::from(*w))).collect(),
    )
}

fn value_arg(name: &str, ty: &str) -> ArgShape {
    ArgShape {
        name: String::from(name),
        type_ident: Some(String::from(ty)),
        by_value: true,
        attrs: Vec::new(),
    }
}

fn ref_arg(name: &str, ty: &str, attrs: Vec<AttrShape>) -> ArgShape {
    ArgShape { name: String::from(name), type_ident: Some(String::from(ty)), by_value: false, attrs }
}

/// The simple shader module: one fragment entry point `main_fs` and one
/// vertex entry point `main_vs(in_pos: Vec3, #[spirv(position)] out_pos: &mut Vec4)`.
fn simple_shader() -> Vec<SourceFn> {
    vec![
        SourceFn {
            name: String::from("main_fs"),
            attrs: vec![spirv_attr(&["fragment"])],
            args: vec![ref_arg("out_color", "Vec4", Vec::new())],
        },
        SourceFn {
            name: String::from("main_vs"),
            attrs: vec![spirv_attr(&["vertex"])],
            args: vec![
                value_arg("in_pos", "Vec3"),
                ref_arg("out_pos", "Vec4", vec![spirv_attr(&["position"])]),
            ],
        },
    ]
}

#[test]
fn build_simple_shader() {
    let fns = simple_shader();
    let module = gen_pipelines("simple", &fns).expect("generation must succeed");
    assert_eq!(module.pipelines.len(), 1);
    let main = &module.pipelines[0];
    assert_eq!(main.name, "Main");
    assert_eq!(main.struct_name, "PipelineMain");
    assert_eq!(main.cache_struct_name, "PipelineCacheMain");
    assert_eq!(main.vertex_entry, "main_vs");
    assert_eq!(main.fragment_entry, "main_fs");
    assert_eq!(main.vertex_layout.stride, 12);
    let _pipeline = PipelineRegistry::new(module.pipelines, 7);
    assert!(1 == 1);
}

#[test]
fn test_build_simple_shader() {
    let fns = simple_shader();
    let interfaces = get_pipelines(&fns).expect("extraction must succeed");
    assert_eq!(interfaces.len(), 1);
    assert_eq!(interfaces[0].name, "Main");
    assert_eq!(interfaces[0].arg_types, vec![VertexInputType::Vec3]);
    assert!(interfaces[0].uniforms.is_empty());
    assert!(1 == 1);
}

#[test]
fn fragment_without_vertex_partner() {
    let fns = vec![SourceFn {
        name: String::from("solo_fs"),
        attrs: vec![spirv_attr(&["fragment"])],
        args: Vec::new(),
    }];
    let interfaces = get_pipelines(&fns).expect("extraction must succeed");
    assert_eq!(interfaces.len(), 1);
    assert_eq!(interfaces[0].name, "Solo");
    assert!(interfaces[0].arg_types.is_empty());
}

#[test]
fn no_fragment_entry_yields_no_pipeline() {
    let fns = vec![
        SourceFn {
            name: String::from("main_vs"),
            attrs: vec![spirv_attr(&["vertex"])],
            args: vec![value_arg("in_pos", "Vec3")],
        },
        SourceFn { name: String::from("helper"), attrs: Vec::new(), args: Vec::new() },
    ];
    let interfaces = get_pipelines(&fns).expect("extraction must succeed");
    assert!(interfaces.is_empty());
}

#[test]
fn two_fragments_two_identities() {
    let fns = vec![
        SourceFn {
            name: String::from("main_fs"),
            attrs: vec![spirv_attr(&["fragment"])],
            args: Vec::new(),
        },
        SourceFn {
            name: String::from("secondary_fs"),
            attrs: vec![spirv_attr(&["fragment"])],
            args: Vec::new(),
        },
    ];
    let interfaces = get_pipelines(&fns).expect("extraction must succeed");
    assert_eq!(interfaces.len(), 2);
    assert_eq!(interfaces[0].name, "Main");
    assert_eq!(interfaces[1].name, "Secondary");
}

#[test]
fn uniform_bindings_are_extracted() {
    let fns = vec![
        SourceFn {
            name: String::from("scene_fs"),
            attrs: vec![spirv_attr(&["fragment"])],
            args: vec![ref_arg(
                "material",
                "Texture",
                vec![AttrShape::List(
                    Some(String::from("spirv")),
                    vec![
                        MetaItem::IntPair(String::from("descriptor_set"), 1),
                        MetaItem::IntPair(String::from("binding"), 0),
                    ],
                )],
            )],
        },
        SourceFn {
            name: String::from("scene_vs"),
            attrs: vec![spirv_attr(&["vertex"])],
            args: vec![
                value_arg("in_pos", "Vec3"),
                ref_arg(
                    "model",
                    "Mat4",
                    vec![AttrShape::List(
                        Some(String::from("spirv")),
                        vec![
                            MetaItem::Word(String::from("uniform")),
                            MetaItem::IntPair(String::from("descriptor_set"), 0),
                            MetaItem::IntPair(String::from("binding"), 0),
                        ],
                    )],
                ),
            ],
        },
    ];
    let interfaces = get_pipelines(&fns).expect("extraction must succeed");
    assert_eq!(interfaces.len(), 1);
    let intf = &interfaces[0];
    assert_eq!(intf.uniforms.len(), 2);
    assert_eq!(intf.uniforms[0].name, "model");
    assert_eq!(intf.uniforms[0].descriptor_set, 0);
    assert_eq!(intf.uniforms[0].binding, 0);
    assert_eq!(intf.uniforms[0].kind, DescriptorKind::UniformBuffer);
    assert_eq!(intf.uniforms[0].stage, ShaderStage::Vertex);
    assert_eq!(intf.uniforms[1].name, "material");
    assert_eq!(intf.uniforms[1].descriptor_set, 1);
    assert_eq!(intf.uniforms[1].kind, DescriptorKind::CombinedImageSampler);
    assert_eq!(intf.uniforms[1].stage, ShaderStage::Fragment);
}

#[test]
fn parse_simple_shader_source() {
    let source = r#"
use spirv_std::glam::{vec4, Vec3, Vec4};

#[spirv(fragment)]
pub fn main_fs(out_color: &mut Vec4) {
    *out_color = vec4(1.0, 0.0, 0.0, 1.0)
}

#[spirv(vertex)]
pub fn main_vs(in_pos: Vec3, #[spirv(position)] out_pos: &mut Vec4) {
    *out_pos = vec4(in_pos.x, in_pos.y, in_pos.z, 1.0);
}
"#;
    let fns = pipewriter::parse::parse_module(source).expect("the module must parse");
    assert_eq!(fns.len(), 2);
    assert_eq!(fns[0].name, "main_fs");
    assert_eq!(fns[1].name, "main_vs");
    let interfaces = get_pipelines(&fns).expect("extraction must succeed");
    assert_eq!(interfaces.len(), 1);
    assert_eq!(interfaces[0].name, "Main");
    assert_eq!(interfaces[0].arg_types, vec![VertexInputType::Vec3]);
    let module = gen_pipelines("simple-shader", &fns).expect("generation must succeed");
    assert_eq!(module.crate_name, "CrateSimpleShader");
    assert_eq!(module.spv_name, "simple_shader.spv");
    assert_eq!(module.registry.enum_name, "ShaderSimpleShader");
}
