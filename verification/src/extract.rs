//! Interface extraction: walks the top-level functions of a shader source
//! module, classifies them by stage from their `spirv` attribute metadata,
//! discovers one pipeline per fragment-stage entry point, and assembles each
//! pipeline's interface record (identity, vertex inputs of the paired vertex
//! entry point, uniform bindings of both stages).

use vstd::prelude::*;
use crate::interface::{
    PipelineInterface, PipelineInterfaceView, ShaderStage, UniformBinding, UniformBindingView,
    VertexInputType, DescriptorKind,
};
use crate::names::{camel_of, prefix_of};
use crate::names::{get_prefix, to_camelcase};
use crate::source::{ArgShapeView, AttrShape, AttrShapeView, MetaItem, MetaItemView, SourceFn, SourceFnView, str_equal};

verus! {

/// Why extraction aborted. These are compiler-level failures: there is no
/// partial output.
#[derive(Debug)]
pub enum ExtractError {
    /// An attribute list whose path is not a single identifier.
    MalformedAttribute,
    /// A vertex input whose type has no entry in the closed format table;
    /// carries the type name, empty when the type is not a plain identifier.
    UnknownVertexType(String),
    /// A resource declaration with only one of `descriptor_set` and
    /// `binding`.
    MalformedBinding,
}

/// Mathematical form of an extraction error.
pub enum ExtractErrorView {
    MalformedAttribute,
    UnknownVertexType(Seq<char>),
    MalformedBinding,
}

impl DeepView for ExtractError {
    type V = ExtractErrorView;

    open spec fn deep_view(&self) -> ExtractErrorView {
        match self {
            ExtractError::MalformedAttribute => ExtractErrorView::MalformedAttribute,
            ExtractError::UnknownVertexType(s) => ExtractErrorView::UnknownVertexType(s@),
            ExtractError::MalformedBinding => ExtractErrorView::MalformedBinding,
        }
    }
}

/// The stage named by a `spirv` attribute list: the first `vertex` or
/// `fragment` word decides; a list naming neither marks no entry point.
pub open spec fn spec_stage_of_items(items: Seq<MetaItemView>) -> Option<ShaderStage>
    decreases items.len(),
{
    if items.len() == 0 {
        None
    } else {
        match items[0] {
            MetaItemView::Word(w) => if w == "vertex"@ {
                Some(ShaderStage::Vertex)
            } else if w == "fragment"@ {
                Some(ShaderStage::Fragment)
            } else {
                spec_stage_of_items(items.skip(1))
            },
            _ => spec_stage_of_items(items.skip(1)),
        }
    }
}

/// The first `spirv` attribute list, scanning attributes in order. A list
/// attribute whose path is not a single identifier is a malformed-metadata
/// failure; attributes that are not lists are passed over, and attributes
/// after the first `spirv` list are never inspected.
pub open spec fn spec_get_spirv(attrs: Seq<AttrShapeView>) -> Result<Option<Seq<MetaItemView>>, ()>
    decreases attrs.len(),
{
    if attrs.len() == 0 {
        Ok(None)
    } else {
        match attrs[0] {
            AttrShapeView::List(path, items) => match path {
                None => Err(()),
                Some(p) => if p == "spirv"@ {
                    Ok(Some(items))
                } else {
                    spec_get_spirv(attrs.skip(1))
                },
            },
            _ => spec_get_spirv(attrs.skip(1)),
        }
    }
}

/// Stage classification of one function from its attributes.
pub open spec fn spec_stage_of_fn(f: SourceFnView) -> Result<Option<ShaderStage>, ()> {
    match spec_get_spirv(f.attrs) {
        Err(()) => Err(()),
        Ok(None) => Ok(None),
        Ok(Some(items)) => Ok(spec_stage_of_items(items)),
    }
}

/// Whether the attribute list contains the given bare word.
pub open spec fn spec_has_word(items: Seq<MetaItemView>, w: Seq<char>) -> bool {
    exists|k: int|
        0 <= k < items.len() && ((#[trigger] items[k]) matches MetaItemView::Word(x) && x == w)
}

/// The value of the first `name = integer` item with the given name.
pub open spec fn spec_find_int(items: Seq<MetaItemView>, name: Seq<char>) -> Option<u32>
    decreases items.len(),
{
    if items.len() == 0 {
        None
    } else {
        match items[0] {
            MetaItemView::IntPair(n, v) => if n == name {
                Some(v)
            } else {
                spec_find_int(items.skip(1), name)
            },
            _ => spec_find_int(items.skip(1), name),
        }
    }
}

/// The descriptor kind named by a resource declaration: `uniform` marks a
/// uniform buffer, `input_attachment` an input attachment, and a plain
/// set/binding pair a combined image sampler.
pub open spec fn spec_kind_of_items(items: Seq<MetaItemView>) -> DescriptorKind {
    if spec_has_word(items, "uniform"@) {
        DescriptorKind::UniformBuffer
    } else if spec_has_word(items, "input_attachment"@) {
        DescriptorKind::InputAttachment
    } else {
        DescriptorKind::CombinedImageSampler
    }
}

/// The uniform binding declared by one argument, if any: its `spirv` list
/// must carry both `descriptor_set` and `binding`; carrying exactly one of
/// the two is a malformed declaration.
pub open spec fn spec_arg_uniform(a: ArgShapeView, stage: ShaderStage) -> Result<
    Option<UniformBindingView>,
    ExtractErrorView,
> {
    match spec_get_spirv(a.attrs) {
        Err(()) => Err(ExtractErrorView::MalformedAttribute),
        Ok(None) => Ok(None),
        Ok(Some(items)) => match (spec_find_int(items, "descriptor_set"@), spec_find_int(
            items,
            "binding"@,
        )) {
            (Some(ds), Some(b)) => Ok(
                Some(
                    UniformBindingView {
                        name: a.name,
                        binding: b,
                        descriptor_set: ds,
                        kind: spec_kind_of_items(items),
                        stage,
                    },
                ),
            ),
            (None, None) => Ok(None),
            _ => Err(ExtractErrorView::MalformedBinding),
        },
    }
}

/// The entry of the closed vertex format table for a type name.
pub open spec fn spec_vertex_type(name: Seq<char>) -> Option<VertexInputType> {
    if name == "Vec2"@ {
        Some(VertexInputType::Vec2)
    } else if name == "Vec3"@ {
        Some(VertexInputType::Vec3)
    } else if name == "Vec4"@ {
        Some(VertexInputType::Vec4)
    } else {
        None
    }
}

/// Scan of a vertex entry point's arguments, left to right: an argument with
/// a set/binding declaration contributes a uniform binding; any other
/// by-value argument is a vertex input and must have a known vector type.
pub open spec fn spec_scan_vertex(args: Seq<ArgShapeView>) -> Result<
    (Seq<VertexInputType>, Seq<UniformBindingView>),
    ExtractErrorView,
>
    decreases args.len(),
{
    if args.len() == 0 {
        Ok((Seq::empty(), Seq::empty()))
    } else {
        match spec_arg_uniform(args[0], ShaderStage::Vertex) {
            Err(e) => Err(e),
            Ok(Some(u)) => match spec_scan_vertex(args.skip(1)) {
                Err(e) => Err(e),
                Ok((ts, us)) => Ok((ts, seq![u] + us)),
            },
            Ok(None) => if args[0].by_value {
                match args[0].type_ident {
                    None => Err(ExtractErrorView::UnknownVertexType(Seq::empty())),
                    Some(n) => match spec_vertex_type(n) {
                        None => Err(ExtractErrorView::UnknownVertexType(n)),
                        Some(t) => match spec_scan_vertex(args.skip(1)) {
                            Err(e) => Err(e),
                            Ok((ts, us)) => Ok((seq![t] + ts, us)),
                        },
                    },
                }
            } else {
                spec_scan_vertex(args.skip(1))
            },
        }
    }
}

/// Scan of a fragment entry point's arguments for uniform bindings, left to
/// right; arguments without a set/binding declaration are passed over.
pub open spec fn spec_scan_uniforms(args: Seq<ArgShapeView>, stage: ShaderStage) -> Result<
    Seq<UniformBindingView>,
    ExtractErrorView,
>
    decreases args.len(),
{
    if args.len() == 0 {
        Ok(Seq::empty())
    } else {
        match spec_arg_uniform(args[0], stage) {
            Err(e) => Err(e),
            Ok(Some(u)) => match spec_scan_uniforms(args.skip(1), stage) {
                Err(e) => Err(e),
                Ok(us) => Ok(seq![u] + us),
            },
            Ok(None) => spec_scan_uniforms(args.skip(1), stage),
        }
    }
}

/// The first vertex-stage entry point sharing the given pipeline name prefix.
pub open spec fn spec_find_vertex(all: Seq<SourceFnView>, prefix: Seq<char>) -> Option<SourceFnView>
    decreases all.len(),
{
    if all.len() == 0 {
        None
    } else if spec_stage_of_fn(all[0]) == Ok::<Option<ShaderStage>, ()>(Some(ShaderStage::Vertex))
        && prefix_of(all[0].name) == prefix {
        Some(all[0])
    } else {
        spec_find_vertex(all.skip(1), prefix)
    }
}

/// The interface of the pipeline named by one fragment entry point: the
/// camel-cased common prefix is its identity; the paired vertex entry point,
/// when there is one, contributes the vertex inputs and its uniform bindings,
/// in declaration order, followed by the fragment stage's uniform bindings.
pub open spec fn spec_interface_of(f: SourceFnView, all: Seq<SourceFnView>) -> Result<
    PipelineInterfaceView,
    ExtractErrorView,
> {
    let prefix = prefix_of(f.name);
    let from_vertex = match spec_find_vertex(all, prefix) {
        Some(v) => spec_scan_vertex(v.args),
        None => Ok((Seq::empty(), Seq::empty())),
    };
    match from_vertex {
        Err(e) => Err(e),
        Ok((ts, vus)) => match spec_scan_uniforms(f.args, ShaderStage::Fragment) {
            Err(e) => Err(e),
            Ok(fus) => Ok(
                PipelineInterfaceView { name: camel_of(prefix), arg_types: ts, uniforms: vus + fus },
            ),
        },
    }
}

/// Extraction over the module's functions in order: classifying each, and
/// producing one pipeline interface per fragment-stage entry point. The
/// first failure, in function order, aborts the pass.
pub open spec fn spec_extract(fns: Seq<SourceFnView>, all: Seq<SourceFnView>) -> Result<
    Seq<PipelineInterfaceView>,
    ExtractErrorView,
>
    decreases fns.len(),
{
    if fns.len() == 0 {
        Ok(Seq::empty())
    } else {
        match spec_stage_of_fn(fns[0]) {
            Err(()) => Err(ExtractErrorView::MalformedAttribute),
            Ok(stage) => {
                if stage == Some(ShaderStage::Fragment) {
                    match spec_interface_of(fns[0], all) {
                        Err(e) => Err(e),
                        Ok(intf) => match spec_extract(fns.skip(1), all) {
                            Err(e) => Err(e),
                            Ok(rest) => Ok(seq![intf] + rest),
                        },
                    }
                } else {
                    spec_extract(fns.skip(1), all)
                }
            },
        }
    }
}

/// Analyzes the attributes of a function or argument, looking for the first
/// `spirv` metadata list.
pub fn get_spirv<'a>(attrs: &'a Vec<AttrShape>) -> (r: Result<Option<&'a Vec<MetaItem>>, ExtractError>)
    ensures
        match r {
            Ok(Some(items)) => spec_get_spirv(attrs.deep_view()) == Ok::<_, ()>(
                Some(items.deep_view()),
            ),
            Ok(None) => spec_get_spirv(attrs.deep_view()) == Ok::<Option<Seq<MetaItemView>>, ()>(
                None,
            ),
            Err(e) => spec_get_spirv(attrs.deep_view()) == Err::<Option<Seq<MetaItemView>>, ()>(())
                && e.deep_view() == ExtractErrorView::MalformedAttribute,
        },
{
    let ghost av = attrs.deep_view();
    let mut i: usize = 0;
    proof {
        assert(av.skip(0) =~= av);
    }
    while i < attrs.len()
        invariant
            av == attrs.deep_view(),
            av.len() == attrs@.len(),
            0 <= i <= attrs@.len(),
            spec_get_spirv(av) == spec_get_spirv(av.skip(i as int)),
        decreases attrs@.len() - i,
    {
        proof {
            assert(av.skip(i as int)[0] == av[i as int]);
            assert(av.skip(i as int).skip(1) =~= av.skip(i + 1));
        }
        match &attrs[i] {
            AttrShape::List(path, items) => {
                match path {
                    None => {
                        return Err(ExtractError::MalformedAttribute);
                    },
                    Some(p) => {
                        if str_equal(p.as_str(), "spirv") {
                            return Ok(Some(items));
                        }
                    },
                }
            },
            _ => {},
        }
        i = i + 1;
    }
    proof {
        assert(av.skip(attrs@.len() as int) =~= Seq::<AttrShapeView>::empty());
    }
    Ok(None)
}

/// Analyzes a `spirv` metadata list, looking for a `vertex` or `fragment`
/// word, and returns the corresponding shader stage.
pub fn get_shader_type(items: &Vec<MetaItem>) -> (r: Option<ShaderStage>)
    ensures
        r == spec_stage_of_items(items.deep_view()),
{
    let ghost iv = items.deep_view();
    let mut i: usize = 0;
    proof {
        assert(iv.skip(0) =~= iv);
    }
    while i < items.len()
        invariant
            iv == items.deep_view(),
            iv.len() == items@.len(),
            0 <= i <= items@.len(),
            spec_stage_of_items(iv) == spec_stage_of_items(iv.skip(i as int)),
        decreases items@.len() - i,
    {
        proof {
            assert(iv.skip(i as int)[0] == iv[i as int]);
            assert(iv.skip(i as int).skip(1) =~= iv.skip(i + 1));
        }
        match &items[i] {
            MetaItem::Word(w) => {
                if str_equal(w.as_str(), "vertex") {
                    return Some(ShaderStage::Vertex);
                }
                if str_equal(w.as_str(), "fragment") {
                    return Some(ShaderStage::Fragment);
                }
            },
            _ => {},
        }
        i = i + 1;
    }
    proof {
        assert(iv.skip(items@.len() as int) =~= Seq::<MetaItemView>::empty());
    }
    None
}

/// Stage classification of one function from its attributes.
pub fn fn_stage(f: &SourceFn) -> (r: Result<Option<ShaderStage>, ExtractError>)
    ensures
        match r {
            Ok(stage) => spec_stage_of_fn(f.deep_view()) == Ok::<_, ()>(stage),
            Err(e) => spec_stage_of_fn(f.deep_view()) == Err::<Option<ShaderStage>, ()>(())
                && e.deep_view() == ExtractErrorView::MalformedAttribute,
        },
{
    match get_spirv(&f.attrs) {
        Err(e) => Err(e),
        Ok(None) => Ok(None),
        Ok(Some(items)) => Ok(get_shader_type(items)),
    }
}

/// Whether the metadata list contains the given bare word.
fn has_word(items: &Vec<MetaItem>, w: &str) -> (r: bool)
    ensures
        r == spec_has_word(items.deep_view(), w@),
{
    let ghost iv = items.deep_view();
    let mut i: usize = 0;
    while i < items.len()
        invariant
            iv == items.deep_view(),
            iv.len() == items@.len(),
            0 <= i <= items@.len(),
            forall|k: int|
                0 <= k < i ==> !((#[trigger] iv[k]) matches MetaItemView::Word(x) && x == w@),
        decreases items@.len() - i,
    {
        match &items[i] {
            MetaItem::Word(x) => {
                if str_equal(x.as_str(), w) {
                    proof {
                        assert(iv[i as int] matches MetaItemView::Word(y) && y == w@);
                    }
                    return true;
                }
            },
            _ => {},
        }
        i = i + 1;
    }
    false
}

/// The value of the first `name = integer` item with the given name.
fn find_int(items: &Vec<MetaItem>, name: &str) -> (r: Option<u32>)
    ensures
        r == spec_find_int(items.deep_view(), name@),
{
    let ghost iv = items.deep_view();
    let mut i: usize = 0;
    proof {
        assert(iv.skip(0) =~= iv);
    }
    while i < items.len()
        invariant
            iv == items.deep_view(),
            iv.len() == items@.len(),
            0 <= i <= items@.len(),
            spec_find_int(iv, name@) == spec_find_int(iv.skip(i as int), name@),
        decreases items@.len() - i,
    {
        proof {
            assert(iv.skip(i as int)[0] == iv[i as int]);
            assert(iv.skip(i as int).skip(1) =~= iv.skip(i + 1));
        }
        match &items[i] {
            MetaItem::IntPair(n, v) => {
                if str_equal(n.as_str(), name) {
                    return Some(*v);
                }
            },
            _ => {},
        }
        i = i + 1;
    }
    proof {
        assert(iv.skip(items@.len() as int) =~= Seq::<MetaItemView>::empty());
    }
    None
}

/// The descriptor kind named by a resource declaration.
fn kind_of_items(items: &Vec<MetaItem>) -> (r: DescriptorKind)
    ensures
        r == spec_kind_of_items(items.deep_view()),
{
    if has_word(items, "uniform") {
        DescriptorKind::UniformBuffer
    } else if has_word(items, "input_attachment") {
        DescriptorKind::InputAttachment
    } else {
        DescriptorKind::CombinedImageSampler
    }
}

/// The uniform binding declared by one argument, if any.
fn arg_uniform(a: &crate::source::ArgShape, stage: ShaderStage) -> (r: Result<
    Option<UniformBinding>,
    ExtractError,
>)
    ensures
        match r {
            Ok(Some(u)) => spec_arg_uniform(a.deep_view(), stage) == Ok::<
                _,
                ExtractErrorView,
            >(Some(u.deep_view())),
            Ok(None) => spec_arg_uniform(a.deep_view(), stage) == Ok::<
                Option<UniformBindingView>,
                ExtractErrorView,
            >(None),
            Err(e) => spec_arg_uniform(a.deep_view(), stage) == Err::<
                Option<UniformBindingView>,
                ExtractErrorView,
            >(e.deep_view()),
        },
{
    match get_spirv(&a.attrs) {
        Err(e) => Err(e),
        Ok(None) => Ok(None),
        Ok(Some(items)) => {
            let ds = find_int(items, "descriptor_set");
            let b = find_int(items, "binding");
            match (ds, b) {
                (Some(ds), Some(b)) => {
                    let kind = kind_of_items(items);
                    Ok(
                        Some(
                            UniformBinding {
                                name: a.name.clone(),
                                binding: b,
                                descriptor_set: ds,
                                kind,
                                stage,
                            },
                        ),
                    )
                },
                (None, None) => Ok(None),
                _ => Err(ExtractError::MalformedBinding),
            }
        },
    }
}

/// The entry of the closed vertex format table for a type name.
pub fn vertex_type_of(name: &str) -> (r: Option<VertexInputType>)
    ensures
        r == spec_vertex_type(name@),
{
    if str_equal(name, "Vec2") {
        Some(VertexInputType::Vec2)
    } else if str_equal(name, "Vec3") {
        Some(VertexInputType::Vec3)
    } else if str_equal(name, "Vec4") {
        Some(VertexInputType::Vec4)
    } else {
        None
    }
}

/// Scans a vertex entry point's arguments for vertex inputs and uniform
/// bindings, in declaration order.
fn scan_vertex(args: &Vec<crate::source::ArgShape>) -> (r: Result<
    (Vec<VertexInputType>, Vec<UniformBinding>),
    ExtractError,
>)
    ensures
        match r {
            Ok(p) => spec_scan_vertex(args.deep_view()) == Ok::<_, ExtractErrorView>(
                (p.0@, p.1.deep_view()),
            ),
            Err(e) => spec_scan_vertex(args.deep_view()) == Err::<
                (Seq<VertexInputType>, Seq<UniformBindingView>),
                ExtractErrorView,
            >(e.deep_view()),
        },
{
    let ghost av = args.deep_view();
    let mut ts: Vec<VertexInputType> = Vec::new();
    let mut us: Vec<UniformBinding> = Vec::new();
    let mut i: usize = 0;
    proof {
        assert(av.skip(0) =~= av);
    }
    while i < args.len()
        invariant
            av == args.deep_view(),
            av.len() == args@.len(),
            0 <= i <= args@.len(),
            match spec_scan_vertex(av) {
                Ok(p) => spec_scan_vertex(av.skip(i as int)) matches Ok(q) && p.0 == ts@ + q.0
                    && p.1 == us.deep_view() + q.1,
                Err(e) => spec_scan_vertex(av.skip(i as int)) == Err::<
                    (Seq<VertexInputType>, Seq<UniformBindingView>),
                    ExtractErrorView,
                >(e),
            },
        decreases args@.len() - i,
    {
        proof {
            assert(av.skip(i as int)[0] == av[i as int]);
            assert(av.skip(i as int).skip(1) =~= av.skip(i + 1));
        }
        let a = &args[i];
        match arg_uniform(a, ShaderStage::Vertex) {
            Err(e) => {
                return Err(e);
            },
            Ok(Some(u)) => {
                us.push(u);
                proof {
                    assert(us.deep_view() =~= us.deep_view());
                }
            },
            Ok(None) => {
                if a.by_value {
                    match &a.type_ident {
                        None => {
                            return Err(ExtractError::UnknownVertexType(String::new()));
                        },
                        Some(n) => {
                            match vertex_type_of(n.as_str()) {
                                None => {
                                    return Err(ExtractError::UnknownVertexType(n.clone()));
                                },
                                Some(t) => {
                                    ts.push(t);
                                },
                            }
                        },
                    }
                }
            },
        }
        i = i + 1;
    }
    proof {
        assert(av.skip(args@.len() as int) =~= Seq::<ArgShapeView>::empty());
        match spec_scan_vertex(av) {
            Ok(p) => {
                assert(p.0 =~= ts@);
                assert(p.1 =~= us.deep_view());
            },
            Err(e) => {},
        }
    }
    Ok((ts, us))
}

/// Scans an entry point's arguments for uniform bindings only, in
/// declaration order.
fn scan_uniforms(args: &Vec<crate::source::ArgShape>, stage: ShaderStage) -> (r: Result<
    Vec<UniformBinding>,
    ExtractError,
>)
    ensures
        match r {
            Ok(us) => spec_scan_uniforms(args.deep_view(), stage) == Ok::<_, ExtractErrorView>(
                us.deep_view(),
            ),
            Err(e) => spec_scan_uniforms(args.deep_view(), stage) == Err::<
                Seq<UniformBindingView>,
                ExtractErrorView,
            >(e.deep_view()),
        },
{
    let ghost av = args.deep_view();
    let mut us: Vec<UniformBinding> = Vec::new();
    let mut i: usize = 0;
    proof {
        assert(av.skip(0) =~= av);
    }
    while i < args.len()
        invariant
            av == args.deep_view(),
            av.len() == args@.len(),
            0 <= i <= args@.len(),
            match spec_scan_uniforms(av, stage) {
                Ok(p) => spec_scan_uniforms(av.skip(i as int), stage) matches Ok(q) && p
                    == us.deep_view() + q,
                Err(e) => spec_scan_uniforms(av.skip(i as int), stage) == Err::<
                    Seq<UniformBindingView>,
                    ExtractErrorView,
                >(e),
            },
        decreases args@.len() - i,
    {
        proof {
            assert(av.skip(i as int)[0] == av[i as int]);
            assert(av.skip(i as int).skip(1) =~= av.skip(i + 1));
        }
        match arg_uniform(&args[i], stage) {
            Err(e) => {
                return Err(e);
            },
            Ok(Some(u)) => {
                us.push(u);
            },
            Ok(None) => {},
        }
        i = i + 1;
    }
    proof {
        assert(av.skip(args@.len() as int) =~= Seq::<ArgShapeView>::empty());
        match spec_scan_uniforms(av, stage) {
            Ok(p) => {
                assert(p =~= us.deep_view());
            },
            Err(e) => {},
        }
    }
    Ok(us)
}

/// The first vertex-stage entry point sharing the given pipeline name
/// prefix, as an index into the function list.
fn find_vertex(all: &Vec<SourceFn>, prefix: &str) -> (r: Option<usize>)
    ensures
        match r {
            Some(i) => i < all@.len() && spec_find_vertex(all.deep_view(), prefix@) == Some(
                all.deep_view()[i as int],
            ),
            None => spec_find_vertex(all.deep_view(), prefix@) is None,
        },
{
    let ghost av = all.deep_view();
    let mut i: usize = 0;
    proof {
        assert(av.skip(0) =~= av);
    }
    while i < all.len()
        invariant
            av == all.deep_view(),
            av.len() == all@.len(),
            0 <= i <= all@.len(),
            spec_find_vertex(av, prefix@) == spec_find_vertex(av.skip(i as int), prefix@),
        decreases all@.len() - i,
    {
        proof {
            assert(av.skip(i as int)[0] == av[i as int]);
            assert(av.skip(i as int).skip(1) =~= av.skip(i + 1));
        }
        let f = &all[i];
        let is_vertex = match fn_stage(f) {
            Ok(Some(ShaderStage::Vertex)) => true,
            _ => false,
        };
        if is_vertex {
            let p = get_prefix(f.name.as_str());
            if str_equal(p.as_str(), prefix) {
                return Some(i);
            }
        }
        i = i + 1;
    }
    proof {
        assert(av.skip(all@.len() as int) =~= Seq::<SourceFnView>::empty());
    }
    None
}

/// Builds the interface of the pipeline named by one fragment entry point.
fn interface_of(f: &SourceFn, all: &Vec<SourceFn>) -> (r: Result<PipelineInterface, ExtractError>)
    ensures
        match r {
            Ok(intf) => spec_interface_of(f.deep_view(), all.deep_view()) == Ok::<
                _,
                ExtractErrorView,
            >(intf.deep_view()),
            Err(e) => spec_interface_of(f.deep_view(), all.deep_view()) == Err::<
                PipelineInterfaceView,
                ExtractErrorView,
            >(e.deep_view()),
        },
{
    let prefix = get_prefix(f.name.as_str());
    let (arg_types, mut uniforms) = match find_vertex(all, prefix.as_str()) {
        Some(vi) => {
            match scan_vertex(&all[vi].args) {
                Err(e) => {
                    return Err(e);
                },
                Ok(p) => p,
            }
        },
        None => (Vec::new(), Vec::new()),
    };
    let mut fus = match scan_uniforms(&f.args, ShaderStage::Fragment) {
        Err(e) => {
            return Err(e);
        },
        Ok(us) => us,
    };
    let ghost vus = uniforms.deep_view();
    let ghost fusv = fus.deep_view();
    uniforms.append(&mut fus);
    proof {
        assert(uniforms.deep_view() =~= vus + fusv);
    }
    let name = to_camelcase(prefix.as_str());
    let intf = PipelineInterface { name, arg_types, uniforms };
    proof {
        match spec_interface_of(f.deep_view(), all.deep_view()) {
            Ok(iv) => {
                assert(iv.arg_types =~= intf.deep_view().arg_types);
                assert(iv.uniforms =~= intf.deep_view().uniforms);
            },
            Err(_) => {},
        }
    }
    Ok(intf)
}

/// Collects all the pipelines found in a shader module: one per
/// fragment-stage entry point, in function order; the first malformed
/// declaration or unknown vertex input type aborts the pass.
pub fn get_pipelines(fns: &Vec<SourceFn>) -> (r: Result<Vec<PipelineInterface>, ExtractError>)
    ensures
        match r {
            Ok(ps) => spec_extract(fns.deep_view(), fns.deep_view()) == Ok::<
                _,
                ExtractErrorView,
            >(ps.deep_view()),
            Err(e) => spec_extract(fns.deep_view(), fns.deep_view()) == Err::<
                Seq<PipelineInterfaceView>,
                ExtractErrorView,
            >(e.deep_view()),
        },
{
    let ghost av = fns.deep_view();
    let mut ps: Vec<PipelineInterface> = Vec::new();
    let mut i: usize = 0;
    proof {
        assert(av.skip(0) =~= av);
    }
    while i < fns.len()
        invariant
            av == fns.deep_view(),
            av.len() == fns@.len(),
            0 <= i <= fns@.len(),
            match spec_extract(av, av) {
                Ok(p) => spec_extract(av.skip(i as int), av) matches Ok(q) && p == ps.deep_view()
                    + q,
                Err(e) => spec_extract(av.skip(i as int), av) == Err::<
                    Seq<PipelineInterfaceView>,
                    ExtractErrorView,
                >(e),
            },
        decreases fns@.len() - i,
    {
        proof {
            assert(av.skip(i as int)[0] == av[i as int]);
            assert(av.skip(i as int).skip(1) =~= av.skip(i + 1));
        }
        let f = &fns[i];
        let stage = match fn_stage(f) {
            Err(e) => {
                return Err(e);
            },
            Ok(s) => s,
        };
        let is_fragment = match stage {
            Some(ShaderStage::Fragment) => true,
            _ => false,
        };
        if is_fragment {
            match interface_of(f, fns) {
                Err(e) => {
                    return Err(e);
                },
                Ok(intf) => {
                    ps.push(intf);
                },
            }
        }
        i = i + 1;
    }
    proof {
        assert(av.skip(fns@.len() as int) =~= Seq::<SourceFnView>::empty());
        match spec_extract(av, av) {
            Ok(p) => {
                assert(p =~= ps.deep_view());
            },
            Err(e) => {},
        }
    }
    Ok(ps)
}


/// Fragment-stage entry points of a module.
pub open spec fn count_fragments(fns: Seq<SourceFnView>) -> int
    decreases fns.len(),
{
    if fns.len() == 0 {
        0
    } else {
        (if spec_stage_of_fn(fns[0]) == Ok::<Option<ShaderStage>, ()>(Some(ShaderStage::Fragment)) {
            1int
        } else {
            0int
        }) + count_fragments(fns.skip(1))
    }
}

/// Extraction discovers exactly one pipeline per fragment-stage entry point.
pub proof fn lemma_one_pipeline_per_fragment(fns: Seq<SourceFnView>, all: Seq<SourceFnView>)
    ensures
        spec_extract(fns, all) matches Ok(ps) ==> ps.len() == count_fragments(fns),
    decreases fns.len(),
{
    if fns.len() > 0 {
        lemma_one_pipeline_per_fragment(fns.skip(1), all);
    }
}

/// A module with no fragment-stage entry point and no malformed attribute
/// yields zero discovered pipelines.
pub proof fn lemma_no_fragment_no_pipeline(fns: Seq<SourceFnView>, all: Seq<SourceFnView>)
    requires
        forall|k: int|
            0 <= k < fns.len() ==> #[trigger] spec_stage_of_fn(fns[k]) is Ok
                && spec_stage_of_fn(fns[k]) != Ok::<Option<ShaderStage>, ()>(
                Some(ShaderStage::Fragment),
            ),
    ensures
        spec_extract(fns, all) == Ok::<Seq<PipelineInterfaceView>, ExtractErrorView>(Seq::empty()),
    decreases fns.len(),
{
    if fns.len() > 0 {
        lemma_no_fragment_no_pipeline(fns.skip(1), all);
    }
}

} // verus!

