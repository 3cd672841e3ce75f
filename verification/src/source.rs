//! Plain model of the parts of a shader source module that the extractor
//! reads: top-level functions, their attribute metadata, and their argument
//! shapes. A parser front end fills these records; the extractor's verified
//! logic consumes them.

use vstd::prelude::*;

verus! {

/// Mathematical form of one item inside an attribute's parenthesized list.
pub enum MetaItemView {
    /// A bare word, such as `fragment`.
    Word(Seq<char>),
    /// A `name = integer` pair, such as `binding = 0`.
    IntPair(Seq<char>, u32),
    /// Anything else: string values, nested lists.
    Other,
}

/// Mathematical form of one attribute.
pub enum AttrShapeView {
    /// An attribute that could not be read as structured metadata.
    Opaque,
    /// A bare path attribute.
    Word,
    /// A `name = value` attribute.
    Pair,
    /// A parenthesized list; the path is `None` when it is not a single
    /// identifier.
    List(Option<Seq<char>>, Seq<MetaItemView>),
}

/// Mathematical form of one function argument.
pub struct ArgShapeView {
    pub name: Seq<char>,
    pub type_ident: Option<Seq<char>>,
    pub by_value: bool,
    pub attrs: Seq<AttrShapeView>,
}

/// Mathematical form of one top-level function.
pub struct SourceFnView {
    pub name: Seq<char>,
    pub attrs: Seq<AttrShapeView>,
    pub args: Seq<ArgShapeView>,
}

/// One item inside an attribute's parenthesized list.
#[derive(Debug)]
pub enum MetaItem {
    /// A bare word, such as `fragment`.
    Word(String),
    /// A `name = integer` pair, such as `binding = 0`.
    IntPair(String, u32),
    /// Anything else: string values, nested lists.
    Other,
}

impl DeepView for MetaItem {
    type V = MetaItemView;

    open spec fn deep_view(&self) -> MetaItemView {
        match self {
            MetaItem::Word(w) => MetaItemView::Word(w@),
            MetaItem::IntPair(n, v) => MetaItemView::IntPair(n@, *v),
            MetaItem::Other => MetaItemView::Other,
        }
    }
}

/// The shape of one attribute on a function or an argument.
#[derive(Debug)]
pub enum AttrShape {
    /// An attribute that could not be read as structured metadata.
    Opaque,
    /// A bare path attribute.
    Word,
    /// A `name = value` attribute.
    Pair,
    /// A parenthesized list such as `#[spirv(vertex)]`; the path is `None`
    /// when it is not a single identifier.
    List(Option<String>, Vec<MetaItem>),
}

impl DeepView for AttrShape {
    type V = AttrShapeView;

    open spec fn deep_view(&self) -> AttrShapeView {
        match self {
            AttrShape::Opaque => AttrShapeView::Opaque,
            AttrShape::Word => AttrShapeView::Word,
            AttrShape::Pair => AttrShapeView::Pair,
            AttrShape::List(p, items) => AttrShapeView::List(
                match p {
                    Some(s) => Some(s@),
                    None => None,
                },
                items.deep_view(),
            ),
        }
    }
}

/// The shape of one function argument: its pattern identifier, the single
/// identifier of its type when it has one, whether it is taken by value, and
/// its attributes.
#[derive(Debug)]
pub struct ArgShape {
    pub name: String,
    pub type_ident: Option<String>,
    pub by_value: bool,
    pub attrs: Vec<AttrShape>,
}

impl DeepView for ArgShape {
    type V = ArgShapeView;

    open spec fn deep_view(&self) -> ArgShapeView {
        ArgShapeView {
            name: self.name@,
            type_ident: match &self.type_ident {
                Some(s) => Some(s@),
                None => None,
            },
            by_value: self.by_value,
            attrs: self.attrs.deep_view(),
        }
    }
}

/// One top-level function of the shader source: its name, its attributes,
/// and its argument shapes.
#[derive(Debug)]
pub struct SourceFn {
    pub name: String,
    pub attrs: Vec<AttrShape>,
    pub args: Vec<ArgShape>,
}

impl DeepView for SourceFn {
    type V = SourceFnView;

    open spec fn deep_view(&self) -> SourceFnView {
        SourceFnView { name: self.name@, attrs: self.attrs.deep_view(), args: self.args.deep_view() }
    }
}

/// Character-wise string comparison.
pub fn str_equal(a: &str, b: &str) -> (r: bool)
    ensures
        r == (a@ == b@),
{
    let na = a.unicode_len();
    let nb = b.unicode_len();
    if na != nb {
        proof {
            assert(a@ != b@) by {
                if a@ == b@ {
                    assert(a@.len() == b@.len());
                }
            }
        }
        return false;
    }
    let mut i: usize = 0;
    while i < na
        invariant
            na == a@.len(),
            na == b@.len(),
            0 <= i <= na,
            forall|k: int| 0 <= k < i ==> a@[k] == b@[k],
        decreases na - i,
    {
        if a.get_char(i) != b.get_char(i) {
            proof {
                assert(a@ != b@) by {
                    if a@ == b@ {
                        assert(a@[i as int] == b@[i as int]);
                    }
                }
            }
            return false;
        }
        i = i + 1;
    }
    proof {
        assert(a@ =~= b@);
    }
    true
}

} // verus!
