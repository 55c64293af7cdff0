//! The intermediate representation (IR) produced from an OpenAPI document:
//! an algebraic tree of sum types, product types, references and primitives,
//! each node annotated with nullability, optionality and documentation
//! metadata, plus the route list and the shared-prefix route trie.

use vstd::prelude::*;

verus! {

// ===========================================================================
// Executable IR
// ===========================================================================

/// Metadata wrapper attached to every IR node.
///
/// `nullable` (the value may be the null value at runtime) and `optional`
/// (the key may be absent from the carrying product) are orthogonal.
#[derive(Debug, PartialEq, Eq)]
pub struct AnnotatedObj<T> {
    pub nullable: bool,
    pub optional: bool,
    pub is_deprecated: bool,
    pub description: Option<String>,
    pub title: Option<String>,
    pub value: T,
}

/// A named link to another top-level scheme; never expanded inline.
#[derive(Debug, PartialEq, Eq)]
pub struct AnnotatedReference {
    pub path: String,
    pub optional: bool,
    pub nullable: bool,
}

/// Intermediate abstract syntax tree: one node of the algebraic IR.
#[derive(Debug, PartialEq, Eq)]
pub enum IAST {
    Object(AnnotatedObj<AlgType>),
    /// Reference to another scheme, e.g. `#/components/schemas/SomeSchema`.
    Reference(AnnotatedReference),
    Primitive(AnnotatedObj<Primitive>),
}

/// Algebraic type: a discriminated union or a record.
///
/// Product fields are kept sorted by field name so that emission is
/// deterministic regardless of the order the source document stored them in.
#[derive(Debug, PartialEq, Eq)]
pub enum AlgType {
    /// Ordered list of `(variant_name, node)`.
    Sum(Vec<(String, IAST)>),
    /// Field map `field_name -> node`, sorted by name.
    Product(Vec<(String, IAST)>),
}

/// Primitive (non-algebraic) IR kinds.
#[derive(Debug, PartialEq, Eq)]
pub enum Primitive {
    String,
    Number,
    Integer,
    Boolean,
    Never,
    List(Box<IAST>),
    Mapping(Box<IAST>),
    /// Each entry is `(literal_text, is_string_literal)`.
    Enum(Vec<(String, bool)>),
    Dynamic,
    Binary,
}

// ===========================================================================
// Ghost model of the IR
// ===========================================================================

/// Ghost counterpart of [`AnnotatedObj`]'s metadata fields.
#[verifier::ext_equal]
pub struct MetaV {
    pub nullable: bool,
    pub optional: bool,
    pub is_deprecated: bool,
    pub description: Option<Seq<char>>,
    pub title: Option<Seq<char>>,
}

/// Ghost counterpart of [`IAST`].
#[verifier::ext_equal]
pub enum IastV {
    Object(MetaV, AlgV),
    Reference { path: Seq<char>, optional: bool, nullable: bool },
    Primitive(MetaV, PrimV),
}

/// Ghost counterpart of [`AlgType`].
#[verifier::ext_equal]
pub enum AlgV {
    Sum(Seq<(Seq<char>, IastV)>),
    Product(Seq<(Seq<char>, IastV)>),
}

/// Ghost counterpart of [`Primitive`].
#[verifier::ext_equal]
pub enum PrimV {
    String,
    Number,
    Integer,
    Boolean,
    Never,
    List(Box<IastV>),
    Mapping(Box<IastV>),
    Enum(Seq<(Seq<char>, bool)>),
    Dynamic,
    Binary,
}

/// Clones an optional owned string.
pub fn clone_opt_string(o: &Option<String>) -> (r: Option<String>)
    ensures
        r == *o,
{
    match o {
        Option::Some(s) => Option::Some(s.clone()),
        Option::None => Option::None,
    }
}

pub open spec fn opt_str_view(o: Option<String>) -> Option<Seq<char>> {
    match o {
        Option::Some(s) => Option::Some(s@),
        Option::None => Option::None,
    }
}

pub open spec fn meta_view<T>(a: AnnotatedObj<T>) -> MetaV {
    MetaV {
        nullable: a.nullable,
        optional: a.optional,
        is_deprecated: a.is_deprecated,
        description: opt_str_view(a.description),
        title: opt_str_view(a.title),
    }
}

/// Ghost value of one IR node.
pub open spec fn iast_view(x: IAST) -> IastV
    decreases x,
{
    match x {
        IAST::Object(a) => IastV::Object(meta_view(a), alg_view(a.value)),
        IAST::Reference(r) => IastV::Reference {
            path: r.path@,
            optional: r.optional,
            nullable: r.nullable,
        },
        IAST::Primitive(a) => IastV::Primitive(meta_view(a), prim_view(a.value)),
    }
}

pub open spec fn alg_view(a: AlgType) -> AlgV
    decreases a,
{
    match a {
        AlgType::Sum(v) => AlgV::Sum(entries_view(v@)),
        AlgType::Product(v) => AlgV::Product(entries_view(v@)),
    }
}

pub open spec fn entries_view(v: Seq<(String, IAST)>) -> Seq<(Seq<char>, IastV)>
    decreases v,
{
    if v.len() == 0 {
        Seq::empty()
    } else {
        entries_view(v.drop_last()).push((v.last().0@, iast_view(v.last().1)))
    }
}

pub open spec fn prim_view(p: Primitive) -> PrimV
    decreases p,
{
    match p {
        Primitive::String => PrimV::String,
        Primitive::Number => PrimV::Number,
        Primitive::Integer => PrimV::Integer,
        Primitive::Boolean => PrimV::Boolean,
        Primitive::Never => PrimV::Never,
        Primitive::List(b) => PrimV::List(Box::new(iast_view(*b))),
        Primitive::Mapping(b) => PrimV::Mapping(Box::new(iast_view(*b))),
        Primitive::Enum(v) => PrimV::Enum(v@.map_values(|e: (String, bool)| (e.0@, e.1))),
        Primitive::Dynamic => PrimV::Dynamic,
        Primitive::Binary => PrimV::Binary,
    }
}

/// Whether an IR node is marked nullable.
pub open spec fn iast_nullable(v: IastV) -> bool {
    match v {
        IastV::Object(m, _) => m.nullable,
        IastV::Reference { nullable, .. } => nullable,
        IastV::Primitive(m, _) => m.nullable,
    }
}

// ===========================================================================
// Routes and the route trie
// ===========================================================================

/// An HTTP method.
#[derive(Debug, Clone, Copy, PartialEq, Eq, Structural)]
pub enum Method {
    Get,
    Post,
    Put,
    Delete,
    Patch,
    Head,
    Options,
    Trace,
}

/// The lowercase name of a method.
pub open spec fn method_name(m: Method) -> Seq<char> {
    match m {
        Method::Get => "get"@,
        Method::Post => "post"@,
        Method::Put => "put"@,
        Method::Delete => "delete"@,
        Method::Patch => "patch"@,
        Method::Head => "head"@,
        Method::Options => "options"@,
        Method::Trace => "trace"@,
    }
}

impl Method {
    /// The lowercase name of this method.
    pub fn string(&self) -> (r: &'static str)
        ensures
            r@ == method_name(*self),
    {
        match self {
            Method::Get => "get",
            Method::Post => "post",
            Method::Put => "put",
            Method::Delete => "delete",
            Method::Patch => "patch",
            Method::Head => "head",
            Method::Options => "options",
            Method::Trace => "trace",
        }
    }
}

/// One query or header parameter of an endpoint (path parameters are
/// represented structurally by the route trie instead).
#[derive(Debug, PartialEq, Eq)]
pub struct Param {
    pub name: String,
    pub description: Option<String>,
    pub required: bool,
}

/// One operation of a route: its method, documentation, parameters,
/// optional request body IR and per-status-code response IR.
#[derive(Debug, PartialEq, Eq)]
pub struct Endpoint {
    pub method: Method,
    pub description: Option<String>,
    pub summary: Option<String>,
    pub params: Vec<Param>,
    pub request: Option<IAST>,
    /// `(status_code, node)` entries, ordered by status code.
    pub responses: Vec<(String, IAST)>,
}

/// One route: a path string and the endpoints declared under it.
#[derive(Debug, PartialEq, Eq)]
pub struct Route {
    pub path: String,
    pub description: Option<String>,
    pub endpoints: Vec<Endpoint>,
}

/// A top-level named entry of the schema registry.
#[derive(Debug, PartialEq, Eq)]
pub struct Scheme {
    pub name: String,
    /// True when the schema's own root normalizes to a nullable node; the
    /// emitter then generates a non-null base declaration plus a nullable
    /// alias instead of merging nullability into the base declaration.
    pub is_inherently_nullable: bool,
    pub obj: IAST,
}

/// One node of the route trie: an inner path segment or a leaf pointing at
/// a route.
#[derive(Debug, PartialEq, Eq)]
pub enum RouteFragment {
    Node(RouteFragmentNodeData),
    Leaf(RouteFragmentLeafData),
}

/// An inner trie node: one path segment (literal or parameter) and its
/// children.
#[derive(Debug, PartialEq, Eq)]
pub struct RouteFragmentNodeData {
    pub path_fragment_name: String,
    pub is_param: bool,
    pub children: Vec<RouteFragment>,
}

/// A trie leaf: an index into the route list.
#[derive(Debug, PartialEq, Eq)]
pub struct RouteFragmentLeafData {
    pub route_idx: usize,
}

/// Ghost counterpart of [`RouteFragmentNodeData`].
#[verifier::ext_equal]
pub struct NodeV {
    pub name: Seq<char>,
    pub is_param: bool,
    pub children: Seq<TrieV>,
}

/// Ghost counterpart of [`RouteFragment`].
#[verifier::ext_equal]
pub enum TrieV {
    Node(NodeV),
    Leaf(int),
}

/// Ghost value of one trie fragment.
pub open spec fn frag_view(f: RouteFragment) -> TrieV
    decreases f,
{
    match f {
        RouteFragment::Node(d) => TrieV::Node(node_view(d)),
        RouteFragment::Leaf(l) => TrieV::Leaf(l.route_idx as int),
    }
}

/// Ghost value of one inner trie node.
pub open spec fn node_view(d: RouteFragmentNodeData) -> NodeV
    decreases d,
{
    NodeV {
        name: d.path_fragment_name@,
        is_param: d.is_param,
        children: frags_view(d.children@),
    }
}

/// Ghost values of a fragment list.
pub open spec fn frags_view(v: Seq<RouteFragment>) -> Seq<TrieV>
    decreases v,
{
    if v.len() == 0 {
        Seq::empty()
    } else {
        frags_view(v.drop_last()).push(frag_view(v.last()))
    }
}

/// The complete intermediate format: all named schemes, the route list and
/// the route trie.
#[derive(Debug, PartialEq, Eq)]
pub struct IntermediateFormat {
    pub schemes: Vec<Scheme>,
    pub routes_tree: RouteFragment,
    pub routes: Vec<Route>,
}

impl IntermediateFormat {
    /// Bundles the three build-once artifacts.
    pub fn new(schemes: Vec<Scheme>, routes: Vec<Route>, routes_tree: RouteFragment) -> (r:
        IntermediateFormat)
        ensures
            r.schemes == schemes,
            r.routes == routes,
            r.routes_tree == routes_tree,
    {
        IntermediateFormat { schemes, routes_tree, routes }
    }
}

impl IAST {
    /// Reads the `nullable` mark of this node.
    pub fn is_nullable(&self) -> (r: bool)
        ensures
            r == iast_nullable(iast_view(*self)),
    {
        match self {
            IAST::Object(a) => a.nullable,
            IAST::Reference(r) => r.nullable,
            IAST::Primitive(a) => a.nullable,
        }
    }
}

} // verus!
