//! A plain-value model of the parts of an OpenAPI 3 document that the
//! normalizer and route-trie builder read.  The network/CLI collaborator
//! parses the document with its own machinery and converts it into these
//! owned types; everything downstream of that conversion is verified.

use vstd::prelude::*;

verus! {

// ===========================================================================
// Schema objects
// ===========================================================================

/// A JSON-schema type name.
#[derive(Debug, Clone, Copy, PartialEq, Eq, Structural)]
pub enum SchemaType {
    Boolean,
    Integer,
    Number,
    String,
    Null,
    Object,
    Array,
}

/// The `type` keyword: a single type or a set of alternatives.
#[derive(Debug, PartialEq, Eq)]
pub enum SchemaTypeSet {
    Single(SchemaType),
    Multiple(Vec<SchemaType>),
}

/// One `const`/`enum` literal: its text plus whether it was a JSON string
/// (which decides how equality and serialization are generated downstream).
#[derive(Debug, PartialEq, Eq)]
pub struct SchemaLiteral {
    pub value: String,
    pub is_string: bool,
}

/// A schema position: either an inline schema object or a `$ref` path.
#[derive(Debug, PartialEq, Eq)]
pub enum SchemaOrRef {
    Object(Box<SchemaObject>),
    Ref(String),
}

/// An inline schema object: the fields of an OpenAPI schema that the
/// normalizer's precedence rules inspect, as plain owned values.
#[derive(Debug, PartialEq, Eq)]
pub struct SchemaObject {
    /// The declared `type`, if any.
    pub schema_type: Option<SchemaTypeSet>,
    /// Whether the schema is marked with the binary string format.
    pub is_binary_format: bool,
    /// A `const` value, if any.
    pub const_value: Option<SchemaLiteral>,
    /// The `enum` values, possibly empty.
    pub enum_values: Vec<SchemaLiteral>,
    /// Whether the schema carries the "extensible enum" marker extension.
    pub extensible_enum: bool,
    /// Whether the schema is marked deprecated.
    pub deprecated: bool,
    pub description: Option<String>,
    pub title: Option<String>,
    /// The `items` schema of an array.
    pub items: Option<Box<SchemaOrRef>>,
    /// The declared properties, in document order.
    pub properties: Vec<(String, SchemaOrRef)>,
    /// The names of required properties.
    pub required: Vec<String>,
    pub any_of: Vec<SchemaOrRef>,
    pub one_of: Vec<SchemaOrRef>,
    pub all_of: Vec<SchemaOrRef>,
    /// Discriminator mapping entries `(tag_value, ref_path)`, if declared.
    pub discriminator_mapping: Vec<(String, String)>,
}

impl SchemaObject {
    /// A schema with every keyword absent; the unrecognized-shape fallback
    /// applies to it.
    pub fn empty() -> (r: SchemaObject)
        ensures
            r.schema_type is None,
            !r.is_binary_format,
            r.const_value is None,
            r.enum_values@.len() == 0,
            !r.extensible_enum,
            !r.deprecated,
            r.description is None,
            r.title is None,
            r.items is None,
            r.properties@.len() == 0,
            r.required@.len() == 0,
            r.any_of@.len() == 0,
            r.one_of@.len() == 0,
            r.all_of@.len() == 0,
            r.discriminator_mapping@.len() == 0,
    {
        SchemaObject {
            schema_type: None,
            is_binary_format: false,
            const_value: None,
            enum_values: Vec::new(),
            extensible_enum: false,
            deprecated: false,
            description: None,
            title: None,
            items: None,
            properties: Vec::new(),
            required: Vec::new(),
            any_of: Vec::new(),
            one_of: Vec::new(),
            all_of: Vec::new(),
            discriminator_mapping: Vec::new(),
        }
    }
}

// ===========================================================================
// Document structure around the schemas
// ===========================================================================

/// Where a parameter lives.
#[derive(Debug, Clone, Copy, PartialEq, Eq, Structural)]
pub enum ParamLocation {
    Query,
    Header,
    Path,
    Cookie,
}

/// One declared operation parameter, or a reference to one.
#[derive(Debug, PartialEq, Eq)]
pub enum ParamOrRef {
    Param { name: String, location: ParamLocation, description: Option<String>, required: bool },
    Ref(String),
}

/// A request or response body: the schemas of its content entries, one per
/// media type, in document order.  `None` in a slot means that content entry
/// declared no schema.
#[derive(Debug, PartialEq, Eq)]
pub enum BodyOrRef {
    Body { content_schemas: Vec<Option<SchemaOrRef>> },
    Ref(String),
}

/// One HTTP operation of a path item.
#[derive(Debug, PartialEq, Eq)]
pub struct Operation {
    pub description: Option<String>,
    pub summary: Option<String>,
    pub parameters: Vec<ParamOrRef>,
    pub request_body: Option<BodyOrRef>,
    /// `(status_code, response)` entries in document order.
    pub responses: Vec<(String, BodyOrRef)>,
}

/// One path item: the route description and its per-method operations.
#[derive(Debug, PartialEq, Eq)]
pub struct PathItem {
    pub description: Option<String>,
    pub get: Option<Operation>,
    pub post: Option<Operation>,
    pub put: Option<Operation>,
    pub delete: Option<Operation>,
    pub patch: Option<Operation>,
    pub options: Option<Operation>,
    pub head: Option<Operation>,
    pub trace: Option<Operation>,
}

/// The schema registry of a document.
#[derive(Debug, PartialEq, Eq)]
pub struct SchemaComponents {
    /// `(name, schema)` entries in document order.
    pub schemas: Vec<(String, SchemaOrRef)>,
}

/// The parts of a parsed OpenAPI document that this library consumes.
#[derive(Debug, PartialEq, Eq)]
pub struct Document {
    pub components: Option<SchemaComponents>,
    /// `(path, item)` entries in document order.
    pub paths: Vec<(String, PathItem)>,
}

} // verus!
