//! The schema index: named types with their fields, and operations between them.
use vstd::prelude::*;

verus! {

/// The version every index and manifest carries.
pub const VERSION: &'static str = "1";

/// A named JSON-schema'd type with the fields the schema exposes.
#[derive(Clone, Debug, PartialEq)]
pub struct Type {
    pub name: String,
    pub rust: String,
    pub desc: Option<String>,
    pub schema: serde_json::Value,
    pub fields: Vec<Field>,
}

/// One field of a type: its wire name, Rust identifier, Rust type and optional metric.
#[derive(Clone, Debug, PartialEq, Eq)]
pub struct Field {
    pub name: String,
    pub ident: String,
    pub ty: String,
    pub metric: Option<Metric>,
}

/// How a numeric field is computed: a formula, an optional grain and its sources.
#[derive(Clone, Debug, PartialEq, Eq)]
pub struct Metric {
    pub calc: String,
    pub grain: Option<String>,
    pub sources: Vec<String>,
}

/// An operation from one named type to another, optionally exposed over HTTP.
#[derive(Clone, Debug, PartialEq, Eq)]
pub struct Op {
    pub name: String,
    pub desc: Option<String>,
    pub input: String,
    pub output: String,
    pub http: Option<Http>,
}

/// An HTTP route: method and path.
#[derive(Clone, Debug, PartialEq, Eq)]
pub struct Http {
    pub method: Method,
    pub path: String,
}

/// The HTTP methods an operation can use.
#[derive(Clone, Copy, Debug, PartialEq, Eq, PartialOrd, Ord)]
pub enum Method {
    Get,
    Post,
    Put,
    Patch,
    Delete,
}

/// The index: a version, the types and the operations.
#[derive(Clone, Debug, PartialEq)]
pub struct Index {
    pub version: String,
    pub types: Vec<Type>,
    pub ops: Vec<Op>,
}

/// Something that can describe itself as a named type of the index.
pub trait Shape {
    fn shape() -> Type;

    fn name() -> &'static str;
}

/// Something that can describe itself as an operation of the index.
pub trait OpSpec {
    fn op() -> Op;
}

impl Index {
    /// An empty index at the current version.
    pub fn new() -> (r: Self)
        ensures
            r.version@ == VERSION@,
            r.types@.len() == 0,
            r.ops@.len() == 0,
    {
        Index { version: VERSION.to_owned(), types: Vec::new(), ops: Vec::new() }
    }
}

impl Default for Index {
    /// An empty index at the current version.
    fn default() -> (r: Self)
        ensures
            r.version@ == VERSION@,
            r.types@.len() == 0,
            r.ops@.len() == 0,
    {
        Self::new()
    }
}

} // verus!
