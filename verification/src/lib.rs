//! A typed schema index: named JSON-schema'd types with their fields, operations between
//! them, the check an index must pass, tool definitions projected from its types, and the
//! decisions of the `Shape` and `Op` derives that describe Rust items as index entries.
pub mod attr;
pub mod attr_laws;
pub mod case;
pub mod case_laws;
pub mod check;
pub mod derive;
pub mod derive_laws;
pub mod diag;
pub mod json;
pub mod laws;
pub mod model;
pub mod order;
pub mod text;
pub mod tool;

pub use check::{check, Error};
pub use model::{Field, Http, Index, Method, Metric, Op, OpSpec, Shape, Type, VERSION};
