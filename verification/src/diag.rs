//! Diagnostics of the derives: what went wrong and where.
use vstd::prelude::*;

verus! {

/// What went wrong while reading the attributes or the item a derive is applied to.
#[derive(Clone, Copy, Debug, PartialEq, Eq, Structural)]
pub enum Problem {
    /// A syntax error of the attribute parser, kept by the caller at the error's place.
    Syntax,
    ExpectedString,
    ExpectedEq,
    ExpectedComma,
    ExpectedParens,
    DuplicateShapeName,
    DuplicateShapeDesc,
    DuplicateShapeCalc,
    DuplicateShapeGrain,
    DescOnContainersOnly,
    CalcOnFieldsOnly,
    GrainOnFieldsOnly,
    SourceOnFieldsOnly,
    UnsupportedShapeAttribute,
    MetricRequiresCalc,
    DuplicateSerdeRenameAll,
    DuplicateSerdeRename,
    DuplicateOpAttribute,
    DuplicateOpName,
    DuplicateOpInput,
    DuplicateOpOutput,
    DuplicateOpHttp,
    DuplicateOpDesc,
    MissingOpAttribute,
    MissingShapeName,
    GenericOp,
    OpNotUnitStruct,
    MissingOpName,
    MissingOpInput,
    MissingOpOutput,
    ShapeOnVariant,
    ShapeOnUnnamedField,
    ShapeOnUnion,
    ExpectedNamedField,
    ShapeOnSkippedField,
    DirectionalRename,
    DirectionalRenameAll,
    UnsupportedRenameAll,
    UnsupportedMethod,
}

/// A problem and the place it is reported at: the index of a token group the caller keeps,
/// or `None` for the place the derive was invoked from.
#[derive(Clone, Copy, Debug, PartialEq, Eq, Structural)]
pub struct MacroError {
    pub problem: Problem,
    pub at: Option<usize>,
}

/// The text reported for each problem.
pub open spec fn problem_text(p: Problem) -> Seq<char> {
    match p {
        Problem::Syntax => "syntax error"@,
        Problem::ExpectedString => "expected string literal"@,
        Problem::ExpectedEq => "expected `=`"@,
        Problem::ExpectedComma => "expected `,`"@,
        Problem::ExpectedParens => "expected parentheses"@,
        Problem::DuplicateShapeName => "duplicate shape name"@,
        Problem::DuplicateShapeDesc => "duplicate shape desc"@,
        Problem::DuplicateShapeCalc => "duplicate shape calc"@,
        Problem::DuplicateShapeGrain => "duplicate shape grain"@,
        Problem::DescOnContainersOnly => "shape desc is only supported on containers"@,
        Problem::CalcOnFieldsOnly => "shape calc is only supported on fields"@,
        Problem::GrainOnFieldsOnly => "shape grain is only supported on fields"@,
        Problem::SourceOnFieldsOnly => "shape source is only supported on fields"@,
        Problem::UnsupportedShapeAttribute => "unsupported shape attribute"@,
        Problem::MetricRequiresCalc => "metric shape requires calc when any metric attribute is present"@,
        Problem::DuplicateSerdeRenameAll => "duplicate serde rename_all"@,
        Problem::DuplicateSerdeRename => "duplicate serde rename"@,
        Problem::DuplicateOpAttribute => "duplicate op attribute"@,
        Problem::DuplicateOpName => "duplicate op name"@,
        Problem::DuplicateOpInput => "duplicate op input"@,
        Problem::DuplicateOpOutput => "duplicate op output"@,
        Problem::DuplicateOpHttp => "duplicate op http"@,
        Problem::DuplicateOpDesc => "duplicate op desc"@,
        Problem::MissingOpAttribute => "missing #[op(...)] attribute"@,
        Problem::MissingShapeName => "missing #[shape(name = \"...\")]"@,
        Problem::GenericOp => "Op marker structs cannot be generic"@,
        Problem::OpNotUnitStruct => "Op can only be derived for unit marker structs"@,
        Problem::MissingOpName => "missing op name"@,
        Problem::MissingOpInput => "missing op input"@,
        Problem::MissingOpOutput => "missing op output"@,
        Problem::ShapeOnVariant => "shape attributes on enum variants are not supported"@,
        Problem::ShapeOnUnnamedField => "shape field attributes are only supported on named struct fields"@,
        Problem::ShapeOnUnion => "Shape cannot be derived for unions"@,
        Problem::ExpectedNamedField => "expected named field"@,
        Problem::ShapeOnSkippedField => "shape attributes cannot be used on skipped or flattened serde fields"@,
        Problem::DirectionalRename => "directional serde rename requires #[shape(name = \"...\")]"@,
        Problem::DirectionalRenameAll => "directional serde rename_all requires field-level #[shape(name = \"...\")]"@,
        Problem::UnsupportedRenameAll => "unsupported serde rename_all; expected lowercase, UPPERCASE, PascalCase, camelCase, snake_case, SCREAMING_SNAKE_CASE, kebab-case, or SCREAMING-KEBAB-CASE"@,
        Problem::UnsupportedMethod => "unsupported HTTP method; expected GET, POST, PUT, PATCH, or DELETE"@,
    }
}

impl Problem {
    /// The text reported for the problem.
    pub fn text(&self) -> (r: &'static str)
        ensures
            r@ == problem_text(*self),
    {
        match self {
            Problem::Syntax => "syntax error",
            Problem::ExpectedString => "expected string literal",
            Problem::ExpectedEq => "expected `=`",
            Problem::ExpectedComma => "expected `,`",
            Problem::ExpectedParens => "expected parentheses",
            Problem::DuplicateShapeName => "duplicate shape name",
            Problem::DuplicateShapeDesc => "duplicate shape desc",
            Problem::DuplicateShapeCalc => "duplicate shape calc",
            Problem::DuplicateShapeGrain => "duplicate shape grain",
            Problem::DescOnContainersOnly => "shape desc is only supported on containers",
            Problem::CalcOnFieldsOnly => "shape calc is only supported on fields",
            Problem::GrainOnFieldsOnly => "shape grain is only supported on fields",
            Problem::SourceOnFieldsOnly => "shape source is only supported on fields",
            Problem::UnsupportedShapeAttribute => "unsupported shape attribute",
            Problem::MetricRequiresCalc => "metric shape requires calc when any metric attribute is present",
            Problem::DuplicateSerdeRenameAll => "duplicate serde rename_all",
            Problem::DuplicateSerdeRename => "duplicate serde rename",
            Problem::DuplicateOpAttribute => "duplicate op attribute",
            Problem::DuplicateOpName => "duplicate op name",
            Problem::DuplicateOpInput => "duplicate op input",
            Problem::DuplicateOpOutput => "duplicate op output",
            Problem::DuplicateOpHttp => "duplicate op http",
            Problem::DuplicateOpDesc => "duplicate op desc",
            Problem::MissingOpAttribute => "missing #[op(...)] attribute",
            Problem::MissingShapeName => "missing #[shape(name = \"...\")]",
            Problem::GenericOp => "Op marker structs cannot be generic",
            Problem::OpNotUnitStruct => "Op can only be derived for unit marker structs",
            Problem::MissingOpName => "missing op name",
            Problem::MissingOpInput => "missing op input",
            Problem::MissingOpOutput => "missing op output",
            Problem::ShapeOnVariant => "shape attributes on enum variants are not supported",
            Problem::ShapeOnUnnamedField => "shape field attributes are only supported on named struct fields",
            Problem::ShapeOnUnion => "Shape cannot be derived for unions",
            Problem::ExpectedNamedField => "expected named field",
            Problem::ShapeOnSkippedField => "shape attributes cannot be used on skipped or flattened serde fields",
            Problem::DirectionalRename => "directional serde rename requires #[shape(name = \"...\")]",
            Problem::DirectionalRenameAll => "directional serde rename_all requires field-level #[shape(name = \"...\")]",
            Problem::UnsupportedRenameAll => "unsupported serde rename_all; expected lowercase, UPPERCASE, PascalCase, camelCase, snake_case, SCREAMING_SNAKE_CASE, kebab-case, or SCREAMING-KEBAB-CASE",
            Problem::UnsupportedMethod => "unsupported HTTP method; expected GET, POST, PUT, PATCH, or DELETE",
        }
    }
}

} // verus!
