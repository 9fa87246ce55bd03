//! What the `Shape` and `Op` derives produce for an item, decided from its attributes.
//!
//! The caller reads the item (its fields, variants and attributes) into the plain values
//! below; the plans returned here say which index type or operation the item describes, or
//! which error the derive reports.
use vstd::prelude::*;
use crate::attr::{
    err_at, serde_container_of, serde_field_of, shape_settings_of, Attr, AttrKind, ExprArg, Lit,
    OpAttrInput, OpAttrs, SerdeContainer, SerdeField, ShapeAttrs, ShapeSettings, Target,
    op_attrs_of,
};
use crate::case::{rename_all, rename_all_spec};
use crate::diag::{MacroError, Problem};
use crate::model::Method;
use crate::text::{str_eq, to_ascii_uppercase, upper_seq};

verus! {

/// A field of the item: its identifier (none for a tuple field), its Rust type as written,
/// its attributes, and the index of its tokens.
#[derive(Debug)]
pub struct FieldInput {
    pub ident: Option<String>,
    pub ty: String,
    pub attrs: Vec<Attr>,
    pub at: usize,
}

/// A variant of an enum: its attributes and fields.
#[derive(Debug)]
pub struct VariantInput {
    pub attrs: Vec<Attr>,
    pub fields: Vec<FieldInput>,
}

/// The body of the item.
#[derive(Debug)]
pub enum DataInput {
    Named(Vec<FieldInput>),
    Unnamed(Vec<FieldInput>),
    Unit,
    Enum(Vec<VariantInput>),
    /// A union, with the index of its `union` token.
    Union(usize),
}

/// An item `Shape` is derived for: the index of its name's tokens, its attributes, its body.
#[derive(Debug)]
pub struct ShapeInput {
    pub ident_at: usize,
    pub attrs: Vec<Attr>,
    pub data: DataInput,
}

/// An item `Op` is derived for: the index of its name's tokens, the index of its generic
/// parameters where it has any, whether it is a unit struct, and its attributes.
#[derive(Debug)]
pub struct OpInput {
    pub ident_at: usize,
    pub generics_at: Option<usize>,
    pub unit_struct: bool,
    pub attrs: Vec<OpAttrInput>,
}

/// The metric of a field: the calc string, and the grain and source expressions.
#[derive(Debug)]
pub struct MetricAttrs {
    pub calc: Lit,
    pub grain: Option<ExprArg>,
    pub sources: Vec<ExprArg>,
}

/// A metric with its sources as a sequence.
pub struct MetricSpec {
    pub calc: Lit,
    pub grain: Option<ExprArg>,
    pub sources: Seq<ExprArg>,
}

impl View for MetricAttrs {
    type V = MetricSpec;

    open spec fn view(&self) -> MetricSpec {
        MetricSpec { calc: self.calc, grain: self.grain, sources: self.sources@ }
    }
}

/// A field of the type a `Shape` derive describes: its wire name, its identifier, its Rust
/// type as written, the index of its tokens, and its metric.
#[derive(Debug)]
pub struct FieldPlan {
    pub name: String,
    pub ident: String,
    pub ty: String,
    pub at: usize,
    pub metric: Option<MetricAttrs>,
}

/// A field plan with its metric as a `MetricSpec`.
pub struct FieldSpec {
    pub name: Seq<char>,
    pub ident: Seq<char>,
    pub ty: Seq<char>,
    pub at: usize,
    pub metric: Option<MetricSpec>,
}

impl View for FieldPlan {
    type V = FieldSpec;

    open spec fn view(&self) -> FieldSpec {
        FieldSpec {
            name: self.name@,
            ident: self.ident@,
            ty: self.ty@,
            at: self.at,
            metric: match self.metric {
                Some(m) => Some(m@),
                None => None,
            },
        }
    }
}

/// What a `Shape` derive describes: the type's name and description and its fields.
#[derive(Debug)]
pub struct ShapePlan {
    pub name: Lit,
    pub desc: Option<Lit>,
    pub fields: Vec<FieldPlan>,
}

/// A shape plan with its fields as a sequence.
pub struct ShapeSpec {
    pub name: Lit,
    pub desc: Option<Lit>,
    pub fields: Seq<FieldSpec>,
}

impl View for ShapePlan {
    type V = ShapeSpec;

    open spec fn view(&self) -> ShapeSpec {
        ShapeSpec {
            name: self.name,
            desc: self.desc,
            fields: self.fields@.map_values(|f: FieldPlan| f@),
        }
    }
}

/// What an `Op` derive describes: name, input and output types (by the index of their
/// tokens), description, and route.
#[derive(Debug, PartialEq, Eq)]
pub struct OpPlan {
    pub name: Lit,
    pub input: usize,
    pub output: usize,
    pub desc: Option<Lit>,
    pub http: Option<(Method, Lit)>,
}

/// Whether any `#[shape(...)]` setting is present.
pub open spec fn any_spec(s: ShapeSettings) -> bool {
    s.name is Some || s.desc is Some || s.calc is Some || s.grain is Some || s.sources.len() > 0
}

/// The metric of a field with settings `s`: none without calc, grain and sources; else calc
/// is required (the error is reported at the field, `at`).
pub open spec fn metric_spec(s: ShapeSettings, at: usize) -> Result<Option<MetricSpec>, MacroError> {
    if s.calc is None && s.grain is None && s.sources.len() == 0 {
        Ok(None)
    } else {
        match s.calc {
            None => Err(err_at(Problem::MetricRequiresCalc, at)),
            Some(c) => Ok(Some(MetricSpec { calc: c, grain: s.grain, sources: s.sources })),
        }
    }
}

/// The wire name of a field: `#[shape(name)]`, else `#[serde(rename)]`; a directional rename
/// of the field or the container needs `#[shape(name)]`; else the container's `rename_all`
/// applied to the identifier, which must be a style serde knows; else the identifier.
pub open spec fn field_name_spec(
    ident: Seq<char>,
    shape: ShapeSettings,
    serde: SerdeField,
    container: SerdeContainer,
) -> Result<Seq<char>, MacroError> {
    if let Some(n) = shape.name {
        Ok(n.value@)
    } else if let Some(r) = serde.rename {
        Ok(r.value@)
    } else if let Some(r) = serde.directional_rename {
        Err(err_at(Problem::DirectionalRename, r.at))
    } else if let Some(r) = container.directional_rename_all {
        Err(err_at(Problem::DirectionalRenameAll, r.at))
    } else if let Some(r) = container.rename_all {
        match rename_all_spec(r.value@, ident) {
            Some(v) => Ok(v),
            None => Err(err_at(Problem::UnsupportedRenameAll, r.at)),
        }
    } else {
        Ok(ident)
    }
}

/// What a named field contributes: nothing when serde skips or flattens it (which refuses
/// `#[shape(...)]` on it); else its name, identifier and metric.
pub open spec fn named_field_spec(f: FieldInput, container: SerdeContainer) -> Result<
    Option<FieldSpec>,
    MacroError,
> {
    match f.ident {
        None => Err(err_at(Problem::ExpectedNamedField, f.at)),
        Some(ident) => match shape_settings_of(f.attrs@, Target::Field) {
            Err(e) => Err(e),
            Ok(shape) => match serde_field_of(f.attrs@) {
                Err(e) => Err(e),
                Ok(serde) => if serde.skip || serde.skip_serializing || serde.flatten {
                    if any_spec(shape) {
                        Err(err_at(Problem::ShapeOnSkippedField, f.at))
                    } else {
                        Ok(None)
                    }
                } else {
                    match field_name_spec(ident@, shape, serde, container) {
                        Err(e) => Err(e),
                        Ok(name) => match metric_spec(shape, f.at) {
                            Err(e) => Err(e),
                            Ok(metric) => Ok(
                                Some(FieldSpec { name, ident: ident@, ty: f.ty@, at: f.at, metric }),
                            ),
                        },
                    }
                },
            },
        },
    }
}

/// The first `n` named fields, in order: the fields they contribute, or the first error.
pub open spec fn named_fields_fold(fs: Seq<FieldInput>, container: SerdeContainer, n: int) -> Result<
    Seq<FieldSpec>,
    MacroError,
>
    decreases n,
{
    if n <= 0 {
        Ok(Seq::empty())
    } else {
        match named_fields_fold(fs, container, n - 1) {
            Err(e) => Err(e),
            Ok(acc) => match named_field_spec(fs[n - 1], container) {
                Err(e) => Err(e),
                Ok(None) => Ok(acc),
                Ok(Some(p)) => Ok(acc.push(p)),
            },
        }
    }
}

/// The first `#[shape(...)]` among the first `n` attributes, refused with `problem`.
pub open spec fn first_shape_attr(attrs: Seq<Attr>, n: int, problem: Problem) -> Option<MacroError>
    decreases n,
{
    if n <= 0 {
        None
    } else {
        match first_shape_attr(attrs, n - 1, problem) {
            Some(e) => Some(e),
            None => if attrs[n - 1].kind == AttrKind::Shape {
                Some(err_at(problem, attrs[n - 1].at))
            } else {
                None
            },
        }
    }
}

/// The first `#[shape(...)]` on the first `n` tuple or variant fields.
pub open spec fn first_shape_on_fields(fs: Seq<FieldInput>, n: int) -> Option<MacroError>
    decreases n,
{
    if n <= 0 {
        None
    } else {
        match first_shape_on_fields(fs, n - 1) {
            Some(e) => Some(e),
            None => first_shape_attr(
                fs[n - 1].attrs@,
                fs[n - 1].attrs@.len() as int,
                Problem::ShapeOnUnnamedField,
            ),
        }
    }
}

/// The first `#[shape(...)]` on the first `n` variants or their fields.
pub open spec fn first_shape_on_variants(vs: Seq<VariantInput>, n: int) -> Option<MacroError>
    decreases n,
{
    if n <= 0 {
        None
    } else {
        match first_shape_on_variants(vs, n - 1) {
            Some(e) => Some(e),
            None => match first_shape_attr(
                vs[n - 1].attrs@,
                vs[n - 1].attrs@.len() as int,
                Problem::ShapeOnVariant,
            ) {
                Some(e) => Some(e),
                None => first_shape_on_fields(vs[n - 1].fields@, vs[n - 1].fields@.len() as int),
            },
        }
    }
}

/// The fields a `Shape` derive describes: those of a struct with named fields; none for a
/// tuple struct, a unit struct or an enum, where `#[shape(...)]` on a variant or field is
/// refused; a union is refused.
pub open spec fn fields_spec(data: DataInput, container: SerdeContainer) -> Result<
    Seq<FieldSpec>,
    MacroError,
> {
    match data {
        DataInput::Named(fs) => named_fields_fold(fs@, container, fs@.len() as int),
        DataInput::Unnamed(fs) => match first_shape_on_fields(fs@, fs@.len() as int) {
            Some(e) => Err(e),
            None => Ok(Seq::empty()),
        },
        DataInput::Unit => Ok(Seq::empty()),
        DataInput::Enum(vs) => match first_shape_on_variants(vs@, vs@.len() as int) {
            Some(e) => Err(e),
            None => Ok(Seq::empty()),
        },
        DataInput::Union(at) => Err(err_at(Problem::ShapeOnUnion, at)),
    }
}

/// What a `Shape` derive describes: the container's `#[shape(...)]` must name the type; then
/// the fields.
pub open spec fn shape_plan_spec(input: ShapeInput) -> Result<ShapeSpec, MacroError> {
    match shape_settings_of(input.attrs@, Target::Container) {
        Err(e) => Err(e),
        Ok(s) => match s.name {
            None => Err(err_at(Problem::MissingShapeName, input.ident_at)),
            Some(name) => match serde_container_of(input.attrs@) {
                Err(e) => Err(e),
                Ok(c) => match fields_spec(input.data, c) {
                    Err(e) => Err(e),
                    Ok(fields) => Ok(ShapeSpec { name, desc: s.desc, fields }),
                },
            },
        },
    }
}

/// The HTTP method written `m` (in any case), or an error at `at`.
pub open spec fn method_spec(m: Seq<char>, at: usize) -> Result<Method, MacroError> {
    let u = upper_seq(m);
    if u == "GET"@ {
        Ok(Method::Get)
    } else if u == "POST"@ {
        Ok(Method::Post)
    } else if u == "PUT"@ {
        Ok(Method::Put)
    } else if u == "PATCH"@ {
        Ok(Method::Patch)
    } else if u == "DELETE"@ {
        Ok(Method::Delete)
    } else {
        Err(err_at(Problem::UnsupportedMethod, at))
    }
}

/// What an `Op` derive describes: a non-generic unit struct with one `#[op(...)]` giving name,
/// input and output, and possibly a description and a route with a known method.
pub open spec fn op_plan_spec(input: OpInput) -> Result<OpPlan, MacroError> {
    if let Some(g) = input.generics_at {
        Err(err_at(Problem::GenericOp, g))
    } else if !input.unit_struct {
        Err(err_at(Problem::OpNotUnitStruct, input.ident_at))
    } else {
        match op_attrs_of(input.attrs@) {
            Err(e) => Err(e),
            Ok(a) => match a.name {
                None => Err(err_at(Problem::MissingOpName, input.ident_at)),
                Some(name) => match a.input {
                    None => Err(err_at(Problem::MissingOpInput, input.ident_at)),
                    Some(i) => match a.output {
                        None => Err(err_at(Problem::MissingOpOutput, input.ident_at)),
                        Some(o) => match a.http {
                            None => Ok(OpPlan { name, input: i, output: o, desc: a.desc, http: None }),
                            Some(h) => match method_spec(h.method@, h.method_at) {
                                Err(e) => Err(e),
                                Ok(m) => Ok(
                                    OpPlan {
                                        name,
                                        input: i,
                                        output: o,
                                        desc: a.desc,
                                        http: Some((m, h.path)),
                                    },
                                ),
                            },
                        },
                    },
                },
            },
        }
    }
}

/// A copy of a list of expressions.
fn copy_exprs(v: &Vec<ExprArg>) -> (r: Vec<ExprArg>)
    ensures
        r@ == v@,
{
    let mut r: Vec<ExprArg> = Vec::new();
    let mut i: usize = 0;
    while i < v.len()
        invariant
            i <= v@.len(),
            r@ == v@.take(i as int),
        decreases v.len() - i,
    {
        r.push(v[i].copy());
        assert(v@.take(i + 1) =~= v@.take(i as int).push(v@[i as int]));
        i = i + 1;
    }
    assert(v@.take(v@.len() as int) =~= v@);
    r
}

/// A copy of an optional literal.
fn copy_lit(v: &Option<Lit>) -> (r: Option<Lit>)
    ensures
        r == *v,
{
    match v {
        Some(l) => Some(l.copy()),
        None => None,
    }
}

impl ShapeAttrs {
    /// Whether any setting is present.
    pub fn any(&self) -> (r: bool)
        ensures
            r == any_spec(self@),
    {
        self.name.is_some() || self.desc.is_some() || self.calc.is_some() || self.grain.is_some()
            || self.sources.len() > 0
    }

    /// The metric the settings describe; `at` is the field, where a metric without calc is
    /// reported.
    pub fn metric(&self, at: usize) -> (r: Result<Option<MetricAttrs>, MacroError>)
        ensures
            match metric_spec(self@, at) {
                Ok(None) => r matches Ok(None),
                Ok(Some(m)) => r matches Ok(Some(x)) && x@ == m,
                Err(e) => r matches Err(x) && x == e,
            },
    {
        let any = self.calc.is_some() || self.grain.is_some() || self.sources.len() > 0;
        if !any {
            return Ok(None);
        }
        let calc = match &self.calc {
            Some(c) => c.copy(),
            None => {
                return Err(MacroError { problem: Problem::MetricRequiresCalc, at: Some(at) });
            },
        };
        let grain = match &self.grain {
            Some(g) => Some(g.copy()),
            None => None,
        };
        Ok(Some(MetricAttrs { calc, grain, sources: copy_exprs(&self.sources) }))
    }
}

/// The wire name of a field (see `field_name_spec`).
pub fn field_name(ident_name: &str, shape: &ShapeAttrs, serde: &SerdeField, container: &SerdeContainer) -> (r:
    Result<String, MacroError>)
    ensures
        match field_name_spec(ident_name@, shape@, *serde, *container) {
            Ok(n) => r matches Ok(x) && x@ == n,
            Err(e) => r matches Err(x) && x == e,
        },
{
    if let Some(name) = &shape.name {
        return Ok(name.value.clone());
    }
    if let Some(rename) = &serde.rename {
        return Ok(rename.value.clone());
    }
    if let Some(rename) = &serde.directional_rename {
        return Err(MacroError { problem: Problem::DirectionalRename, at: Some(rename.at) });
    }
    if let Some(rename_all_lit) = &container.directional_rename_all {
        return Err(MacroError { problem: Problem::DirectionalRenameAll, at: Some(rename_all_lit.at) });
    }
    if let Some(style) = &container.rename_all {
        return match rename_all(style.value.as_str(), ident_name) {
            Some(v) => Ok(v),
            None => Err(MacroError { problem: Problem::UnsupportedRenameAll, at: Some(style.at) }),
        };
    }
    Ok(ident_name.to_owned())
}

/// What a named field contributes (see `named_field_spec`).
pub fn named_field(field: &FieldInput, container: &SerdeContainer) -> (r: Result<Option<FieldPlan>, MacroError>)
    ensures
        match named_field_spec(*field, *container) {
            Ok(None) => r matches Ok(None),
            Ok(Some(p)) => r matches Ok(Some(x)) && x@ == p,
            Err(e) => r matches Err(x) && x == e,
        },
{
    let ident = match &field.ident {
        Some(i) => i,
        None => {
            return Err(MacroError { problem: Problem::ExpectedNamedField, at: Some(field.at) });
        },
    };
    let shape = ShapeAttrs::field(field.attrs.as_slice())?;
    let serde = SerdeField::from_attrs(field.attrs.as_slice())?;
    if serde.skip || serde.skip_serializing || serde.flatten {
        if shape.any() {
            return Err(MacroError { problem: Problem::ShapeOnSkippedField, at: Some(field.at) });
        }
        return Ok(None);
    }
    let name = field_name(ident.as_str(), &shape, &serde, container)?;
    let metric = shape.metric(field.at)?;
    Ok(Some(FieldPlan { name, ident: ident.clone(), ty: field.ty.clone(), at: field.at, metric }))
}

proof fn lemma_named_fields_err_stays(fs: Seq<FieldInput>, c: SerdeContainer, k: int, n: int)
    requires
        0 <= k <= n,
        named_fields_fold(fs, c, k) is Err,
    ensures
        named_fields_fold(fs, c, n) == named_fields_fold(fs, c, k),
    decreases n - k,
{
    if n > k {
        lemma_named_fields_err_stays(fs, c, k, n - 1);
    }
}

proof fn lemma_first_shape_attr_stays(attrs: Seq<Attr>, k: int, n: int, p: Problem)
    requires
        0 <= k <= n,
        first_shape_attr(attrs, k, p) is Some,
    ensures
        first_shape_attr(attrs, n, p) == first_shape_attr(attrs, k, p),
    decreases n - k,
{
    if n > k {
        lemma_first_shape_attr_stays(attrs, k, n - 1, p);
    }
}

proof fn lemma_first_shape_on_fields_stays(fs: Seq<FieldInput>, k: int, n: int)
    requires
        0 <= k <= n,
        first_shape_on_fields(fs, k) is Some,
    ensures
        first_shape_on_fields(fs, n) == first_shape_on_fields(fs, k),
    decreases n - k,
{
    if n > k {
        lemma_first_shape_on_fields_stays(fs, k, n - 1);
    }
}

proof fn lemma_first_shape_on_variants_stays(vs: Seq<VariantInput>, k: int, n: int)
    requires
        0 <= k <= n,
        first_shape_on_variants(vs, k) is Some,
    ensures
        first_shape_on_variants(vs, n) == first_shape_on_variants(vs, k),
    decreases n - k,
{
    if n > k {
        lemma_first_shape_on_variants_stays(vs, k, n - 1);
    }
}

/// Refuses the first `#[shape(...)]` among `attrs` with `problem`.
fn reject_shape_attrs(attrs: &Vec<Attr>, problem: Problem) -> (r: Result<(), MacroError>)
    ensures
        match first_shape_attr(attrs@, attrs@.len() as int, problem) {
            Some(e) => r == Err::<(), MacroError>(e),
            None => r is Ok,
        },
{
    let mut i: usize = 0;
    while i < attrs.len()
        invariant
            i <= attrs@.len(),
            first_shape_attr(attrs@, i as int, problem) is None,
        decreases attrs.len() - i,
    {
        if attrs[i].kind == AttrKind::Shape {
            proof {
                lemma_first_shape_attr_stays(attrs@, i + 1, attrs@.len() as int, problem);
            }
            return Err(MacroError { problem, at: Some(attrs[i].at) });
        }
        i = i + 1;
    }
    Ok(())
}

/// Refuses `#[shape(...)]` on any of the fields, which are tuple or variant fields.
fn reject_field_shape_attrs(fs: &Vec<FieldInput>) -> (r: Result<(), MacroError>)
    ensures
        match first_shape_on_fields(fs@, fs@.len() as int) {
            Some(e) => r == Err::<(), MacroError>(e),
            None => r is Ok,
        },
{
    let mut i: usize = 0;
    while i < fs.len()
        invariant
            i <= fs@.len(),
            first_shape_on_fields(fs@, i as int) is None,
        decreases fs.len() - i,
    {
        match reject_shape_attrs(&fs[i].attrs, Problem::ShapeOnUnnamedField) {
            Err(e) => {
                proof {
                    lemma_first_shape_on_fields_stays(fs@, i + 1, fs@.len() as int);
                }
                return Err(e);
            },
            Ok(()) => {},
        }
        i = i + 1;
    }
    Ok(())
}

/// The fields a `Shape` derive describes (see `fields_spec`).
pub fn fields(data: &DataInput, container: &SerdeContainer) -> (r: Result<Vec<FieldPlan>, MacroError>)
    ensures
        match fields_spec(*data, *container) {
            Ok(fs) => r matches Ok(x) && x@.map_values(|f: FieldPlan| f@) == fs,
            Err(e) => r matches Err(x) && x == e,
        },
{
    match data {
        DataInput::Named(fs) => {
            let mut out: Vec<FieldPlan> = Vec::new();
            assert(out@.map_values(|f: FieldPlan| f@) =~= Seq::<FieldSpec>::empty());
            let mut i: usize = 0;
            while i < fs.len()
                invariant
                    i <= fs@.len(),
                    fields_spec(*data, *container) == named_fields_fold(fs@, *container, fs@.len() as int),
                    named_fields_fold(fs@, *container, i as int) == Ok::<Seq<FieldSpec>, MacroError>(
                        out@.map_values(|f: FieldPlan| f@),
                    ),
                decreases fs.len() - i,
            {
                match named_field(&fs[i], container) {
                    Err(e) => {
                        proof {
                            lemma_named_fields_err_stays(fs@, *container, i + 1, fs@.len() as int);
                        }
                        return Err(e);
                    },
                    Ok(None) => {},
                    Ok(Some(p)) => {
                        let ghost prev = out@;
                        out.push(p);
                        assert(out@.map_values(|f: FieldPlan| f@) =~= prev.map_values(|f: FieldPlan| f@).push(
                            p@,
                        ));
                    },
                }
                i = i + 1;
            }
            Ok(out)
        },
        DataInput::Unnamed(fs) => {
            reject_field_shape_attrs(fs)?;
            let out: Vec<FieldPlan> = Vec::new();
            assert(out@.map_values(|f: FieldPlan| f@) =~= Seq::<FieldSpec>::empty());
            Ok(out)
        },
        DataInput::Unit => {
            let out: Vec<FieldPlan> = Vec::new();
            assert(out@.map_values(|f: FieldPlan| f@) =~= Seq::<FieldSpec>::empty());
            Ok(out)
        },
        DataInput::Enum(vs) => {
            let mut i: usize = 0;
            while i < vs.len()
                invariant
                    i <= vs@.len(),
                    fields_spec(*data, *container) == (match first_shape_on_variants(vs@, vs@.len() as int) {
                        Some(e) => Err(e),
                        None => Ok(Seq::<FieldSpec>::empty()),
                    }),
                    first_shape_on_variants(vs@, i as int) is None,
                decreases vs.len() - i,
            {
                let step = match reject_shape_attrs(&vs[i].attrs, Problem::ShapeOnVariant) {
                    Err(e) => Err(e),
                    Ok(()) => reject_field_shape_attrs(&vs[i].fields),
                };
                match step {
                    Err(e) => {
                        proof {
                            lemma_first_shape_on_variants_stays(vs@, i + 1, vs@.len() as int);
                        }
                        return Err(e);
                    },
                    Ok(()) => {},
                }
                i = i + 1;
            }
            let out: Vec<FieldPlan> = Vec::new();
            assert(out@.map_values(|f: FieldPlan| f@) =~= Seq::<FieldSpec>::empty());
            Ok(out)
        },
        DataInput::Union(at) => Err(MacroError { problem: Problem::ShapeOnUnion, at: Some(*at) }),
    }
}

/// What a `Shape` derive describes for an item (see `shape_plan_spec`).
pub fn shape_plan(input: &ShapeInput) -> (r: Result<ShapePlan, MacroError>)
    ensures
        match shape_plan_spec(*input) {
            Ok(p) => r matches Ok(x) && x@ == p,
            Err(e) => r matches Err(x) && x == e,
        },
{
    let attrs = ShapeAttrs::container(input.attrs.as_slice())?;
    let name = match &attrs.name {
        Some(n) => n.copy(),
        None => {
            return Err(MacroError { problem: Problem::MissingShapeName, at: Some(input.ident_at) });
        },
    };
    let desc = copy_lit(&attrs.desc);
    let serde = SerdeContainer::from_attrs(input.attrs.as_slice())?;
    let fields = fields(&input.data, &serde)?;
    Ok(ShapePlan { name, desc, fields })
}

/// The HTTP method written `m`, in any case (see `method_spec`).
pub fn method(m: &str, at: usize) -> (r: Result<Method, MacroError>)
    ensures
        r == method_spec(m@, at),
{
    let u = to_ascii_uppercase(m);
    proof {
        reveal_strlit("GET");
        reveal_strlit("POST");
        reveal_strlit("PUT");
        reveal_strlit("PATCH");
        reveal_strlit("DELETE");
    }
    if str_eq(u.as_str(), "GET") {
        Ok(Method::Get)
    } else if str_eq(u.as_str(), "POST") {
        Ok(Method::Post)
    } else if str_eq(u.as_str(), "PUT") {
        Ok(Method::Put)
    } else if str_eq(u.as_str(), "PATCH") {
        Ok(Method::Patch)
    } else if str_eq(u.as_str(), "DELETE") {
        Ok(Method::Delete)
    } else {
        Err(MacroError { problem: Problem::UnsupportedMethod, at: Some(at) })
    }
}

/// What an `Op` derive describes for an item (see `op_plan_spec`).
pub fn op_plan(input: &OpInput) -> (r: Result<OpPlan, MacroError>)
    ensures
        r == op_plan_spec(*input),
{
    if let Some(g) = input.generics_at {
        return Err(MacroError { problem: Problem::GenericOp, at: Some(g) });
    }
    if !input.unit_struct {
        return Err(MacroError { problem: Problem::OpNotUnitStruct, at: Some(input.ident_at) });
    }
    let attrs = OpAttrs::from_attrs(input.attrs.as_slice())?;
    let name = match attrs.name {
        Some(n) => n,
        None => {
            return Err(MacroError { problem: Problem::MissingOpName, at: Some(input.ident_at) });
        },
    };
    let input_ty = match attrs.input {
        Some(t) => t,
        None => {
            return Err(MacroError { problem: Problem::MissingOpInput, at: Some(input.ident_at) });
        },
    };
    let output_ty = match attrs.output {
        Some(t) => t,
        None => {
            return Err(MacroError { problem: Problem::MissingOpOutput, at: Some(input.ident_at) });
        },
    };
    let http = match attrs.http {
        Some(h) => {
            let m = method(h.method.as_str(), h.method_at)?;
            Some((m, h.path))
        },
        None => None,
    };
    Ok(OpPlan { name, input: input_ty, output: output_ty, desc: attrs.desc, http })
}

} // verus!
