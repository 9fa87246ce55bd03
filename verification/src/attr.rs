//! The `#[shape(...)]`, `#[serde(...)]` and `#[op(...)]` attributes the derives read.
//!
//! The caller hands the attributes over as they were written: for each nested item its key,
//! what follows it, and the index of its tokens (where a problem is reported). Which item
//! is accepted, which is refused and which error comes first is decided here.
use vstd::prelude::*;
use crate::diag::{MacroError, Problem};

verus! {

/// Which attribute an attribute is, by its path.
#[derive(Clone, Copy, Debug, PartialEq, Eq, Structural)]
pub enum AttrKind {
    Shape,
    Serde,
    Op,
    Other,
}

/// The key of a nested attribute item, by its path.
#[derive(Clone, Copy, Debug, PartialEq, Eq, Structural)]
pub enum MetaKey {
    Name,
    Desc,
    Calc,
    Grain,
    Source,
    Rename,
    RenameAll,
    Skip,
    SkipSerializing,
    Flatten,
    Serialize,
    Deserialize,
    Other,
}

/// A string literal: its value and the index of its tokens.
#[derive(Clone, Debug, PartialEq, Eq)]
pub struct Lit {
    pub value: String,
    pub at: usize,
}

/// An expression written after `=`: its value where it is a string literal, and the index
/// of its tokens.
#[derive(Clone, Debug, PartialEq, Eq)]
pub struct ExprArg {
    pub lit: Option<String>,
    pub at: usize,
}

/// What follows the key of an item inside a nested list.
#[derive(Clone, Debug, PartialEq, Eq)]
pub enum SubBody {
    Bare,
    Value(ExprArg),
    List,
}

/// An item of a nested list, as in `rename(serialize = "...")`.
#[derive(Clone, Debug, PartialEq, Eq)]
pub struct SubMeta {
    pub key: MetaKey,
    pub body: SubBody,
    pub at: usize,
}

/// What follows the key of an attribute item: nothing, `= expr`, or a parenthesized list
/// (with the syntax error that ended it early, if one did).
#[derive(Clone, Debug, PartialEq, Eq)]
pub enum MetaBody {
    Bare,
    Value(ExprArg),
    List(Vec<SubMeta>, Option<usize>),
}

/// One item of an attribute.
#[derive(Clone, Debug, PartialEq, Eq)]
pub struct Meta {
    pub key: MetaKey,
    pub body: MetaBody,
    pub at: usize,
}

/// An attribute: its kind, its items as far as they could be read, and the syntax error
/// that ended them early, if one did.
#[derive(Clone, Debug, PartialEq, Eq)]
pub struct Attr {
    pub kind: AttrKind,
    pub metas: Vec<Meta>,
    pub syntax: Option<usize>,
    pub at: usize,
}

/// Where `#[shape(...)]` is read: on the container, or on a field.
#[derive(Clone, Copy, Debug, PartialEq, Eq, Structural)]
pub enum Target {
    Container,
    Field,
}

/// The error for `problem` at `at`.
pub open spec fn err_at(problem: Problem, at: usize) -> MacroError {
    MacroError { problem, at: Some(at) }
}

/// The `#[shape(...)]` settings of a container or a field.
#[derive(Debug)]
pub struct ShapeAttrs {
    pub name: Option<Lit>,
    pub desc: Option<Lit>,
    pub calc: Option<Lit>,
    pub grain: Option<ExprArg>,
    pub sources: Vec<ExprArg>,
}

/// The `#[shape(...)]` settings, with the sources as a sequence.
pub struct ShapeSettings {
    pub name: Option<Lit>,
    pub desc: Option<Lit>,
    pub calc: Option<Lit>,
    pub grain: Option<ExprArg>,
    pub sources: Seq<ExprArg>,
}

impl View for ShapeAttrs {
    type V = ShapeSettings;

    open spec fn view(&self) -> ShapeSettings {
        ShapeSettings {
            name: self.name,
            desc: self.desc,
            calc: self.calc,
            grain: self.grain,
            sources: self.sources@,
        }
    }
}

/// No settings.
pub open spec fn no_settings() -> ShapeSettings {
    ShapeSettings { name: None, desc: None, calc: None, grain: None, sources: Seq::empty() }
}

/// The string literal after `=`: refused without `=`, or when the expression is no string
/// literal.
pub open spec fn lit_of(m: Meta) -> Result<Lit, MacroError> {
    match m.body {
        MetaBody::Value(e) => match e.lit {
            Some(s) => Ok(Lit { value: s, at: e.at }),
            None => Err(err_at(Problem::ExpectedString, e.at)),
        },
        _ => Err(err_at(Problem::ExpectedEq, m.at)),
    }
}

/// The expression after `=`: refused without `=`.
pub open spec fn expr_of(m: Meta) -> Result<ExprArg, MacroError> {
    match m.body {
        MetaBody::Value(e) => Ok(e),
        _ => Err(err_at(Problem::ExpectedEq, m.at)),
    }
}

/// One item of `#[shape(...)]` read into the settings `s`.
pub open spec fn shape_meta_step(s: ShapeSettings, m: Meta, target: Target) -> Result<
    ShapeSettings,
    MacroError,
> {
    match m.key {
        MetaKey::Name => match lit_of(m) {
            Err(e) => Err(e),
            Ok(v) => if s.name is Some {
                Err(err_at(Problem::DuplicateShapeName, v.at))
            } else {
                Ok(ShapeSettings { name: Some(v), ..s })
            },
        },
        MetaKey::Desc => if target != Target::Container {
            Err(err_at(Problem::DescOnContainersOnly, m.at))
        } else {
            match lit_of(m) {
                Err(e) => Err(e),
                Ok(v) => if s.desc is Some {
                    Err(err_at(Problem::DuplicateShapeDesc, v.at))
                } else {
                    Ok(ShapeSettings { desc: Some(v), ..s })
                },
            }
        },
        MetaKey::Calc => if target != Target::Field {
            Err(err_at(Problem::CalcOnFieldsOnly, m.at))
        } else {
            match lit_of(m) {
                Err(e) => Err(e),
                Ok(v) => if s.calc is Some {
                    Err(err_at(Problem::DuplicateShapeCalc, v.at))
                } else {
                    Ok(ShapeSettings { calc: Some(v), ..s })
                },
            }
        },
        MetaKey::Grain => if target != Target::Field {
            Err(err_at(Problem::GrainOnFieldsOnly, m.at))
        } else {
            match expr_of(m) {
                Err(e) => Err(e),
                Ok(v) => if s.grain is Some {
                    Err(err_at(Problem::DuplicateShapeGrain, v.at))
                } else {
                    Ok(ShapeSettings { grain: Some(v), ..s })
                },
            }
        },
        MetaKey::Source => if target != Target::Field {
            Err(err_at(Problem::SourceOnFieldsOnly, m.at))
        } else {
            match expr_of(m) {
                Err(e) => Err(e),
                Ok(v) => Ok(ShapeSettings { sources: s.sources.push(v), ..s }),
            }
        },
        _ => Err(err_at(Problem::UnsupportedShapeAttribute, m.at)),
    }
}

/// The first `n` items of one `#[shape(...)]` read into `s`, in order; the first refusal
/// wins.
pub open spec fn shape_metas(s: ShapeSettings, metas: Seq<Meta>, n: int, target: Target) -> Result<
    ShapeSettings,
    MacroError,
>
    decreases n,
{
    if n <= 0 {
        Ok(s)
    } else {
        match shape_metas(s, metas, n - 1, target) {
            Err(e) => Err(e),
            Ok(t) => shape_meta_step(t, metas[n - 1], target),
        }
    }
}

/// One attribute read into `s`: attributes other than `#[shape(...)]` are passed over; a
/// syntax error that ended the items is reported after them.
pub open spec fn shape_attr_step(s: ShapeSettings, a: Attr, target: Target) -> Result<
    ShapeSettings,
    MacroError,
> {
    if a.kind != AttrKind::Shape {
        Ok(s)
    } else {
        match shape_metas(s, a.metas@, a.metas@.len() as int, target) {
            Err(e) => Err(e),
            Ok(t) => match a.syntax {
                Some(at) => Err(err_at(Problem::Syntax, at)),
                None => Ok(t),
            },
        }
    }
}

/// The first `n` attributes read into `s`, in order.
pub open spec fn shape_attrs_spec(s: ShapeSettings, attrs: Seq<Attr>, n: int, target: Target) -> Result<
    ShapeSettings,
    MacroError,
>
    decreases n,
{
    if n <= 0 {
        Ok(s)
    } else {
        match shape_attrs_spec(s, attrs, n - 1, target) {
            Err(e) => Err(e),
            Ok(t) => shape_attr_step(t, attrs[n - 1], target),
        }
    }
}

/// What reading all attributes from no settings gives.
pub open spec fn shape_settings_of(attrs: Seq<Attr>, target: Target) -> Result<
    ShapeSettings,
    MacroError,
> {
    shape_attrs_spec(no_settings(), attrs, attrs.len() as int, target)
}

/// Once an item is refused, the refusal is what reading more items gives.
proof fn lemma_shape_metas_err_stays(s: ShapeSettings, metas: Seq<Meta>, k: int, n: int, target: Target)
    requires
        0 <= k <= n,
        shape_metas(s, metas, k, target) is Err,
    ensures
        shape_metas(s, metas, n, target) == shape_metas(s, metas, k, target),
    decreases n - k,
{
    if n > k {
        lemma_shape_metas_err_stays(s, metas, k, n - 1, target);
    }
}

/// Once an attribute is refused, the refusal is what reading more attributes gives.
proof fn lemma_shape_attrs_err_stays(s: ShapeSettings, attrs: Seq<Attr>, k: int, n: int, target: Target)
    requires
        0 <= k <= n,
        shape_attrs_spec(s, attrs, k, target) is Err,
    ensures
        shape_attrs_spec(s, attrs, n, target) == shape_attrs_spec(s, attrs, k, target),
    decreases n - k,
{
    if n > k {
        lemma_shape_attrs_err_stays(s, attrs, k, n - 1, target);
    }
}

impl Lit {
    /// A copy of the literal.
    pub fn copy(&self) -> (r: Lit)
        ensures
            r == *self,
    {
        Lit { value: self.value.clone(), at: self.at }
    }
}

impl ExprArg {
    /// A copy of the expression.
    pub fn copy(&self) -> (r: ExprArg)
        ensures
            r == *self,
    {
        let lit = match &self.lit {
            Some(s) => Some(s.clone()),
            None => None,
        };
        ExprArg { lit, at: self.at }
    }
}

/// The string literal after `=` of an item.
fn meta_lit(m: &Meta) -> (r: Result<Lit, MacroError>)
    ensures
        r == lit_of(*m),
{
    match &m.body {
        MetaBody::Value(e) => match &e.lit {
            Some(s) => Ok(Lit { value: s.clone(), at: e.at }),
            None => Err(MacroError { problem: Problem::ExpectedString, at: Some(e.at) }),
        },
        _ => Err(MacroError { problem: Problem::ExpectedEq, at: Some(m.at) }),
    }
}

/// The expression after `=` of an item.
fn meta_expr(m: &Meta) -> (r: Result<ExprArg, MacroError>)
    ensures
        r == expr_of(*m),
{
    match &m.body {
        MetaBody::Value(e) => Ok(e.copy()),
        _ => Err(MacroError { problem: Problem::ExpectedEq, at: Some(m.at) }),
    }
}

/// Fills an empty slot with `value`; a filled slot refuses it with `problem` at the value.
pub fn set_once<T>(slot: &mut Option<T>, value: T, at: usize, problem: Problem) -> (r: Result<
    (),
    MacroError,
>)
    ensures
        old(slot).is_some() ==> r == Err::<(), MacroError>(err_at(problem, at)) && *final(slot) == *old(slot),
        old(slot).is_none() ==> r is Ok && *final(slot) == Some(value),
{
    if slot.is_some() {
        return Err(MacroError { problem, at: Some(at) });
    }
    *slot = Some(value);
    Ok(())
}

/// Whether a string-literal item is allowed for `target`.
fn target_is(target: Target, want: Target) -> (r: bool)
    ensures
        r == (target == want),
{
    match (target, want) {
        (Target::Container, Target::Container) => true,
        (Target::Field, Target::Field) => true,
        _ => false,
    }
}

impl ShapeAttrs {
    /// No settings.
    pub fn empty() -> (r: Self)
        ensures
            r@ == no_settings(),
    {
        ShapeAttrs { name: None, desc: None, calc: None, grain: None, sources: Vec::new() }
    }

    /// Reads one item of `#[shape(...)]`.
    fn read_meta(&mut self, m: &Meta, target: Target) -> (r: Result<(), MacroError>)
        ensures
            match shape_meta_step(old(self)@, *m, target) {
                Ok(s) => r is Ok && final(self)@ == s,
                Err(e) => r == Err::<(), MacroError>(e),
            },
    {
        match m.key {
            MetaKey::Name => {
                let v = meta_lit(m)?;
                let at = v.at;
                set_once(&mut self.name, v, at, Problem::DuplicateShapeName)
            },
            MetaKey::Desc => {
                if !target_is(target, Target::Container) {
                    return Err(MacroError { problem: Problem::DescOnContainersOnly, at: Some(m.at) });
                }
                let v = meta_lit(m)?;
                let at = v.at;
                set_once(&mut self.desc, v, at, Problem::DuplicateShapeDesc)
            },
            MetaKey::Calc => {
                if !target_is(target, Target::Field) {
                    return Err(MacroError { problem: Problem::CalcOnFieldsOnly, at: Some(m.at) });
                }
                let v = meta_lit(m)?;
                let at = v.at;
                set_once(&mut self.calc, v, at, Problem::DuplicateShapeCalc)
            },
            MetaKey::Grain => {
                if !target_is(target, Target::Field) {
                    return Err(MacroError { problem: Problem::GrainOnFieldsOnly, at: Some(m.at) });
                }
                let v = meta_expr(m)?;
                let at = v.at;
                set_once(&mut self.grain, v, at, Problem::DuplicateShapeGrain)
            },
            MetaKey::Source => {
                if !target_is(target, Target::Field) {
                    return Err(MacroError { problem: Problem::SourceOnFieldsOnly, at: Some(m.at) });
                }
                let v = meta_expr(m)?;
                self.sources.push(v);
                Ok(())
            },
            _ => Err(MacroError { problem: Problem::UnsupportedShapeAttribute, at: Some(m.at) }),
        }
    }
}

impl ShapeAttrs {
    /// Reads the `#[shape(...)]` attributes among `attrs` into the settings, in order; the first
    /// refusal is the result.
    pub fn parse(&mut self, attrs: &[Attr], target: Target) -> (r: Result<(), MacroError>)
        ensures
            match shape_attrs_spec(old(self)@, attrs@, attrs@.len() as int, target) {
                Ok(s) => r is Ok && final(self)@ == s,
                Err(e) => r == Err::<(), MacroError>(e),
            },
    {
        let ghost s0 = self@;
        let mut i: usize = 0;
        while i < attrs.len()
            invariant
                i <= attrs@.len(),
                s0 == old(self)@,
                shape_attrs_spec(s0, attrs@, i as int, target) == Ok::<ShapeSettings, MacroError>(self@),
            decreases attrs.len() - i,
        {
            let a = &attrs[i];
            let ghost before = self@;
            if a.kind == AttrKind::Shape {
                let mut j: usize = 0;
                while j < a.metas.len()
                    invariant
                        j <= a.metas@.len(),
                        s0 == old(self)@,
                        i < attrs@.len(),
                        *a == attrs@[i as int],
                        a.kind == AttrKind::Shape,
                        shape_attrs_spec(s0, attrs@, i as int, target) == Ok::<ShapeSettings, MacroError>(before),
                        shape_metas(before, a.metas@, j as int, target) == Ok::<ShapeSettings, MacroError>(self@),
                    decreases a.metas.len() - j,
                {
                    match self.read_meta(&a.metas[j], target) {
                        Err(e) => {
                            proof {
                                assert(shape_metas(before, a.metas@, j + 1, target) == Err::<ShapeSettings, MacroError>(e));
                                lemma_shape_metas_err_stays(before, a.metas@, j + 1, a.metas@.len() as int, target);
                                assert(shape_attr_step(before, attrs@[i as int], target) == Err::<ShapeSettings, MacroError>(e));
                                assert(shape_attrs_spec(s0, attrs@, i + 1, target) == Err::<ShapeSettings, MacroError>(e));
                                lemma_shape_attrs_err_stays(s0, attrs@, i + 1, attrs@.len() as int, target);
                            }
                            return Err(e);
                        },
                        Ok(()) => {},
                    }
                    j = j + 1;
                }
                match a.syntax {
                    Some(at) => {
                        proof {
                            lemma_shape_attrs_err_stays(s0, attrs@, i + 1, attrs@.len() as int, target);
                        }
                        return Err(MacroError { problem: Problem::Syntax, at: Some(at) });
                    },
                    None => {},
                }
            }
            i = i + 1;
        }
        Ok(())
    }

    /// The settings of `#[shape(...)]` on a container.
    pub fn container(attrs: &[Attr]) -> (r: Result<Self, MacroError>)
        ensures
            match shape_settings_of(attrs@, Target::Container) {
                Ok(s) => r matches Ok(a) && a@ == s,
                Err(e) => r matches Err(x) && x == e,
            },
    {
        let mut parsed = ShapeAttrs::empty();
        parsed.parse(attrs, Target::Container)?;
        Ok(parsed)
    }

    /// The settings of `#[shape(...)]` on a field.
    pub fn field(attrs: &[Attr]) -> (r: Result<Self, MacroError>)
        ensures
            match shape_settings_of(attrs@, Target::Field) {
                Ok(s) => r matches Ok(a) && a@ == s,
                Err(e) => r matches Err(x) && x == e,
            },
    {
        let mut parsed = ShapeAttrs::empty();
        parsed.parse(attrs, Target::Field)?;
        Ok(parsed)
    }
}

/// The `#[serde(...)]` settings of a container that decide field names.
#[derive(Debug, PartialEq, Eq)]
pub struct SerdeContainer {
    pub rename_all: Option<Lit>,
    pub directional_rename_all: Option<Lit>,
}

/// The `#[serde(...)]` settings of a field that decide whether and how it is named.
#[derive(Debug, PartialEq, Eq)]
pub struct SerdeField {
    pub rename: Option<Lit>,
    pub directional_rename: Option<Lit>,
    pub skip: bool,
    pub skip_serializing: bool,
    pub flatten: bool,
}

/// An item of `rename(...)` or `rename_all(...)` read into the directional name `cur`: the
/// first `serialize` or `deserialize` string wins; other items without a value are passed
/// over.
pub open spec fn directional_step(cur: Option<Lit>, sub: SubMeta) -> Result<Option<Lit>, MacroError> {
    match sub.key {
        MetaKey::Serialize | MetaKey::Deserialize => match sub.body {
            SubBody::Value(e) => match e.lit {
                Some(v) => Ok(if cur is None { Some(Lit { value: v, at: e.at }) } else { cur }),
                None => Err(err_at(Problem::ExpectedString, e.at)),
            },
            _ => Err(err_at(Problem::ExpectedEq, sub.at)),
        },
        _ => match sub.body {
            SubBody::Bare => Ok(cur),
            _ => Err(err_at(Problem::ExpectedComma, sub.at)),
        },
    }
}

/// The first `n` items of a nested list read into `cur`, in order.
pub open spec fn directional_fold(cur: Option<Lit>, subs: Seq<SubMeta>, n: int) -> Result<
    Option<Lit>,
    MacroError,
>
    decreases n,
{
    if n <= 0 {
        Ok(cur)
    } else {
        match directional_fold(cur, subs, n - 1) {
            Err(e) => Err(e),
            Ok(c) => directional_step(c, subs[n - 1]),
        }
    }
}

/// A whole nested list read into `cur`; a syntax error that ended it is reported after it.
pub open spec fn directional_list(cur: Option<Lit>, subs: Seq<SubMeta>, syntax: Option<usize>) -> Result<
    Option<Lit>,
    MacroError,
> {
    match directional_fold(cur, subs, subs.len() as int) {
        Err(e) => Err(e),
        Ok(c) => match syntax {
            Some(at) => Err(err_at(Problem::Syntax, at)),
            None => Ok(c),
        },
    }
}

/// An item serde reads but the derive does not: `= expr` and bare keys are passed over, a
/// list is refused.
pub open spec fn ignored_item(m: Meta) -> Result<(), MacroError> {
    match m.body {
        MetaBody::List(_, _) => Err(err_at(Problem::ExpectedComma, m.at)),
        _ => Ok(()),
    }
}

/// One item of a container's `#[serde(...)]` read into `s`.
pub open spec fn serde_container_step(s: SerdeContainer, m: Meta) -> Result<SerdeContainer, MacroError> {
    match m.key {
        MetaKey::RenameAll => match m.body {
            MetaBody::Value(e) => match e.lit {
                None => Err(err_at(Problem::ExpectedString, e.at)),
                Some(v) => if s.rename_all is Some {
                    Err(err_at(Problem::DuplicateSerdeRenameAll, e.at))
                } else {
                    Ok(SerdeContainer { rename_all: Some(Lit { value: v, at: e.at }), ..s })
                },
            },
            MetaBody::Bare => Err(err_at(Problem::ExpectedParens, m.at)),
            MetaBody::List(subs, syntax) => match directional_list(s.directional_rename_all, subs@, syntax) {
                Err(e) => Err(e),
                Ok(d) => Ok(SerdeContainer { directional_rename_all: d, ..s }),
            },
        },
        _ => match ignored_item(m) {
            Err(e) => Err(e),
            Ok(_) => Ok(s),
        },
    }
}

/// The first `n` items of a container's `#[serde(...)]` read into `s`.
pub open spec fn serde_container_metas(s: SerdeContainer, metas: Seq<Meta>, n: int) -> Result<
    SerdeContainer,
    MacroError,
>
    decreases n,
{
    if n <= 0 {
        Ok(s)
    } else {
        match serde_container_metas(s, metas, n - 1) {
            Err(e) => Err(e),
            Ok(t) => serde_container_step(t, metas[n - 1]),
        }
    }
}

/// The first `n` attributes of a container read into `s`: only `#[serde(...)]` is read.
pub open spec fn serde_container_attrs(s: SerdeContainer, attrs: Seq<Attr>, n: int) -> Result<
    SerdeContainer,
    MacroError,
>
    decreases n,
{
    if n <= 0 {
        Ok(s)
    } else {
        match serde_container_attrs(s, attrs, n - 1) {
            Err(e) => Err(e),
            Ok(t) => if attrs[n - 1].kind != AttrKind::Serde {
                Ok(t)
            } else {
                match serde_container_metas(t, attrs[n - 1].metas@, attrs[n - 1].metas@.len() as int) {
                    Err(e) => Err(e),
                    Ok(u) => match attrs[n - 1].syntax {
                        Some(at) => Err(err_at(Problem::Syntax, at)),
                        None => Ok(u),
                    },
                }
            },
        }
    }
}

/// What a container's attributes give, from no settings.
pub open spec fn serde_container_of(attrs: Seq<Attr>) -> Result<SerdeContainer, MacroError> {
    serde_container_attrs(
        SerdeContainer { rename_all: None, directional_rename_all: None },
        attrs,
        attrs.len() as int,
    )
}

/// One item of a field's `#[serde(...)]` read into `s`.
pub open spec fn serde_field_step(s: SerdeField, m: Meta) -> Result<SerdeField, MacroError> {
    match m.key {
        MetaKey::Rename => match m.body {
            MetaBody::Value(e) => match e.lit {
                None => Err(err_at(Problem::ExpectedString, e.at)),
                Some(v) => if s.rename is Some {
                    Err(err_at(Problem::DuplicateSerdeRename, e.at))
                } else {
                    Ok(SerdeField { rename: Some(Lit { value: v, at: e.at }), ..s })
                },
            },
            MetaBody::Bare => Err(err_at(Problem::ExpectedParens, m.at)),
            MetaBody::List(subs, syntax) => match directional_list(s.directional_rename, subs@, syntax) {
                Err(e) => Err(e),
                Ok(d) => Ok(SerdeField { directional_rename: d, ..s }),
            },
        },
        MetaKey::Skip => match m.body {
            MetaBody::Bare => Ok(SerdeField { skip: true, ..s }),
            _ => Err(err_at(Problem::ExpectedComma, m.at)),
        },
        MetaKey::SkipSerializing => match m.body {
            MetaBody::Bare => Ok(SerdeField { skip_serializing: true, ..s }),
            _ => Err(err_at(Problem::ExpectedComma, m.at)),
        },
        MetaKey::Flatten => match m.body {
            MetaBody::Bare => Ok(SerdeField { flatten: true, ..s }),
            _ => Err(err_at(Problem::ExpectedComma, m.at)),
        },
        _ => match ignored_item(m) {
            Err(e) => Err(e),
            Ok(_) => Ok(s),
        },
    }
}

/// The first `n` items of a field's `#[serde(...)]` read into `s`.
pub open spec fn serde_field_metas(s: SerdeField, metas: Seq<Meta>, n: int) -> Result<
    SerdeField,
    MacroError,
>
    decreases n,
{
    if n <= 0 {
        Ok(s)
    } else {
        match serde_field_metas(s, metas, n - 1) {
            Err(e) => Err(e),
            Ok(t) => serde_field_step(t, metas[n - 1]),
        }
    }
}

/// The first `n` attributes of a field read into `s`: only `#[serde(...)]` is read.
pub open spec fn serde_field_attrs(s: SerdeField, attrs: Seq<Attr>, n: int) -> Result<
    SerdeField,
    MacroError,
>
    decreases n,
{
    if n <= 0 {
        Ok(s)
    } else {
        match serde_field_attrs(s, attrs, n - 1) {
            Err(e) => Err(e),
            Ok(t) => if attrs[n - 1].kind != AttrKind::Serde {
                Ok(t)
            } else {
                match serde_field_metas(t, attrs[n - 1].metas@, attrs[n - 1].metas@.len() as int) {
                    Err(e) => Err(e),
                    Ok(u) => match attrs[n - 1].syntax {
                        Some(at) => Err(err_at(Problem::Syntax, at)),
                        None => Ok(u),
                    },
                }
            },
        }
    }
}

/// What a field's attributes give, from no settings.
pub open spec fn serde_field_of(attrs: Seq<Attr>) -> Result<SerdeField, MacroError> {
    serde_field_attrs(
        SerdeField {
            rename: None,
            directional_rename: None,
            skip: false,
            skip_serializing: false,
            flatten: false,
        },
        attrs,
        attrs.len() as int,
    )
}

proof fn lemma_directional_err_stays(cur: Option<Lit>, subs: Seq<SubMeta>, k: int, n: int)
    requires
        0 <= k <= n,
        directional_fold(cur, subs, k) is Err,
    ensures
        directional_fold(cur, subs, n) == directional_fold(cur, subs, k),
    decreases n - k,
{
    if n > k {
        lemma_directional_err_stays(cur, subs, k, n - 1);
    }
}

proof fn lemma_container_metas_err_stays(s: SerdeContainer, metas: Seq<Meta>, k: int, n: int)
    requires
        0 <= k <= n,
        serde_container_metas(s, metas, k) is Err,
    ensures
        serde_container_metas(s, metas, n) == serde_container_metas(s, metas, k),
    decreases n - k,
{
    if n > k {
        lemma_container_metas_err_stays(s, metas, k, n - 1);
    }
}

proof fn lemma_container_attrs_err_stays(s: SerdeContainer, attrs: Seq<Attr>, k: int, n: int)
    requires
        0 <= k <= n,
        serde_container_attrs(s, attrs, k) is Err,
    ensures
        serde_container_attrs(s, attrs, n) == serde_container_attrs(s, attrs, k),
    decreases n - k,
{
    if n > k {
        lemma_container_attrs_err_stays(s, attrs, k, n - 1);
    }
}

proof fn lemma_field_metas_err_stays(s: SerdeField, metas: Seq<Meta>, k: int, n: int)
    requires
        0 <= k <= n,
        serde_field_metas(s, metas, k) is Err,
    ensures
        serde_field_metas(s, metas, n) == serde_field_metas(s, metas, k),
    decreases n - k,
{
    if n > k {
        lemma_field_metas_err_stays(s, metas, k, n - 1);
    }
}

proof fn lemma_field_attrs_err_stays(s: SerdeField, attrs: Seq<Attr>, k: int, n: int)
    requires
        0 <= k <= n,
        serde_field_attrs(s, attrs, k) is Err,
    ensures
        serde_field_attrs(s, attrs, n) == serde_field_attrs(s, attrs, k),
    decreases n - k,
{
    if n > k {
        lemma_field_attrs_err_stays(s, attrs, k, n - 1);
    }
}

/// Reads a nested list of `rename(...)` or `rename_all(...)` into the directional name.
fn read_directional(cur: &mut Option<Lit>, subs: &Vec<SubMeta>, syntax: Option<usize>) -> (r: Result<
    (),
    MacroError,
>)
    ensures
        match directional_list(*old(cur), subs@, syntax) {
            Ok(c) => r is Ok && *final(cur) == c,
            Err(e) => r == Err::<(), MacroError>(e),
        },
{
    let ghost c0 = *cur;
    let mut i: usize = 0;
    while i < subs.len()
        invariant
            i <= subs@.len(),
            c0 == *old(cur),
            directional_fold(c0, subs@, i as int) == Ok::<Option<Lit>, MacroError>(*cur),
        decreases subs.len() - i,
    {
        let sub = &subs[i];
        let step: Result<(), MacroError> = match sub.key {
            MetaKey::Serialize | MetaKey::Deserialize => match &sub.body {
                SubBody::Value(e) => match &e.lit {
                    Some(v) => {
                        if cur.is_none() {
                            *cur = Some(Lit { value: v.clone(), at: e.at });
                        }
                        Ok(())
                    },
                    None => Err(MacroError { problem: Problem::ExpectedString, at: Some(e.at) }),
                },
                _ => Err(MacroError { problem: Problem::ExpectedEq, at: Some(sub.at) }),
            },
            _ => match &sub.body {
                SubBody::Bare => Ok(()),
                _ => Err(MacroError { problem: Problem::ExpectedComma, at: Some(sub.at) }),
            },
        };
        match step {
            Err(e) => {
                proof {
                    lemma_directional_err_stays(c0, subs@, i + 1, subs@.len() as int);
                }
                return Err(e);
            },
            Ok(()) => {},
        }
        i = i + 1;
    }
    match syntax {
        Some(at) => Err(MacroError { problem: Problem::Syntax, at: Some(at) }),
        None => Ok(()),
    }
}

/// Passes over an item the derive does not read.
fn read_ignored(m: &Meta) -> (r: Result<(), MacroError>)
    ensures
        r == ignored_item(*m),
{
    match &m.body {
        MetaBody::List(_, _) => Err(MacroError { problem: Problem::ExpectedComma, at: Some(m.at) }),
        _ => Ok(()),
    }
}

/// Reads a flag item: it takes no value.
fn read_flag(flag: &mut bool, m: &Meta) -> (r: Result<(), MacroError>)
    ensures
        m.body is Bare ==> r is Ok && *final(flag),
        !(m.body is Bare) ==> r == Err::<(), MacroError>(err_at(Problem::ExpectedComma, m.at)),
{
    *flag = true;
    match &m.body {
        MetaBody::Bare => Ok(()),
        _ => Err(MacroError { problem: Problem::ExpectedComma, at: Some(m.at) }),
    }
}

impl SerdeContainer {
    /// Reads one item of `#[serde(...)]`.
    fn read_meta(&mut self, m: &Meta) -> (r: Result<(), MacroError>)
        ensures
            match serde_container_step(*old(self), *m) {
                Ok(s) => r is Ok && *final(self) == s,
                Err(e) => r == Err::<(), MacroError>(e),
            },
    {
        match m.key {
            MetaKey::RenameAll => match &m.body {
                MetaBody::Value(e) => match &e.lit {
                    None => Err(MacroError { problem: Problem::ExpectedString, at: Some(e.at) }),
                    Some(v) => set_once(
                        &mut self.rename_all,
                        Lit { value: v.clone(), at: e.at },
                        e.at,
                        Problem::DuplicateSerdeRenameAll,
                    ),
                },
                MetaBody::Bare => Err(MacroError { problem: Problem::ExpectedParens, at: Some(m.at) }),
                MetaBody::List(subs, syntax) => read_directional(&mut self.directional_rename_all, subs, *syntax),
            },
            _ => read_ignored(m),
        }
    }

    /// The settings of the `#[serde(...)]` attributes of a container, read in order.
    pub fn from_attrs(attrs: &[Attr]) -> (r: Result<Self, MacroError>)
        ensures
            match serde_container_of(attrs@) {
                Ok(s) => r matches Ok(x) && x == s,
                Err(e) => r matches Err(x) && x == e,
            },
    {
        let mut out = SerdeContainer { rename_all: None, directional_rename_all: None };
        let ghost s0 = out;
        let mut i: usize = 0;
        while i < attrs.len()
            invariant
                i <= attrs@.len(),
                s0 == (SerdeContainer { rename_all: None, directional_rename_all: None }),
                serde_container_attrs(s0, attrs@, i as int) == Ok::<SerdeContainer, MacroError>(out),
            decreases attrs.len() - i,
        {
            let a = &attrs[i];
            let ghost before = out;
            if a.kind == AttrKind::Serde {
                let mut j: usize = 0;
                while j < a.metas.len()
                    invariant
                        j <= a.metas@.len(),
                        i < attrs@.len(),
                        *a == attrs@[i as int],
                        a.kind == AttrKind::Serde,
                        s0 == (SerdeContainer { rename_all: None, directional_rename_all: None }),
                        serde_container_attrs(s0, attrs@, i as int) == Ok::<SerdeContainer, MacroError>(before),
                        serde_container_metas(before, a.metas@, j as int) == Ok::<SerdeContainer, MacroError>(out),
                    decreases a.metas.len() - j,
                {
                    match out.read_meta(&a.metas[j]) {
                        Err(e) => {
                            proof {
                                lemma_container_metas_err_stays(before, a.metas@, j + 1, a.metas@.len() as int);
                                lemma_container_attrs_err_stays(s0, attrs@, i + 1, attrs@.len() as int);
                            }
                            return Err(e);
                        },
                        Ok(()) => {},
                    }
                    j = j + 1;
                }
                match a.syntax {
                    Some(at) => {
                        proof {
                            lemma_container_attrs_err_stays(s0, attrs@, i + 1, attrs@.len() as int);
                        }
                        return Err(MacroError { problem: Problem::Syntax, at: Some(at) });
                    },
                    None => {},
                }
            }
            i = i + 1;
        }
        Ok(out)
    }
}

impl SerdeField {
    /// Reads one item of `#[serde(...)]`.
    fn read_meta(&mut self, m: &Meta) -> (r: Result<(), MacroError>)
        ensures
            match serde_field_step(*old(self), *m) {
                Ok(s) => r is Ok && *final(self) == s,
                Err(e) => r == Err::<(), MacroError>(e),
            },
    {
        match m.key {
            MetaKey::Rename => match &m.body {
                MetaBody::Value(e) => match &e.lit {
                    None => Err(MacroError { problem: Problem::ExpectedString, at: Some(e.at) }),
                    Some(v) => set_once(
                        &mut self.rename,
                        Lit { value: v.clone(), at: e.at },
                        e.at,
                        Problem::DuplicateSerdeRename,
                    ),
                },
                MetaBody::Bare => Err(MacroError { problem: Problem::ExpectedParens, at: Some(m.at) }),
                MetaBody::List(subs, syntax) => read_directional(&mut self.directional_rename, subs, *syntax),
            },
            MetaKey::Skip => read_flag(&mut self.skip, m),
            MetaKey::SkipSerializing => read_flag(&mut self.skip_serializing, m),
            MetaKey::Flatten => read_flag(&mut self.flatten, m),
            _ => read_ignored(m),
        }
    }

    /// The settings of the `#[serde(...)]` attributes of a field, read in order.
    pub fn from_attrs(attrs: &[Attr]) -> (r: Result<Self, MacroError>)
        ensures
            match serde_field_of(attrs@) {
                Ok(s) => r matches Ok(x) && x == s,
                Err(e) => r matches Err(x) && x == e,
            },
    {
        let mut out = SerdeField {
            rename: None,
            directional_rename: None,
            skip: false,
            skip_serializing: false,
            flatten: false,
        };
        let ghost s0 = out;
        let mut i: usize = 0;
        while i < attrs.len()
            invariant
                i <= attrs@.len(),
                s0 == (SerdeField {
                    rename: None,
                    directional_rename: None,
                    skip: false,
                    skip_serializing: false,
                    flatten: false,
                }),
                serde_field_attrs(s0, attrs@, i as int) == Ok::<SerdeField, MacroError>(out),
            decreases attrs.len() - i,
        {
            let a = &attrs[i];
            let ghost before = out;
            if a.kind == AttrKind::Serde {
                let mut j: usize = 0;
                while j < a.metas.len()
                    invariant
                        j <= a.metas@.len(),
                        i < attrs@.len(),
                        *a == attrs@[i as int],
                        a.kind == AttrKind::Serde,
                        s0 == (SerdeField {
                            rename: None,
                            directional_rename: None,
                            skip: false,
                            skip_serializing: false,
                            flatten: false,
                        }),
                        serde_field_attrs(s0, attrs@, i as int) == Ok::<SerdeField, MacroError>(before),
                        serde_field_metas(before, a.metas@, j as int) == Ok::<SerdeField, MacroError>(out),
                    decreases a.metas.len() - j,
                {
                    match out.read_meta(&a.metas[j]) {
                        Err(e) => {
                            proof {
                                lemma_field_metas_err_stays(before, a.metas@, j + 1, a.metas@.len() as int);
                                lemma_field_attrs_err_stays(s0, attrs@, i + 1, attrs@.len() as int);
                            }
                            return Err(e);
                        },
                        Ok(()) => {},
                    }
                    j = j + 1;
                }
                match a.syntax {
                    Some(at) => {
                        proof {
                            lemma_field_attrs_err_stays(s0, attrs@, i + 1, attrs@.len() as int);
                        }
                        return Err(MacroError { problem: Problem::Syntax, at: Some(at) });
                    },
                    None => {},
                }
            }
            i = i + 1;
        }
        Ok(out)
    }
}

/// `http(METHOD, "path")` in `#[op(...)]`: the method as written, with the index of its
/// tokens, and the path.
#[derive(Debug, PartialEq, Eq)]
pub struct HttpArg {
    pub method: String,
    pub method_at: usize,
    pub path: Lit,
}

/// One argument of `#[op(...)]`; a Rust type is given by the index of its tokens.
#[derive(Debug, PartialEq, Eq)]
pub enum OpArg {
    Name(Lit),
    Input(usize),
    Output(usize),
    Http(HttpArg),
    Desc(Lit),
}

/// An attribute of an operation marker: whether it is `#[op(...)]`, its arguments (or the
/// index of the syntax error that kept them from being read), and the index of its tokens.
#[derive(Debug, PartialEq, Eq)]
pub struct OpAttrInput {
    pub is_op: bool,
    pub args: Result<Vec<OpArg>, usize>,
    pub at: usize,
}

/// The settings of `#[op(...)]`.
#[derive(Debug, PartialEq, Eq)]
pub struct OpAttrs {
    pub name: Option<Lit>,
    pub input: Option<usize>,
    pub output: Option<usize>,
    pub http: Option<HttpArg>,
    pub desc: Option<Lit>,
}

/// No settings.
pub open spec fn no_op_attrs() -> OpAttrs {
    OpAttrs { name: None, input: None, output: None, http: None, desc: None }
}

/// One argument read into `s`: each setting may be given once.
pub open spec fn op_arg_step(s: OpAttrs, a: OpArg) -> Result<OpAttrs, MacroError> {
    match a {
        OpArg::Name(v) => if s.name is Some {
            Err(err_at(Problem::DuplicateOpName, v.at))
        } else {
            Ok(OpAttrs { name: Some(v), ..s })
        },
        OpArg::Input(t) => if s.input is Some {
            Err(err_at(Problem::DuplicateOpInput, t))
        } else {
            Ok(OpAttrs { input: Some(t), ..s })
        },
        OpArg::Output(t) => if s.output is Some {
            Err(err_at(Problem::DuplicateOpOutput, t))
        } else {
            Ok(OpAttrs { output: Some(t), ..s })
        },
        OpArg::Http(h) => if s.http is Some {
            Err(err_at(Problem::DuplicateOpHttp, h.method_at))
        } else {
            Ok(OpAttrs { http: Some(h), ..s })
        },
        OpArg::Desc(v) => if s.desc is Some {
            Err(err_at(Problem::DuplicateOpDesc, v.at))
        } else {
            Ok(OpAttrs { desc: Some(v), ..s })
        },
    }
}

/// The first `n` arguments read into `s`, in order.
pub open spec fn op_args_fold(s: OpAttrs, args: Seq<OpArg>, n: int) -> Result<OpAttrs, MacroError>
    decreases n,
{
    if n <= 0 {
        Ok(s)
    } else {
        match op_args_fold(s, args, n - 1) {
            Err(e) => Err(e),
            Ok(t) => op_arg_step(t, args[n - 1]),
        }
    }
}

/// The first `n` attributes read into `s`, with `found` telling whether an `#[op(...)]`
/// came before: a second one is refused.
pub open spec fn op_attrs_fold(s: OpAttrs, attrs: Seq<OpAttrInput>, n: int) -> Result<
    (OpAttrs, bool),
    MacroError,
>
    decreases n,
{
    if n <= 0 {
        Ok((s, false))
    } else {
        match op_attrs_fold(s, attrs, n - 1) {
            Err(e) => Err(e),
            Ok((t, found)) => {
                let a = attrs[n - 1];
                if !a.is_op {
                    Ok((t, found))
                } else if found {
                    Err(err_at(Problem::DuplicateOpAttribute, a.at))
                } else {
                    match a.args {
                        Err(at) => Err(err_at(Problem::Syntax, at)),
                        Ok(args) => match op_args_fold(t, args@, args@.len() as int) {
                            Err(e) => Err(e),
                            Ok(u) => Ok((u, true)),
                        },
                    }
                }
            },
        }
    }
}

/// What the attributes of an operation marker give: the settings of its one `#[op(...)]`;
/// without one, an error at the derive's call site.
pub open spec fn op_attrs_of(attrs: Seq<OpAttrInput>) -> Result<OpAttrs, MacroError> {
    match op_attrs_fold(no_op_attrs(), attrs, attrs.len() as int) {
        Err(e) => Err(e),
        Ok((s, found)) => if found {
            Ok(s)
        } else {
            Err(MacroError { problem: Problem::MissingOpAttribute, at: None })
        },
    }
}

proof fn lemma_op_args_err_stays(s: OpAttrs, args: Seq<OpArg>, k: int, n: int)
    requires
        0 <= k <= n,
        op_args_fold(s, args, k) is Err,
    ensures
        op_args_fold(s, args, n) == op_args_fold(s, args, k),
    decreases n - k,
{
    if n > k {
        lemma_op_args_err_stays(s, args, k, n - 1);
    }
}

proof fn lemma_op_attrs_err_stays(s: OpAttrs, attrs: Seq<OpAttrInput>, k: int, n: int)
    requires
        0 <= k <= n,
        op_attrs_fold(s, attrs, k) is Err,
    ensures
        op_attrs_fold(s, attrs, n) == op_attrs_fold(s, attrs, k),
    decreases n - k,
{
    if n > k {
        lemma_op_attrs_err_stays(s, attrs, k, n - 1);
    }
}

impl HttpArg {
    /// A copy of the route.
    pub fn copy(&self) -> (r: HttpArg)
        ensures
            r == *self,
    {
        HttpArg { method: self.method.clone(), method_at: self.method_at, path: self.path.copy() }
    }
}

impl OpAttrs {
    /// Reads one argument.
    fn read_arg(&mut self, a: &OpArg) -> (r: Result<(), MacroError>)
        ensures
            match op_arg_step(*old(self), *a) {
                Ok(s) => r is Ok && *final(self) == s,
                Err(e) => r == Err::<(), MacroError>(e),
            },
    {
        match a {
            OpArg::Name(v) => set_once(&mut self.name, v.copy(), v.at, Problem::DuplicateOpName),
            OpArg::Input(t) => set_once(&mut self.input, *t, *t, Problem::DuplicateOpInput),
            OpArg::Output(t) => set_once(&mut self.output, *t, *t, Problem::DuplicateOpOutput),
            OpArg::Http(h) => {
                if self.http.is_some() {
                    return Err(MacroError { problem: Problem::DuplicateOpHttp, at: Some(h.method_at) });
                }
                self.http = Some(h.copy());
                Ok(())
            },
            OpArg::Desc(v) => set_once(&mut self.desc, v.copy(), v.at, Problem::DuplicateOpDesc),
        }
    }

    /// The settings of the one `#[op(...)]` attribute among `attrs`.
    pub fn from_attrs(attrs: &[OpAttrInput]) -> (r: Result<Self, MacroError>)
        ensures
            match op_attrs_of(attrs@) {
                Ok(s) => r matches Ok(x) && x == s,
                Err(e) => r matches Err(x) && x == e,
            },
    {
        let mut out = OpAttrs { name: None, input: None, output: None, http: None, desc: None };
        let mut found = false;
        let mut i: usize = 0;
        while i < attrs.len()
            invariant
                i <= attrs@.len(),
                op_attrs_fold(no_op_attrs(), attrs@, i as int) == Ok::<(OpAttrs, bool), MacroError>((out, found)),
            decreases attrs.len() - i,
        {
            let a = &attrs[i];
            if a.is_op {
                if found {
                    proof {
                        lemma_op_attrs_err_stays(no_op_attrs(), attrs@, i + 1, attrs@.len() as int);
                    }
                    return Err(MacroError { problem: Problem::DuplicateOpAttribute, at: Some(a.at) });
                }
                found = true;
                match &a.args {
                    Err(at) => {
                        proof {
                            lemma_op_attrs_err_stays(no_op_attrs(), attrs@, i + 1, attrs@.len() as int);
                        }
                        return Err(MacroError { problem: Problem::Syntax, at: Some(*at) });
                    },
                    Ok(args) => {
                        let ghost before = out;
                        let mut j: usize = 0;
                        while j < args.len()
                            invariant
                                j <= args@.len(),
                                i < attrs@.len(),
                                *a == attrs@[i as int],
                                a.is_op,
                                a.args == Ok::<Vec<OpArg>, usize>(*args),
                                op_attrs_fold(no_op_attrs(), attrs@, i as int) == Ok::<(OpAttrs, bool), MacroError>((before, false)),
                                op_args_fold(before, args@, j as int) == Ok::<OpAttrs, MacroError>(out),
                            decreases args.len() - j,
                        {
                            match out.read_arg(&args[j]) {
                                Err(e) => {
                                    proof {
                                        lemma_op_args_err_stays(before, args@, j + 1, args@.len() as int);
                                        lemma_op_attrs_err_stays(no_op_attrs(), attrs@, i + 1, attrs@.len() as int);
                                    }
                                    return Err(e);
                                },
                                Ok(()) => {},
                            }
                            j = j + 1;
                        }
                    },
                }
            }
            i = i + 1;
        }
        if !found {
            return Err(MacroError { problem: Problem::MissingOpAttribute, at: None });
        }
        Ok(out)
    }
}

} // verus!
