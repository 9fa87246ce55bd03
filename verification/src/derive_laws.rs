//! Laws of the derive plans and of the `#[serde(...)]` items they pass over: what an
//! accepted plan takes from the attributes written on the item, and which items are left
//! alone.
use vstd::prelude::*;
use crate::attr::{
    no_settings, op_attrs_of, serde_container_attrs, serde_container_metas,
    serde_container_step, serde_field_attrs, serde_field_metas, serde_field_step,
    shape_settings_of, Attr, AttrKind, Meta, MetaBody, MetaKey, OpArg, SerdeContainer, SerdeField,
    Target,
};
use crate::attr_laws::{
    items_of, law_accepted_op_settings, law_accepted_shape_settings, lit_setting,
};
use crate::derive::{method_spec, op_plan_spec, shape_plan_spec, OpInput, ShapeInput};
use crate::diag::MacroError;
use crate::model::Method;

verus! {

/// An accepted operation plan takes name, input type, output type, description and route
/// from the one `#[op(...)]` attribute, each from its own argument: the input is the type of
/// `input = ...` and the output that of `output = ...`, with or without a route; a route is
/// planned exactly where one is written, with its path and the method it names.
pub proof fn law_op_plan_takes_its_arguments(x: OpInput)
    ensures
        op_plan_spec(x) matches Ok(p) ==> (op_attrs_of(x.attrs@) matches Ok(a) && a.name == Some(p.name)
            && a.input == Some(p.input) && a.output == Some(p.output) && a.desc == p.desc && (p.http is None
            <==> a.http is None) && (p.http matches Some(r) ==> (a.http matches Some(h) && h.path == r.1
            && method_spec(h.method@, h.method_at) == Ok::<Method, MacroError>(r.0)))),
        op_plan_spec(x) matches Ok(p) ==> exists|k: int|
            0 <= k < x.attrs@.len() && (#[trigger] x.attrs@[k]).is_op && (x.attrs@[k].args matches Ok(args)
                && args@.contains(OpArg::Name(p.name)) && args@.contains(OpArg::Input(p.input))
                && args@.contains(OpArg::Output(p.output))),
{
    law_accepted_op_settings(x.attrs@);
    if let Ok(p) = op_plan_spec(x) {
        let a = op_attrs_of(x.attrs@)->Ok_0;
        let n = x.attrs@.len() as int;
        let k = choose|k: int|
            0 <= k < n && (#[trigger] x.attrs@[k]).is_op && (forall|j: int|
                0 <= j < n && j != k ==> !(#[trigger] x.attrs@[j]).is_op) && (x.attrs@[k].args matches Ok(
                args,
            ) && crate::attr_laws::op_reading(args@, args@.len() as int, a));
        let args = x.attrs@[k].args->Ok_0;
        let m = args@.len() as int;
        let wn = choose|i: int| 0 <= i < m && #[trigger] args@[i] == OpArg::Name(p.name);
        let wi = choose|i: int| 0 <= i < m && #[trigger] args@[i] == OpArg::Input(p.input);
        let wo = choose|i: int| 0 <= i < m && #[trigger] args@[i] == OpArg::Output(p.output);
        assert(args@.contains(OpArg::Name(p.name)));
        assert(args@.contains(OpArg::Input(p.input)));
        assert(args@.contains(OpArg::Output(p.output)));
    }
}

/// An accepted shape plan takes its name and description from the container's
/// `#[shape(...)]` settings: the name is the literal of the one `name = ...` item, and the
/// description that of the one `desc = ...` item, or none where no description is written.
pub proof fn law_shape_plan_takes_container_settings(x: ShapeInput)
    ensures
        shape_plan_spec(x) matches Ok(p) ==> (shape_settings_of(x.attrs@, Target::Container) matches Ok(s)
            && s.name == Some(p.name) && s.desc == p.desc),
        shape_plan_spec(x) matches Ok(p) ==> lit_setting(
            items_of(x.attrs@, AttrKind::Shape, x.attrs@.len() as int),
            items_of(x.attrs@, AttrKind::Shape, x.attrs@.len() as int).len() as int,
            MetaKey::Desc,
            None,
            p.desc,
        ) && lit_setting(
            items_of(x.attrs@, AttrKind::Shape, x.attrs@.len() as int),
            items_of(x.attrs@, AttrKind::Shape, x.attrs@.len() as int).len() as int,
            MetaKey::Name,
            None,
            Some(p.name),
        ),
{
    law_accepted_shape_settings(no_settings(), x.attrs@, Target::Container);
}

/// Whether a field's `#[serde(...)]` item is one the derive does not read: a key other than
/// `rename`, `skip`, `skip_serializing` and `flatten`, without a parenthesized list (such as
/// `default` or `default = "..."`).
pub open spec fn unread_field_item(m: Meta) -> bool {
    &&& m.key != MetaKey::Rename
    &&& m.key != MetaKey::Skip
    &&& m.key != MetaKey::SkipSerializing
    &&& m.key != MetaKey::Flatten
    &&& !(m.body is List)
}

/// Whether a container's `#[serde(...)]` item is one the derive does not read: a key other
/// than `rename_all`, without a parenthesized list (such as `tag = "kind"` or
/// `deny_unknown_fields`).
pub open spec fn unread_container_item(m: Meta) -> bool {
    m.key != MetaKey::RenameAll && !(m.body is List)
}

/// A field's `#[serde(...)]` item the derive does not read is passed over: reading it keeps
/// the settings as they are and refuses nothing.
pub proof fn law_serde_field_passes_over_unread_items(s: SerdeField, m: Meta)
    requires
        unread_field_item(m),
    ensures
        serde_field_step(s, m) == Ok::<SerdeField, MacroError>(s),
{
}

/// A container's `#[serde(...)]` item the derive does not read is passed over: reading it
/// keeps the settings as they are and refuses nothing.
pub proof fn law_serde_container_passes_over_unread_items(s: SerdeContainer, m: Meta)
    requires
        unread_container_item(m),
    ensures
        serde_container_step(s, m) == Ok::<SerdeContainer, MacroError>(s),
{
}

proof fn lemma_field_metas_unread(s: SerdeField, metas: Seq<Meta>, n: int)
    requires
        0 <= n <= metas.len(),
        forall|i: int| 0 <= i < n ==> unread_field_item(#[trigger] metas[i]),
    ensures
        serde_field_metas(s, metas, n) == Ok::<SerdeField, MacroError>(s),
    decreases n,
{
    if n > 0 {
        lemma_field_metas_unread(s, metas, n - 1);
        law_serde_field_passes_over_unread_items(s, metas[n - 1]);
    }
}

proof fn lemma_container_metas_unread(s: SerdeContainer, metas: Seq<Meta>, n: int)
    requires
        0 <= n <= metas.len(),
        forall|i: int| 0 <= i < n ==> unread_container_item(#[trigger] metas[i]),
    ensures
        serde_container_metas(s, metas, n) == Ok::<SerdeContainer, MacroError>(s),
    decreases n,
{
    if n > 0 {
        lemma_container_metas_unread(s, metas, n - 1);
        law_serde_container_passes_over_unread_items(s, metas[n - 1]);
    }
}

/// Whether every `#[serde(...)]` attribute among `attrs` was read whole and holds only items
/// that `unread` accepts.
pub open spec fn serde_attrs_only(attrs: Seq<Attr>, unread: spec_fn(Meta) -> bool) -> bool {
    forall|i: int|
        0 <= i < attrs.len() && (#[trigger] attrs[i]).kind == AttrKind::Serde ==> attrs[i].syntax is None
            && forall|j: int| 0 <= j < attrs[i].metas@.len() ==> unread(#[trigger] attrs[i].metas@[j])
}

/// Attributes whose `#[serde(...)]` items the field derive does not read (as on a field
/// written `#[serde(default)]`) leave the field's serde settings as they were.
pub proof fn law_serde_field_ignores_unread_attributes(s: SerdeField, attrs: Seq<Attr>)
    requires
        serde_attrs_only(attrs, |m: Meta| unread_field_item(m)),
    ensures
        serde_field_attrs(s, attrs, attrs.len() as int) == Ok::<SerdeField, MacroError>(s),
    decreases attrs.len(),
{
    if attrs.len() > 0 {
        let d = attrs.drop_last();
        assert forall|i: int| 0 <= i < d.len() && (#[trigger] d[i]).kind == AttrKind::Serde implies d[i].syntax is None
            && forall|j: int| 0 <= j < d[i].metas@.len() ==> unread_field_item(#[trigger] d[i].metas@[j]) by {
            assert(d[i] == attrs[i]);
        }
        law_serde_field_ignores_unread_attributes(s, d);
        lemma_field_attrs_prefix(s, attrs, d, d.len() as int);
        let a = attrs.last();
        assert(a == attrs[attrs.len() - 1]);
        if a.kind == AttrKind::Serde {
            lemma_field_metas_unread(s, a.metas@, a.metas@.len() as int);
        }
    }
}

/// Attributes whose `#[serde(...)]` items the container derive does not read (as
/// `#[serde(tag = "kind", deny_unknown_fields)]`) leave the container's serde settings as
/// they were.
pub proof fn law_serde_container_ignores_unread_attributes(s: SerdeContainer, attrs: Seq<Attr>)
    requires
        serde_attrs_only(attrs, |m: Meta| unread_container_item(m)),
    ensures
        serde_container_attrs(s, attrs, attrs.len() as int) == Ok::<SerdeContainer, MacroError>(s),
    decreases attrs.len(),
{
    if attrs.len() > 0 {
        let d = attrs.drop_last();
        assert forall|i: int| 0 <= i < d.len() && (#[trigger] d[i]).kind == AttrKind::Serde implies d[i].syntax is None
            && forall|j: int| 0 <= j < d[i].metas@.len() ==> unread_container_item(#[trigger] d[i].metas@[j]) by {
            assert(d[i] == attrs[i]);
        }
        law_serde_container_ignores_unread_attributes(s, d);
        lemma_container_attrs_prefix(s, attrs, d, d.len() as int);
        let a = attrs.last();
        assert(a == attrs[attrs.len() - 1]);
        if a.kind == AttrKind::Serde {
            lemma_container_metas_unread(s, a.metas@, a.metas@.len() as int);
        }
    }
}

proof fn lemma_field_attrs_prefix(s: SerdeField, x: Seq<Attr>, y: Seq<Attr>, m: int)
    requires
        0 <= m <= x.len(),
        m <= y.len(),
        forall|i: int| 0 <= i < m ==> x[i] == y[i],
    ensures
        serde_field_attrs(s, x, m) == serde_field_attrs(s, y, m),
    decreases m,
{
    if m > 0 {
        lemma_field_attrs_prefix(s, x, y, m - 1);
    }
}

proof fn lemma_container_attrs_prefix(s: SerdeContainer, x: Seq<Attr>, y: Seq<Attr>, m: int)
    requires
        0 <= m <= x.len(),
        m <= y.len(),
        forall|i: int| 0 <= i < m ==> x[i] == y[i],
    ensures
        serde_container_attrs(s, x, m) == serde_container_attrs(s, y, m),
    decreases m,
{
    if m > 0 {
        lemma_container_attrs_prefix(s, x, y, m - 1);
    }
}

} // verus!
