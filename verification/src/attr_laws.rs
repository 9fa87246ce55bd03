//! Laws of the attribute readers: what the settings they accept hold, stated over the items
//! of the attributes they read, taken in the order they were written.
use vstd::prelude::*;
use crate::attr::{
    directional_fold, directional_step, serde_container_attrs,
    serde_container_metas, serde_container_step, serde_field_attrs, serde_field_metas,
    serde_field_step, SerdeContainer, SerdeField, SubBody, SubMeta,
    expr_of, lit_of, no_op_attrs, op_arg_step, op_args_fold, op_attrs_fold, op_attrs_of,
    shape_attrs_spec, shape_meta_step, shape_metas, Attr, AttrKind, ExprArg,
    Lit, Meta, MetaBody, MetaKey, OpArg, OpAttrInput, OpAttrs, ShapeSettings, Target,
};
use crate::diag::{MacroError, Problem};

verus! {

/// The items of the attributes of kind `kind` among the first `n`, one attribute after the
/// other, each in the order written.
pub open spec fn items_of(attrs: Seq<Attr>, kind: AttrKind, n: int) -> Seq<Meta>
    decreases n,
{
    if n <= 0 {
        Seq::<Meta>::empty()
    } else if attrs[n - 1].kind == kind {
        items_of(attrs, kind, n - 1) + attrs[n - 1].metas@
    } else {
        items_of(attrs, kind, n - 1)
    }
}

/// How many of the first `n` items have the key `key`.
pub open spec fn key_count(items: Seq<Meta>, key: MetaKey, n: int) -> nat
    decreases n,
{
    if n <= 0 {
        0
    } else {
        key_count(items, key, n - 1) + if items[n - 1].key == key {
            1nat
        } else {
            0nat
        }
    }
}

/// The expressions of the `source = ...` items among the first `n`, in order.
pub open spec fn source_exprs(items: Seq<Meta>, n: int) -> Seq<ExprArg>
    decreases n,
{
    if n <= 0 {
        Seq::<ExprArg>::empty()
    } else {
        let r = source_exprs(items, n - 1);
        match items[n - 1].body {
            MetaBody::Value(e) => if items[n - 1].key == MetaKey::Source {
                r.push(e)
            } else {
                r
            },
            _ => r,
        }
    }
}

/// A string setting read from the first `n` items: where no item has `key` it is what it was
/// before; otherwise exactly one item has it, the setting was empty before, and it is now
/// that item's literal.
pub open spec fn lit_setting(items: Seq<Meta>, n: int, key: MetaKey, before: Option<Lit>, after: Option<Lit>) -> bool {
    ||| key_count(items, key, n) == 0 && after == before
    ||| key_count(items, key, n) == 1 && before is None && (after matches Some(v) && exists|i: int|
        0 <= i < n && items[i].key == key && #[trigger] lit_of(items[i]) == Ok::<Lit, crate::diag::MacroError>(v))
}

/// An expression setting read from the first `n` items, as `lit_setting` says of a string.
pub open spec fn expr_setting(items: Seq<Meta>, n: int, key: MetaKey, before: Option<ExprArg>, after: Option<ExprArg>) -> bool {
    ||| key_count(items, key, n) == 0 && after == before
    ||| key_count(items, key, n) == 1 && before is None && (after matches Some(v) && exists|i: int|
        0 <= i < n && items[i].key == key && #[trigger] expr_of(items[i]) == Ok::<ExprArg, crate::diag::MacroError>(v))
}

/// Whether an item key is one `#[shape(...)]` knows.
pub open spec fn shape_key(k: MetaKey) -> bool {
    k == MetaKey::Name || k == MetaKey::Desc || k == MetaKey::Calc || k == MetaKey::Grain || k
        == MetaKey::Source
}

/// What settings `t` read from `s` through the first `n` items hold: every item has a key
/// `#[shape(...)]` knows; name, description, calc and grain each come from their one item,
/// or stay as they were; the sources are those before, then each `source` item in order.
pub open spec fn shape_reading(s: ShapeSettings, items: Seq<Meta>, n: int, t: ShapeSettings) -> bool {
    &&& forall|i: int| 0 <= i < n ==> shape_key(#[trigger] items[i].key)
    &&& lit_setting(items, n, MetaKey::Name, s.name, t.name)
    &&& lit_setting(items, n, MetaKey::Desc, s.desc, t.desc)
    &&& lit_setting(items, n, MetaKey::Calc, s.calc, t.calc)
    &&& expr_setting(items, n, MetaKey::Grain, s.grain, t.grain)
    &&& t.sources == s.sources + source_exprs(items, n)
}

proof fn lemma_shape_metas_prefix(s: ShapeSettings, x: Seq<Meta>, y: Seq<Meta>, m: int, target: Target)
    requires
        0 <= m <= x.len(),
        m <= y.len(),
        forall|i: int| 0 <= i < m ==> x[i] == y[i],
    ensures
        shape_metas(s, x, m, target) == shape_metas(s, y, m, target),
    decreases m,
{
    if m > 0 {
        lemma_shape_metas_prefix(s, x, y, m - 1, target);
    }
}

proof fn lemma_shape_metas_append(s: ShapeSettings, a: Seq<Meta>, b: Seq<Meta>, k: int, target: Target)
    requires
        0 <= k <= b.len(),
    ensures
        shape_metas(s, a + b, a.len() + k, target) == match shape_metas(s, a, a.len() as int, target) {
            Ok(u) => shape_metas(u, b, k, target),
            Err(e) => Err(e),
        },
    decreases k,
{
    if k == 0 {
        lemma_shape_metas_prefix(s, a + b, a, a.len() as int, target);
    } else {
        lemma_shape_metas_append(s, a, b, k - 1, target);
        assert((a + b)[a.len() + k - 1] == b[k - 1]);
    }
}

proof fn lemma_shape_attrs_flat(s: ShapeSettings, attrs: Seq<Attr>, n: int, target: Target)
    requires
        0 <= n <= attrs.len(),
    ensures
        shape_attrs_spec(s, attrs, n, target) matches Ok(t) ==> shape_metas(
            s,
            items_of(attrs, AttrKind::Shape, n),
            items_of(attrs, AttrKind::Shape, n).len() as int,
            target,
        ) == Ok::<ShapeSettings, crate::diag::MacroError>(t),
    decreases n,
{
    if n > 0 {
        lemma_shape_attrs_flat(s, attrs, n - 1, target);
        let a = attrs[n - 1];
        let prev = items_of(attrs, AttrKind::Shape, n - 1);
        if a.kind == AttrKind::Shape {
            lemma_shape_metas_append(s, prev, a.metas@, a.metas@.len() as int, target);
        }
    }
}

proof fn lemma_shape_metas_reading(s: ShapeSettings, items: Seq<Meta>, n: int, target: Target)
    requires
        0 <= n <= items.len(),
    ensures
        shape_metas(s, items, n, target) matches Ok(t) ==> shape_reading(s, items, n, t),
    decreases n,
{
    if n > 0 {
        lemma_shape_metas_reading(s, items, n - 1, target);
        if let Ok(u) = shape_metas(s, items, n - 1, target) {
            let m = items[n - 1];
            if let Ok(t) = shape_meta_step(u, m, target) {
                assert forall|i: int| 0 <= i < n implies shape_key(#[trigger] items[i].key) by {
                    if i < n - 1 {
                        assert(shape_key(items[i].key));
                    }
                }
                if m.key == MetaKey::Name {
                    assert(lit_of(items[n - 1]) == Ok::<Lit, crate::diag::MacroError>(t.name->0));
                } else if m.key == MetaKey::Desc {
                    assert(lit_of(items[n - 1]) == Ok::<Lit, crate::diag::MacroError>(t.desc->0));
                } else if m.key == MetaKey::Calc {
                    assert(lit_of(items[n - 1]) == Ok::<Lit, crate::diag::MacroError>(t.calc->0));
                } else if m.key == MetaKey::Grain {
                    assert(expr_of(items[n - 1]) == Ok::<ExprArg, crate::diag::MacroError>(t.grain->0));
                } else {
                    assert(s.sources + source_exprs(items, n) =~= (s.sources + source_exprs(items, n - 1)).push(
                        t.sources.last(),
                    ));
                }
            }
        }
    }
}

/// What `#[shape(...)]` settings hold once every attribute is accepted, from the settings
/// `s` read so far: the items of all `#[shape(...)]` attributes, in the order written, have
/// known keys; name, description, calc and grain each come from their single item or stay as
/// they were (a setting given before may not be given again); and the sources are those
/// before followed by every `source` item in order. Other attributes are passed over.
pub proof fn law_accepted_shape_settings(s: ShapeSettings, attrs: Seq<Attr>, target: Target)
    ensures
        shape_attrs_spec(s, attrs, attrs.len() as int, target) matches Ok(t) ==> shape_reading(
            s,
            items_of(attrs, AttrKind::Shape, attrs.len() as int),
            items_of(attrs, AttrKind::Shape, attrs.len() as int).len() as int,
            t,
        ),
{
    let items = items_of(attrs, AttrKind::Shape, attrs.len() as int);
    lemma_shape_attrs_flat(s, attrs, attrs.len() as int, target);
    lemma_shape_metas_reading(s, items, items.len() as int, target);
}

/// How many of the first `n` arguments are of the kind `kind`.
pub open spec fn arg_count(args: Seq<OpArg>, n: int, kind: spec_fn(OpArg) -> bool) -> nat
    decreases n,
{
    if n <= 0 {
        0
    } else {
        arg_count(args, n - 1, kind) + if kind(args[n - 1]) {
            1nat
        } else {
            0nat
        }
    }
}

/// A setting of `#[op(...)]`, given back as the argument that sets it, read from the first
/// `n` arguments: unset where no argument is of its kind; otherwise exactly one argument is,
/// and the setting is that argument.
pub open spec fn arg_setting(args: Seq<OpArg>, n: int, kind: spec_fn(OpArg) -> bool, after: Option<OpArg>) -> bool {
    ||| arg_count(args, n, kind) == 0 && after is None
    ||| arg_count(args, n, kind) == 1 && (after matches Some(a) && kind(a) && exists|i: int|
        0 <= i < n && #[trigger] args[i] == a)
}

/// The settings of `#[op(...)]`, each as the argument that sets it.
pub open spec fn op_settings_as_args(o: OpAttrs) -> (Option<OpArg>, Option<OpArg>, Option<OpArg>, Option<OpArg>, Option<OpArg>) {
    (
        match o.name { Some(v) => Some(OpArg::Name(v)), None => None },
        match o.input { Some(v) => Some(OpArg::Input(v)), None => None },
        match o.output { Some(v) => Some(OpArg::Output(v)), None => None },
        match o.http { Some(v) => Some(OpArg::Http(v)), None => None },
        match o.desc { Some(v) => Some(OpArg::Desc(v)), None => None },
    )
}

/// What settings `o` read from the first `n` arguments hold: name, input, output, route and
/// description are each set by their one argument, or left unset where none is given.
pub open spec fn op_reading(args: Seq<OpArg>, n: int, o: OpAttrs) -> bool {
    let (name, input, output, http, desc) = op_settings_as_args(o);
    &&& arg_setting(args, n, |a: OpArg| a is Name, name)
    &&& arg_setting(args, n, |a: OpArg| a is Input, input)
    &&& arg_setting(args, n, |a: OpArg| a is Output, output)
    &&& arg_setting(args, n, |a: OpArg| a is Http, http)
    &&& arg_setting(args, n, |a: OpArg| a is Desc, desc)
}

proof fn lemma_op_args_reading(args: Seq<OpArg>, n: int)
    requires
        0 <= n <= args.len(),
    ensures
        op_args_fold(no_op_attrs(), args, n) matches Ok(t) ==> op_reading(args, n, t),
        op_args_fold(no_op_attrs(), args, n) matches Err(e) ==> e.at is Some,
    decreases n,
{
    if n > 0 {
        lemma_op_args_reading(args, n - 1);
        if let Ok(u) = op_args_fold(no_op_attrs(), args, n - 1) {
            let a = args[n - 1];
            if let Ok(t) = op_arg_step(u, a) {
                assert(args[n - 1] == a);
            }
        }
    }
}

proof fn lemma_op_attrs_fold_one(attrs: Seq<OpAttrInput>, n: int)
    requires
        0 <= n <= attrs.len(),
    ensures
        op_attrs_fold(no_op_attrs(), attrs, n) matches Err(e) ==> e.at is Some,
        (forall|i: int| 0 <= i < n ==> !(#[trigger] attrs[i]).is_op) ==> op_attrs_fold(
            no_op_attrs(),
            attrs,
            n,
        ) == Ok::<(OpAttrs, bool), MacroError>((no_op_attrs(), false)),
        op_attrs_fold(no_op_attrs(), attrs, n) matches Ok((t, found)) ==> {
            &&& !found ==> t == no_op_attrs() && forall|i: int| 0 <= i < n ==> !(#[trigger] attrs[i]).is_op
            &&& found ==> exists|k: int|
                0 <= k < n && (#[trigger] attrs[k]).is_op && (forall|j: int|
                    0 <= j < n && j != k ==> !(#[trigger] attrs[j]).is_op) && (attrs[k].args matches Ok(args)
                    && op_args_fold(no_op_attrs(), args@, args@.len() as int) == Ok::<OpAttrs, MacroError>(t))
        },
    decreases n,
{
    if n > 0 {
        lemma_op_attrs_fold_one(attrs, n - 1);
        let a = attrs[n - 1];
        if forall|i: int| 0 <= i < n ==> !(#[trigger] attrs[i]).is_op {
            assert(forall|i: int| 0 <= i < n - 1 ==> !(#[trigger] attrs[i]).is_op);
            assert(!attrs[n - 1].is_op);
        }
        if let Ok(args) = a.args {
            lemma_op_args_reading(args@, args@.len() as int);
        }
        if let Ok((t, found)) = op_attrs_fold(no_op_attrs(), attrs, n - 1) {
            if found && !a.is_op {
                let k = choose|k: int|
                    0 <= k < n - 1 && (#[trigger] attrs[k]).is_op && (forall|j: int|
                        0 <= j < n - 1 && j != k ==> !(#[trigger] attrs[j]).is_op) && (attrs[k].args matches Ok(args)
                        && op_args_fold(no_op_attrs(), args@, args@.len() as int) == Ok::<OpAttrs, MacroError>(t));
                assert forall|j: int| 0 <= j < n && j != k implies !(#[trigger] attrs[j]).is_op by {
                    if j < n - 1 {
                        assert(!attrs[j].is_op);
                    }
                }
            }
            if !found && a.is_op {
                assert forall|j: int| 0 <= j < n && j != n - 1 implies !(#[trigger] attrs[j]).is_op by {
                    assert(!attrs[j].is_op);
                }
            }
        }
    }
}

/// What `#[op(...)]` reading gives: the error for a missing attribute exactly where no
/// attribute is `#[op(...)]`; and, where it accepts, exactly one attribute is `#[op(...)]`,
/// its arguments were read, and name, input, output, route and description are each set by
/// their one argument or left unset where none is given.
pub proof fn law_accepted_op_settings(attrs: Seq<OpAttrInput>)
    ensures
        op_attrs_of(attrs) == Err::<OpAttrs, MacroError>(
            (MacroError { problem: Problem::MissingOpAttribute, at: None }),
        ) <==> forall|i: int| 0 <= i < attrs.len() ==> !(#[trigger] attrs[i]).is_op,
        op_attrs_of(attrs) matches Ok(o) ==> exists|k: int|
            0 <= k < attrs.len() && (#[trigger] attrs[k]).is_op && (forall|j: int|
                0 <= j < attrs.len() && j != k ==> !(#[trigger] attrs[j]).is_op) && (attrs[k].args matches Ok(
                args,
            ) && op_reading(args@, args@.len() as int, o)),
{
    let n = attrs.len() as int;
    lemma_op_attrs_fold_one(attrs, n);
    if let Ok((t, found)) = op_attrs_fold(no_op_attrs(), attrs, n) {
        if found {
            let k = choose|k: int|
                0 <= k < n && (#[trigger] attrs[k]).is_op && (forall|j: int|
                    0 <= j < n && j != k ==> !(#[trigger] attrs[j]).is_op) && (attrs[k].args matches Ok(args)
                    && op_args_fold(no_op_attrs(), args@, args@.len() as int) == Ok::<OpAttrs, MacroError>(t));
            if let Ok(args) = attrs[k].args {
                lemma_op_args_reading(args@, args@.len() as int);
            }
            assert(!(forall|i: int| 0 <= i < n ==> !(#[trigger] attrs[i]).is_op)) by {
                assert(attrs[k].is_op);
            }
        }
    }
}

/// Whether a nested item names a direction: `serialize` or `deserialize`.
pub open spec fn is_direction(sub: SubMeta) -> bool {
    sub.key == MetaKey::Serialize || sub.key == MetaKey::Deserialize
}

/// The string literal given to a nested item, where it has one.
pub open spec fn sub_lit(sub: SubMeta) -> Option<Lit> {
    match sub.body {
        SubBody::Value(e) => match e.lit {
            Some(v) => Some(Lit { value: v, at: e.at }),
            None => None,
        },
        _ => None,
    }
}

/// A directional name read from the first `m` nested items: kept where one was read before;
/// otherwise the literal of the first `serialize` or `deserialize` item, or none where no
/// item names a direction.
pub open spec fn direction_setting(subs: Seq<SubMeta>, m: int, before: Option<Lit>, after: Option<Lit>) -> bool {
    if before is Some {
        after == before
    } else {
        match after {
            None => forall|i: int| 0 <= i < m ==> !is_direction(#[trigger] subs[i]),
            Some(v) => exists|k: int|
                0 <= k < m && is_direction(#[trigger] subs[k]) && sub_lit(subs[k]) == Some(v)
                    && forall|j: int| 0 <= j < k ==> !is_direction(#[trigger] subs[j]),
        }
    }
}

/// The nested items of the first `n` items that have the key `key` and a parenthesized list,
/// one list after the other.
pub open spec fn list_subs(items: Seq<Meta>, n: int, key: MetaKey) -> Seq<SubMeta>
    decreases n,
{
    if n <= 0 {
        Seq::<SubMeta>::empty()
    } else {
        match items[n - 1].body {
            MetaBody::List(subs, _) => if items[n - 1].key == key {
                list_subs(items, n - 1, key) + subs@
            } else {
                list_subs(items, n - 1, key)
            },
            _ => list_subs(items, n - 1, key),
        }
    }
}

/// How many of the first `n` items have the key `key` and a value after `=`.
pub open spec fn value_count(items: Seq<Meta>, n: int, key: MetaKey) -> nat
    decreases n,
{
    if n <= 0 {
        0
    } else {
        value_count(items, n - 1, key) + if items[n - 1].key == key && items[n - 1].body is Value {
            1nat
        } else {
            0nat
        }
    }
}

/// A `key = "..."` setting read from the first `n` items: what it was where no such item is
/// given; otherwise exactly one is, the setting was empty before, and it is now its literal.
pub open spec fn value_setting(items: Seq<Meta>, n: int, key: MetaKey, before: Option<Lit>, after: Option<Lit>) -> bool {
    ||| value_count(items, n, key) == 0 && after == before
    ||| value_count(items, n, key) == 1 && before is None && (after matches Some(v) && exists|i: int|
        0 <= i < n && items[i].key == key && items[i].body is Value && #[trigger] lit_of(items[i])
            == Ok::<Lit, MacroError>(v))
}

/// A flag read from the first `n` items: set where it was set before or an item has `key`.
pub open spec fn flag_setting(items: Seq<Meta>, n: int, key: MetaKey, before: bool, after: bool) -> bool {
    after == (before || exists|i: int| 0 <= i < n && (#[trigger] items[i]).key == key)
}

/// What field settings `t` read from `s` through the first `n` items of `#[serde(...)]` hold.
pub open spec fn serde_field_reading(s: SerdeField, items: Seq<Meta>, n: int, t: SerdeField) -> bool {
    let subs = list_subs(items, n, MetaKey::Rename);
    &&& value_setting(items, n, MetaKey::Rename, s.rename, t.rename)
    &&& direction_setting(subs, subs.len() as int, s.directional_rename, t.directional_rename)
    &&& flag_setting(items, n, MetaKey::Skip, s.skip, t.skip)
    &&& flag_setting(items, n, MetaKey::SkipSerializing, s.skip_serializing, t.skip_serializing)
    &&& flag_setting(items, n, MetaKey::Flatten, s.flatten, t.flatten)
}

/// What container settings `t` read from `s` through the first `n` items of `#[serde(...)]`
/// hold.
pub open spec fn serde_container_reading(s: SerdeContainer, items: Seq<Meta>, n: int, t: SerdeContainer) -> bool {
    let subs = list_subs(items, n, MetaKey::RenameAll);
    &&& value_setting(items, n, MetaKey::RenameAll, s.rename_all, t.rename_all)
    &&& direction_setting(subs, subs.len() as int, s.directional_rename_all, t.directional_rename_all)
}

proof fn lemma_directional_fold(cur: Option<Lit>, subs: Seq<SubMeta>, m: int)
    requires
        0 <= m <= subs.len(),
    ensures
        directional_fold(cur, subs, m) matches Ok(d) ==> direction_setting(subs, m, cur, d),
    decreases m,
{
    if m > 0 {
        lemma_directional_fold(cur, subs, m - 1);
        if let Ok(c) = directional_fold(cur, subs, m - 1) {
            let sub = subs[m - 1];
            if let Ok(d) = directional_step(c, sub) {
                if cur is None {
                    if c is None {
                        assert forall|i: int| 0 <= i < m - 1 implies !is_direction(#[trigger] subs[i]) by {}
                        if is_direction(sub) {
                            assert(sub_lit(subs[m - 1]) == d);
                            assert(forall|j: int| 0 <= j < m - 1 ==> !is_direction(#[trigger] subs[j]));
                        }
                    } else {
                        let v = c->0;
                        let k = choose|k: int|
                            0 <= k < m - 1 && is_direction(#[trigger] subs[k]) && sub_lit(subs[k]) == Some(v)
                                && forall|j: int| 0 <= j < k ==> !is_direction(#[trigger] subs[j]);
                        assert(0 <= k < m && is_direction(subs[k]));
                    }
                }
            }
        }
    }
}

proof fn lemma_direction_concat(a: Seq<SubMeta>, b: Seq<SubMeta>, before: Option<Lit>, mid: Option<Lit>, after: Option<Lit>)
    requires
        direction_setting(a, a.len() as int, before, mid),
        direction_setting(b, b.len() as int, mid, after),
    ensures
        direction_setting(a + b, (a + b).len() as int, before, after),
{
    let ab = a + b;
    if before is None {
        if mid is None {
            match after {
                None => {
                    assert forall|i: int| 0 <= i < ab.len() implies !is_direction(#[trigger] ab[i]) by {
                        if i < a.len() {
                            assert(ab[i] == a[i]);
                        } else {
                            assert(ab[i] == b[i - a.len()]);
                        }
                    }
                },
                Some(v) => {
                    let k = choose|k: int|
                        0 <= k < b.len() && is_direction(#[trigger] b[k]) && sub_lit(b[k]) == Some(v)
                            && forall|j: int| 0 <= j < k ==> !is_direction(#[trigger] b[j]);
                    assert(ab[a.len() + k] == b[k]);
                    assert forall|j: int| 0 <= j < a.len() + k implies !is_direction(#[trigger] ab[j]) by {
                        if j < a.len() {
                            assert(ab[j] == a[j]);
                        } else {
                            assert(ab[j] == b[j - a.len()]);
                        }
                    }
                },
            }
        } else {
            let v = mid->0;
            let k = choose|k: int|
                0 <= k < a.len() && is_direction(#[trigger] a[k]) && sub_lit(a[k]) == Some(v)
                    && forall|j: int| 0 <= j < k ==> !is_direction(#[trigger] a[j]);
            assert(ab[k] == a[k]);
            assert forall|j: int| 0 <= j < k implies !is_direction(#[trigger] ab[j]) by {
                assert(ab[j] == a[j]);
            }
        }
    }
}

proof fn lemma_field_metas_prefix(s: SerdeField, x: Seq<Meta>, y: Seq<Meta>, m: int)
    requires
        0 <= m <= x.len(),
        m <= y.len(),
        forall|i: int| 0 <= i < m ==> x[i] == y[i],
    ensures
        serde_field_metas(s, x, m) == serde_field_metas(s, y, m),
    decreases m,
{
    if m > 0 {
        lemma_field_metas_prefix(s, x, y, m - 1);
    }
}

proof fn lemma_field_metas_append(s: SerdeField, a: Seq<Meta>, b: Seq<Meta>, k: int)
    requires
        0 <= k <= b.len(),
    ensures
        serde_field_metas(s, a + b, a.len() + k) == match serde_field_metas(s, a, a.len() as int) {
            Ok(u) => serde_field_metas(u, b, k),
            Err(e) => Err(e),
        },
    decreases k,
{
    if k == 0 {
        lemma_field_metas_prefix(s, a + b, a, a.len() as int);
    } else {
        lemma_field_metas_append(s, a, b, k - 1);
        assert((a + b)[a.len() + k - 1] == b[k - 1]);
    }
}

proof fn lemma_field_attrs_flat(s: SerdeField, attrs: Seq<Attr>, n: int)
    requires
        0 <= n <= attrs.len(),
    ensures
        serde_field_attrs(s, attrs, n) matches Ok(t) ==> serde_field_metas(
            s,
            items_of(attrs, AttrKind::Serde, n),
            items_of(attrs, AttrKind::Serde, n).len() as int,
        ) == Ok::<SerdeField, MacroError>(t),
    decreases n,
{
    if n > 0 {
        lemma_field_attrs_flat(s, attrs, n - 1);
        let a = attrs[n - 1];
        if a.kind == AttrKind::Serde {
            lemma_field_metas_append(s, items_of(attrs, AttrKind::Serde, n - 1), a.metas@, a.metas@.len() as int);
        }
    }
}

proof fn lemma_field_metas_reading(s: SerdeField, items: Seq<Meta>, n: int)
    requires
        0 <= n <= items.len(),
    ensures
        serde_field_metas(s, items, n) matches Ok(t) ==> serde_field_reading(s, items, n, t),
    decreases n,
{
    if n > 0 {
        lemma_field_metas_reading(s, items, n - 1);
        if let Ok(u) = serde_field_metas(s, items, n - 1) {
            let m = items[n - 1];
            if let Ok(t) = serde_field_step(u, m) {
                let prev = list_subs(items, n - 1, MetaKey::Rename);
                if m.key == MetaKey::Rename {
                    match m.body {
                        MetaBody::Value(e) => {
                            assert(lit_of(items[n - 1]) == Ok::<Lit, MacroError>(t.rename->0));
                        },
                        MetaBody::List(subs, syntax) => {
                            lemma_directional_fold(u.directional_rename, subs@, subs@.len() as int);
                            lemma_direction_concat(prev, subs@, s.directional_rename, u.directional_rename, t.directional_rename);
                        },
                        MetaBody::Bare => {},
                    }
                }
                assert(m == items[n - 1]);
            }
        }
    }
}

/// What a field's `#[serde(...)]` settings hold once every attribute is accepted, from the
/// settings `s` read so far, over the items of all its `#[serde(...)]` attributes in the order
/// written: `rename = "..."` comes from its one item (a second is refused); the directional
/// rename is the first `serialize` or `deserialize` literal in the `rename(...)` lists; `skip`,
/// `skip_serializing` and `flatten` are set exactly where their item is given; everything else
/// is passed over.
pub proof fn law_accepted_serde_field(s: SerdeField, attrs: Seq<Attr>)
    ensures
        serde_field_attrs(s, attrs, attrs.len() as int) matches Ok(t) ==> serde_field_reading(
            s,
            items_of(attrs, AttrKind::Serde, attrs.len() as int),
            items_of(attrs, AttrKind::Serde, attrs.len() as int).len() as int,
            t,
        ),
{
    let items = items_of(attrs, AttrKind::Serde, attrs.len() as int);
    lemma_field_attrs_flat(s, attrs, attrs.len() as int);
    lemma_field_metas_reading(s, items, items.len() as int);
}

proof fn lemma_container_metas_prefix(s: SerdeContainer, x: Seq<Meta>, y: Seq<Meta>, m: int)
    requires
        0 <= m <= x.len(),
        m <= y.len(),
        forall|i: int| 0 <= i < m ==> x[i] == y[i],
    ensures
        serde_container_metas(s, x, m) == serde_container_metas(s, y, m),
    decreases m,
{
    if m > 0 {
        lemma_container_metas_prefix(s, x, y, m - 1);
    }
}

proof fn lemma_container_metas_append(s: SerdeContainer, a: Seq<Meta>, b: Seq<Meta>, k: int)
    requires
        0 <= k <= b.len(),
    ensures
        serde_container_metas(s, a + b, a.len() + k) == match serde_container_metas(s, a, a.len() as int) {
            Ok(u) => serde_container_metas(u, b, k),
            Err(e) => Err(e),
        },
    decreases k,
{
    if k == 0 {
        lemma_container_metas_prefix(s, a + b, a, a.len() as int);
    } else {
        lemma_container_metas_append(s, a, b, k - 1);
        assert((a + b)[a.len() + k - 1] == b[k - 1]);
    }
}

proof fn lemma_container_attrs_flat(s: SerdeContainer, attrs: Seq<Attr>, n: int)
    requires
        0 <= n <= attrs.len(),
    ensures
        serde_container_attrs(s, attrs, n) matches Ok(t) ==> serde_container_metas(
            s,
            items_of(attrs, AttrKind::Serde, n),
            items_of(attrs, AttrKind::Serde, n).len() as int,
        ) == Ok::<SerdeContainer, MacroError>(t),
    decreases n,
{
    if n > 0 {
        lemma_container_attrs_flat(s, attrs, n - 1);
        let a = attrs[n - 1];
        if a.kind == AttrKind::Serde {
            lemma_container_metas_append(s, items_of(attrs, AttrKind::Serde, n - 1), a.metas@, a.metas@.len() as int);
        }
    }
}

proof fn lemma_container_metas_reading(s: SerdeContainer, items: Seq<Meta>, n: int)
    requires
        0 <= n <= items.len(),
    ensures
        serde_container_metas(s, items, n) matches Ok(t) ==> serde_container_reading(s, items, n, t),
    decreases n,
{
    if n > 0 {
        lemma_container_metas_reading(s, items, n - 1);
        if let Ok(u) = serde_container_metas(s, items, n - 1) {
            let m = items[n - 1];
            if let Ok(t) = serde_container_step(u, m) {
                let prev = list_subs(items, n - 1, MetaKey::RenameAll);
                if m.key == MetaKey::RenameAll {
                    match m.body {
                        MetaBody::Value(e) => {
                            assert(lit_of(items[n - 1]) == Ok::<Lit, MacroError>(t.rename_all->0));
                        },
                        MetaBody::List(subs, syntax) => {
                            lemma_directional_fold(u.directional_rename_all, subs@, subs@.len() as int);
                            lemma_direction_concat(prev, subs@, s.directional_rename_all, u.directional_rename_all, t.directional_rename_all);
                        },
                        MetaBody::Bare => {},
                    }
                }
                assert(m == items[n - 1]);
            }
        }
    }
}

/// What a container's `#[serde(...)]` settings hold once every attribute is accepted, from
/// the settings `s` read so far, over the items of all its `#[serde(...)]` attributes in the
/// order written: `rename_all = "..."` comes from its one item (a second is refused); the
/// directional rule is the first `serialize` or `deserialize` literal in the
/// `rename_all(...)` lists; every other item (`tag = "kind"`, `deny_unknown_fields`, ...) is
/// passed over.
pub proof fn law_accepted_serde_container(s: SerdeContainer, attrs: Seq<Attr>)
    ensures
        serde_container_attrs(s, attrs, attrs.len() as int) matches Ok(t) ==> serde_container_reading(
            s,
            items_of(attrs, AttrKind::Serde, attrs.len() as int),
            items_of(attrs, AttrKind::Serde, attrs.len() as int).len() as int,
            t,
        ),
{
    let items = items_of(attrs, AttrKind::Serde, attrs.len() as int);
    lemma_container_attrs_flat(s, attrs, attrs.len() as int);
    lemma_container_metas_reading(s, items, items.len() as int);
}

} // verus!
