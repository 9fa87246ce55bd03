//! Properties of the index check, its error messages, the sort, tool schemas, shape
//! settings and words that hold on every input.
use vstd::prelude::*;
use crate::attr::{
    shape_attrs_spec, shape_metas, shape_settings_of, Attr, Meta,
    ShapeSettings, Target,
};
use crate::case::{is_separator, nonempty_lower, pieces, words_spec};
use crate::check::{
    check_spec, message_spec, Error, field_error, field_name_repeats, fields_result, first_field_error,
    first_missing_field, first_op_error, first_type_error, has_type, metric_error, op_error,
    op_name_repeats, schema_properties, some_source_blank, type_error, type_name_repeats,
};
use crate::json::{json_view, Json};
use crate::model::{Field, Index, Metric, Type};
use crate::order::{lemma_lex_trichotomy, named, sorted_by_name, with_name, Named};
use crate::text::{ascii_lower, blank, lower_seq};
use crate::tool::{desc_view, is_function_tool, openai_spec, tool_schema_spec, Tool};

verus! {

/// A metric is well formed: calc, grain and every source are not blank.
pub open spec fn metric_ok(m: Metric) -> bool {
    &&& !blank(m.calc@)
    &&& (m.grain matches Some(g) ==> !blank(g@))
    &&& forall|i: int| 0 <= i < m.sources@.len() ==> !blank((#[trigger] m.sources@[i])@)
}

/// The fields of a type are well formed: names not blank and pairwise distinct, metrics well
/// formed, and, when there is a field, the schema has a `properties` object naming each one.
pub open spec fn fields_ok(ty: Type) -> bool {
    let fs = ty.fields@;
    &&& forall|k: int| 0 <= k < fs.len() ==> !blank((#[trigger] fs[k]).name@)
    &&& forall|j: int, k: int|
        0 <= j < k < fs.len() ==> (#[trigger] fs[j]).name@ != (#[trigger] fs[k]).name@
    &&& forall|k: int|
        0 <= k < fs.len() ==> ((#[trigger] fs[k]).metric matches Some(m) ==> metric_ok(m))
    &&& fs.len() > 0 ==> (schema_properties(json_view(ty.schema)) matches Some(props) && forall|
        k: int,
    | 0 <= k < fs.len() ==> props.contains_key((#[trigger] fs[k]).name@))
}

/// An index is well formed: its types have non-blank, pairwise distinct names and well
/// formed fields; its operations have non-blank, pairwise distinct names, a non-blank path
/// where they have a route, and an input and output that name types of the index.
pub open spec fn index_ok(index: Index) -> bool {
    let ts = index.types@;
    let os = index.ops@;
    &&& forall|i: int| 0 <= i < ts.len() ==> !blank((#[trigger] ts[i]).name@)
    &&& forall|i: int, j: int|
        0 <= i < j < ts.len() ==> (#[trigger] ts[i]).name@ != (#[trigger] ts[j]).name@
    &&& forall|i: int| 0 <= i < ts.len() ==> fields_ok(#[trigger] ts[i])
    &&& forall|k: int| 0 <= k < os.len() ==> !blank((#[trigger] os[k]).name@)
    &&& forall|j: int, k: int|
        0 <= j < k < os.len() ==> (#[trigger] os[j]).name@ != (#[trigger] os[k]).name@
    &&& forall|k: int|
        0 <= k < os.len() ==> ((#[trigger] os[k]).http matches Some(h) ==> !blank(h.path@))
    &&& forall|k: int| 0 <= k < os.len() ==> has_type(ts, (#[trigger] os[k]).input@)
    &&& forall|k: int| 0 <= k < os.len() ==> has_type(ts, (#[trigger] os[k]).output@)
}

proof fn lemma_metric(ty: Type, f: Field, m: Metric)
    ensures
        metric_error(ty, f, m) is None <==> metric_ok(m),
{
    if !some_source_blank(m.sources@) {
        assert forall|i: int| 0 <= i < m.sources@.len() implies !blank(
            (#[trigger] m.sources@[i])@,
        ) by {
            if blank(m.sources@[i]@) {
                assert(some_source_blank(m.sources@));
            }
        }
    }
}

proof fn lemma_first_field_error(ty: Type, n: int)
    requires
        0 <= n <= ty.fields@.len(),
    ensures
        first_field_error(ty, n) is None <==> forall|k: int|
            0 <= k < n ==> (#[trigger] field_error(ty, k)) is None,
    decreases n,
{
    if n > 0 {
        lemma_first_field_error(ty, n - 1);
    }
}

proof fn lemma_first_missing_field(ty: Type, props: Map<Seq<char>, Json>, n: int)
    requires
        0 <= n <= ty.fields@.len(),
    ensures
        first_missing_field(ty, props, n) is None <==> forall|k: int|
            0 <= k < n ==> props.contains_key((#[trigger] ty.fields@[k]).name@),
    decreases n,
{
    if n > 0 {
        lemma_first_missing_field(ty, props, n - 1);
    }
}

proof fn lemma_fields(ty: Type)
    ensures
        fields_result(ty) is Ok <==> fields_ok(ty),
{
    let fs = ty.fields@;
    let n = fs.len() as int;
    lemma_first_field_error(ty, n);
    if first_field_error(ty, n) is None {
        assert forall|k: int| 0 <= k < fs.len() implies !blank((#[trigger] fs[k]).name@) by {
            assert(field_error(ty, k) is None);
        }
        assert forall|j: int, k: int|
            0 <= j < k < fs.len() implies (#[trigger] fs[j]).name@ != (#[trigger] fs[k]).name@ by {
            assert(field_error(ty, k) is None);
            if fs[j].name@ == fs[k].name@ {
                assert(field_name_repeats(fs, k));
            }
        }
        assert forall|k: int| 0 <= k < fs.len() implies ((#[trigger] fs[k]).metric matches Some(
            m,
        ) ==> metric_ok(m)) by {
            assert(field_error(ty, k) is None);
            if let Some(m) = fs[k].metric {
                lemma_metric(ty, fs[k], m);
            }
        }
        if n > 0 {
            if let Some(props) = schema_properties(json_view(ty.schema)) {
                lemma_first_missing_field(ty, props, n);
            }
        }
    }
    if fields_ok(ty) {
        assert forall|k: int| 0 <= k < n implies (#[trigger] field_error(ty, k)) is None by {
            if field_name_repeats(fs, k) {
                let j = choose|j: int| 0 <= j < k && (#[trigger] fs[j]).name@ == fs[k].name@;
                assert(fs[j].name@ != fs[k].name@);
            }
            if let Some(m) = fs[k].metric {
                lemma_metric(ty, fs[k], m);
            }
        }
        if n > 0 {
            if let Some(props) = schema_properties(json_view(ty.schema)) {
                lemma_first_missing_field(ty, props, n);
            }
        }
    }
}

proof fn lemma_first_type_error(types: Seq<Type>, n: int)
    requires
        0 <= n <= types.len(),
    ensures
        first_type_error(types, n) is None <==> forall|i: int|
            0 <= i < n ==> (#[trigger] type_error(types, i)) is None,
    decreases n,
{
    if n > 0 {
        lemma_first_type_error(types, n - 1);
    }
}

proof fn lemma_first_op_error(index: Index, n: int)
    requires
        0 <= n <= index.ops@.len(),
    ensures
        first_op_error(index, n) is None <==> forall|k: int|
            0 <= k < n ==> (#[trigger] op_error(index, k)) is None,
    decreases n,
{
    if n > 0 {
        lemma_first_op_error(index, n - 1);
    }
}

/// `check` accepts an index exactly when the index is well formed: every type has a
/// non-blank name of its own and well-formed fields, and every operation has a non-blank
/// name of its own, a non-blank route path, and an input and output among the types.
pub proof fn law_check_accepts_exactly_well_formed(index: Index)
    ensures
        check_spec(index) is Ok <==> index_ok(index),
{
    let ts = index.types@;
    let os = index.ops@;
    lemma_first_type_error(ts, ts.len() as int);
    lemma_first_op_error(index, os.len() as int);
    if check_spec(index) is Ok {
        assert forall|i: int| 0 <= i < ts.len() implies !blank((#[trigger] ts[i]).name@) by {
            assert(type_error(ts, i) is None);
        }
        assert forall|i: int, j: int|
            0 <= i < j < ts.len() implies (#[trigger] ts[i]).name@ != (#[trigger] ts[j]).name@ by {
            assert(type_error(ts, j) is None);
            if ts[i].name@ == ts[j].name@ {
                assert(type_name_repeats(ts, j));
            }
        }
        assert forall|i: int| 0 <= i < ts.len() implies fields_ok(#[trigger] ts[i]) by {
            assert(type_error(ts, i) is None);
            lemma_fields(ts[i]);
        }
        assert forall|k: int| 0 <= k < os.len() implies !blank((#[trigger] os[k]).name@) by {
            assert(op_error(index, k) is None);
        }
        assert forall|j: int, k: int|
            0 <= j < k < os.len() implies (#[trigger] os[j]).name@ != (#[trigger] os[k]).name@ by {
            assert(op_error(index, k) is None);
            if os[j].name@ == os[k].name@ {
                assert(op_name_repeats(os, k));
            }
        }
        assert forall|k: int| 0 <= k < os.len() implies ((#[trigger] os[k]).http matches Some(h)
            ==> !blank(h.path@)) by {
            assert(op_error(index, k) is None);
        }
        assert forall|k: int| 0 <= k < os.len() implies has_type(ts, (#[trigger] os[k]).input@) by {
            assert(op_error(index, k) is None);
        }
        assert forall|k: int| 0 <= k < os.len() implies has_type(ts, (#[trigger] os[k]).output@) by {
            assert(op_error(index, k) is None);
        }
    }
    if index_ok(index) {
        assert forall|i: int| 0 <= i < ts.len() implies (#[trigger] type_error(ts, i)) is None by {
            if type_name_repeats(ts, i) {
                let j = choose|j: int| 0 <= j < i && (#[trigger] ts[j]).name@ == ts[i].name@;
                assert(ts[j].name@ != ts[i].name@);
            }
            lemma_fields(ts[i]);
        }
        assert forall|k: int| 0 <= k < os.len() implies (#[trigger] op_error(index, k)) is None by {
            if op_name_repeats(os, k) {
                let j = choose|j: int| 0 <= j < k && (#[trigger] os[j]).name@ == os[k].name@;
                assert(os[j].name@ != os[k].name@);
            }
        }
    }
}

/// Whether no two entries share a name.
pub open spec fn names_distinct<T: Named>(s: Seq<T>) -> bool {
    forall|i: int, j: int|
        0 <= i < j < s.len() ==> (#[trigger] s[i]).name_view() != (#[trigger] s[j]).name_view()
}

proof fn lemma_with_name_contains<T: Named>(s: Seq<T>, i: int)
    requires
        0 <= i < s.len(),
    ensures
        with_name(s, s[i].name_view()).contains(s[i]),
{
    s.lemma_filter_contains(named::<T>(s[i].name_view()), i);
}

proof fn lemma_with_name_member<T: Named>(s: Seq<T>, k: Seq<char>, x: T)
    requires
        with_name(s, k).contains(x),
    ensures
        s.contains(x),
        x.name_view() == k,
{
    s.lemma_filter_contains_rev(named::<T>(k), x);
    let j = choose|j: int| 0 <= j < with_name(s, k).len() && with_name(s, k)[j] == x;
    s.lemma_filter_pred(named::<T>(k), j);
}

/// Names are distinct exactly when no name is carried by two entries.
proof fn lemma_distinct_by_classes<T: Named>(s: Seq<T>)
    ensures
        names_distinct(s) <==> forall|k: Seq<char>| #[trigger] with_name(s, k).len() <= 1,
    decreases s.len(),
{
    if s.len() == 0 {
        assert forall|k: Seq<char>| #[trigger] with_name(s, k).len() <= 1 by {
            s.lemma_filter_len(named::<T>(k));
        }
    } else {
        let t = s.drop_last();
        let x = s.last();
        assert(s =~= t.push(x));
        lemma_distinct_by_classes(t);
        assert forall|k: Seq<char>| #[trigger] with_name(s, k) == (if x.name_view() == k {
            with_name(t, k).push(x)
        } else {
            with_name(t, k)
        }) by {
            t.lemma_filter_push(x, named::<T>(k));
        }
        if names_distinct(s) {
            assert(names_distinct(t)) by {
                assert forall|i: int, j: int| 0 <= i < j < t.len() implies (#[trigger] t[i]).name_view()
                    != (#[trigger] t[j]).name_view() by {
                    assert(t[i] == s[i] && t[j] == s[j]);
                }
            }
            assert forall|k: Seq<char>| #[trigger] with_name(s, k).len() <= 1 by {
                if x.name_view() == k {
                    if with_name(t, k).len() > 0 {
                        let y = with_name(t, k)[0];
                        assert(with_name(t, k).contains(y));
                        lemma_with_name_member(t, k, y);
                        let i = choose|i: int| 0 <= i < t.len() && t[i] == y;
                        assert(s[i] == t[i]);
                        assert(s[s.len() - 1] == x);
                    }
                }
            }
        }
        if forall|k: Seq<char>| #[trigger] with_name(s, k).len() <= 1 {
            assert forall|k: Seq<char>| #[trigger] with_name(t, k).len() <= 1 by {
                assert(with_name(s, k).len() <= 1);
            }
            assert forall|i: int, j: int| 0 <= i < j < s.len() implies (#[trigger] s[i]).name_view()
                != (#[trigger] s[j]).name_view() by {
                if j < s.len() - 1 {
                    assert(t[i] == s[i] && t[j] == s[j]);
                } else {
                    assert(s[j] == x);
                    if s[i].name_view() == x.name_view() {
                        assert(t[i] == s[i]);
                        lemma_with_name_contains(t, i);
                        assert(with_name(s, x.name_view()).len() <= 1);
                    }
                }
            }
        }
    }
}

/// The entries of two sequences with the same entries under every name are the same.
proof fn lemma_same_classes_members<T: Named>(a: Seq<T>, b: Seq<T>, i: int)
    requires
        forall|k: Seq<char>| #[trigger] with_name(a, k) == with_name(b, k),
        0 <= i < b.len(),
    ensures
        a.contains(b[i]),
{
    lemma_with_name_contains(b, i);
    assert(with_name(a, b[i].name_view()) == with_name(b, b[i].name_view()));
    lemma_with_name_member(a, b[i].name_view(), b[i]);
}

proof fn lemma_has_type_same_classes(a: Seq<Type>, b: Seq<Type>, name: Seq<char>)
    requires
        forall|k: Seq<char>| #[trigger] with_name(a, k) == with_name(b, k),
    ensures
        has_type(a, name) == has_type(b, name),
{
    assert forall|k: Seq<char>| #[trigger] with_name(b, k) == with_name(a, k) by {
        assert(with_name(a, k) == with_name(b, k));
    }
    if has_type(a, name) {
        let i = choose|i: int| 0 <= i < a.len() && (#[trigger] a[i]).name@ == name;
        lemma_same_classes_members(b, a, i);
        let j = choose|j: int| 0 <= j < b.len() && b[j] == a[i];
        assert(b[j].name@ == name);
    }
    if has_type(b, name) {
        let i = choose|i: int| 0 <= i < b.len() && (#[trigger] b[i]).name@ == name;
        lemma_same_classes_members(a, b, i);
        let j = choose|j: int| 0 <= j < a.len() && a[j] == b[i];
        assert(a[j].name@ == name);
    }
}

proof fn lemma_index_ok_same_classes(a: Index, b: Index)
    requires
        forall|k: Seq<char>| #[trigger] with_name(a.types@, k) == with_name(b.types@, k),
        forall|k: Seq<char>| #[trigger] with_name(a.ops@, k) == with_name(b.ops@, k),
        index_ok(a),
    ensures
        index_ok(b),
{
    let (at, bt, ao, bo) = (a.types@, b.types@, a.ops@, b.ops@);
    assert forall|i: int| 0 <= i < bt.len() implies !blank((#[trigger] bt[i]).name@) && fields_ok(bt[i]) by {
        lemma_same_classes_members(at, bt, i);
        let j = choose|j: int| 0 <= j < at.len() && at[j] == bt[i];
        assert(fields_ok(at[j]));
    }
    lemma_distinct_by_classes(at);
    lemma_distinct_by_classes(bt);
    assert(names_distinct(at)) by {
        assert forall|i: int, j: int| 0 <= i < j < at.len() implies (#[trigger] at[i]).name_view()
            != (#[trigger] at[j]).name_view() by {
            assert(at[i].name@ != at[j].name@);
        }
    }
    assert forall|k: Seq<char>| #[trigger] with_name(bt, k).len() <= 1 by {
        assert(with_name(at, k) == with_name(bt, k));
        assert(with_name(at, k).len() <= 1);
    }
    assert forall|i: int, j: int| 0 <= i < j < bt.len() implies (#[trigger] bt[i]).name@ != (
    #[trigger] bt[j]).name@ by {
        assert(bt[i].name_view() != bt[j].name_view());
    }
    assert forall|k: int| 0 <= k < bo.len() implies {
        &&& !blank((#[trigger] bo[k]).name@)
        &&& (bo[k].http matches Some(h) ==> !blank(h.path@))
        &&& has_type(bt, bo[k].input@)
        &&& has_type(bt, bo[k].output@)
    } by {
        lemma_same_classes_members(ao, bo, k);
        let j = choose|j: int| 0 <= j < ao.len() && ao[j] == bo[k];
        assert(!blank(ao[j].name@));
        assert(has_type(at, ao[j].input@));
        assert(has_type(at, ao[j].output@));
        lemma_has_type_same_classes(at, bt, bo[k].input@);
        lemma_has_type_same_classes(at, bt, bo[k].output@);
    }
    lemma_distinct_by_classes(ao);
    lemma_distinct_by_classes(bo);
    assert(names_distinct(ao)) by {
        assert forall|i: int, j: int| 0 <= i < j < ao.len() implies (#[trigger] ao[i]).name_view()
            != (#[trigger] ao[j]).name_view() by {
            assert(ao[i].name@ != ao[j].name@);
        }
    }
    assert forall|k: Seq<char>| #[trigger] with_name(bo, k).len() <= 1 by {
        assert(with_name(ao, k) == with_name(bo, k));
        assert(with_name(ao, k).len() <= 1);
    }
    assert forall|i: int, j: int| 0 <= i < j < bo.len() implies (#[trigger] bo[i]).name@ != (
    #[trigger] bo[j]).name@ by {
        assert(bo[i].name_view() != bo[j].name_view());
    }
}

/// Whether an index passes the check does not depend on the order of its types and of its
/// operations: two indexes holding the same entries under every name, such as an index and
/// its sorted form, pass or fail together.
pub proof fn law_check_verdict_ignores_order(a: Index, b: Index)
    requires
        forall|k: Seq<char>| #[trigger] with_name(a.types@, k) == with_name(b.types@, k),
        forall|k: Seq<char>| #[trigger] with_name(a.ops@, k) == with_name(b.ops@, k),
    ensures
        check_spec(a) is Ok <==> check_spec(b) is Ok,
{
    law_check_accepts_exactly_well_formed(a);
    law_check_accepts_exactly_well_formed(b);
    if index_ok(a) {
        lemma_index_ok_same_classes(a, b);
    }
    if index_ok(b) {
        assert forall|k: Seq<char>| #[trigger] with_name(b.types@, k) == with_name(a.types@, k) by {
            assert(with_name(a.types@, k) == with_name(b.types@, k));
        }
        assert forall|k: Seq<char>| #[trigger] with_name(b.ops@, k) == with_name(a.ops@, k) by {
            assert(with_name(a.ops@, k) == with_name(b.ops@, k));
        }
        lemma_index_ok_same_classes(b, a);
    }
}

/// Dropping the `$schema` entry twice is dropping it once.
pub proof fn law_tool_schema_idempotent(schema: Json)
    ensures
        tool_schema_spec(tool_schema_spec(schema)) == tool_schema_spec(schema),
{
    if let Json::Object(m) = schema {
        assert(m.remove("$schema"@).remove("$schema"@) =~= m.remove("$schema"@));
    }
}

/// The entries under each name of a sequence without its last entry.
proof fn lemma_with_name_drop_last<T: Named>(s: Seq<T>, k: Seq<char>)
    requires
        s.len() > 0,
    ensures
        with_name(s, k) == (if s.last().name_view() == k {
            with_name(s.drop_last(), k).push(s.last())
        } else {
            with_name(s.drop_last(), k)
        }),
{
    assert(s =~= s.drop_last().push(s.last()));
    s.drop_last().lemma_filter_push(s.last(), named::<T>(k));
}

/// A sorted sequence is determined by its entries under each name: two sorted sequences that
/// hold the same entries under every name are equal. So sorting entries that are already
/// sorted leaves them as they are, and sorting twice is sorting once.
pub proof fn law_sorted_arrangement_is_unique<T: Named>(s: Seq<T>, t: Seq<T>)
    requires
        sorted_by_name(s),
        sorted_by_name(t),
        forall|k: Seq<char>| #[trigger] with_name(s, k) == with_name(t, k),
    ensures
        s == t,
    decreases s.len() + t.len(),
{
    if s.len() == 0 && t.len() == 0 {
        assert(s =~= t);
    } else if s.len() == 0 {
        lemma_with_name_contains(t, 0);
        assert(with_name(s, t[0].name_view()) == with_name(t, t[0].name_view()));
        s.lemma_filter_len(named::<T>(t[0].name_view()));
    } else if t.len() == 0 {
        lemma_with_name_contains(s, 0);
        assert(with_name(s, s[0].name_view()) == with_name(t, s[0].name_view()));
        t.lemma_filter_len(named::<T>(s[0].name_view()));
    } else {
        let x = s.last();
        let y = t.last();
        // y stands somewhere in s, so its name is not after x's, and the other way round
        lemma_with_name_contains(t, t.len() - 1);
        assert(with_name(s, y.name_view()) == with_name(t, y.name_view()));
        lemma_with_name_member(s, y.name_view(), y);
        let i = choose|i: int| 0 <= i < s.len() && s[i] == y;
        lemma_with_name_contains(s, s.len() - 1);
        assert(with_name(s, x.name_view()) == with_name(t, x.name_view()));
        lemma_with_name_member(t, x.name_view(), x);
        let j = choose|j: int| 0 <= j < t.len() && t[j] == x;
        if i < s.len() - 1 {
            assert(!lex_lt_names(x, y)) by {
                assert(s[s.len() - 1] == x);
            }
        }
        if j < t.len() - 1 {
            assert(!lex_lt_names(y, x)) by {
                assert(t[t.len() - 1] == y);
            }
        }
        lemma_lex_trichotomy(x.name_view(), y.name_view());
        lemma_lex_trichotomy(x.name_view(), x.name_view());
        let k = x.name_view();
        assert(y.name_view() == k);
        lemma_with_name_drop_last(s, k);
        lemma_with_name_drop_last(t, k);
        assert(with_name(s, k) == with_name(t, k));
        assert(x == with_name(s, k).last());
        assert(y == with_name(t, k).last());
        let s2 = s.drop_last();
        let t2 = t.drop_last();
        assert forall|k2: Seq<char>| #[trigger] with_name(s2, k2) == with_name(t2, k2) by {
            lemma_with_name_drop_last(s, k2);
            lemma_with_name_drop_last(t, k2);
            assert(with_name(s, k2) == with_name(t, k2));
            if k2 == k {
                assert(with_name(s2, k2) =~= with_name(s, k2).drop_last());
                assert(with_name(t2, k2) =~= with_name(t, k2).drop_last());
            }
        }
        assert(sorted_by_name(s2)) by {
            assert forall|a: int, b: int| 0 <= a < b < s2.len() implies !crate::order::lex_lt(
                (#[trigger] s2[b]).name_view(),
                (#[trigger] s2[a]).name_view(),
            ) by {
                assert(s2[a] == s[a] && s2[b] == s[b]);
            }
        }
        assert(sorted_by_name(t2)) by {
            assert forall|a: int, b: int| 0 <= a < b < t2.len() implies !crate::order::lex_lt(
                (#[trigger] t2[b]).name_view(),
                (#[trigger] t2[a]).name_view(),
            ) by {
                assert(t2[a] == t[a] && t2[b] == t[b]);
            }
        }
        law_sorted_arrangement_is_unique(s2, t2);
        assert(s =~= s2.push(x));
        assert(t =~= t2.push(y));
    }
}

/// Whether the name of `a` comes before the name of `b`.
pub open spec fn lex_lt_names<T: Named>(a: T, b: T) -> bool {
    crate::order::lex_lt(a.name_view(), b.name_view())
}

/// Settings that fit `target`: a container has no metric settings, a field no description.
pub open spec fn fits(s: ShapeSettings, target: Target) -> bool {
    &&& target == Target::Container ==> s.calc is None && s.grain is None && s.sources.len() == 0
    &&& target == Target::Field ==> s.desc is None
}

proof fn lemma_shape_metas_fit(s: ShapeSettings, metas: Seq<Meta>, n: int, target: Target)
    requires
        fits(s, target),
        0 <= n <= metas.len(),
    ensures
        shape_metas(s, metas, n, target) matches Ok(t) ==> fits(t, target),
    decreases n,
{
    if n > 0 {
        lemma_shape_metas_fit(s, metas, n - 1, target);
    }
}

proof fn lemma_shape_attrs_fit(s: ShapeSettings, attrs: Seq<Attr>, n: int, target: Target)
    requires
        fits(s, target),
        0 <= n <= attrs.len(),
    ensures
        shape_attrs_spec(s, attrs, n, target) matches Ok(t) ==> fits(t, target),
    decreases n,
{
    if n > 0 {
        lemma_shape_attrs_fit(s, attrs, n - 1, target);
        if let Ok(t) = shape_attrs_spec(s, attrs, n - 1, target) {
            lemma_shape_metas_fit(t, attrs[n - 1].metas@, attrs[n - 1].metas@.len() as int, target);
        }
    }
}

/// `#[shape(...)]` settings that are accepted fit where they stand: those of a container
/// never hold calc, grain or sources, and those of a field never hold a description.
pub proof fn law_accepted_settings_fit_their_target(attrs: Seq<Attr>, target: Target)
    ensures
        shape_settings_of(attrs, target) matches Ok(s) ==> fits(s, target),
{
    lemma_shape_attrs_fit(crate::attr::no_settings(), attrs, attrs.len() as int, target);
}

/// Whether a word is clean: not empty, without separators and without ASCII capitals.
pub open spec fn clean_word(w: Seq<char>) -> bool {
    &&& w.len() > 0
    &&& forall|i: int| 0 <= i < w.len() ==> !is_separator(#[trigger] w[i]) && !('A' <= w[i] && w[i] <= 'Z')
}

pub(crate) proof fn lemma_pieces_have_no_separator(s: Seq<char>)
    ensures
        pieces(s).len() >= 1,
        forall|j: int, i: int|
            0 <= j < pieces(s).len() && 0 <= i < pieces(s)[j].len() ==> !is_separator(
                #[trigger] pieces(s)[j][i],
            ),
    decreases s.len(),
{
    if s.len() > 0 {
        lemma_pieces_have_no_separator(s.drop_last());
        let p = pieces(s.drop_last());
        if !is_separator(s.last()) {
            let q = p.update(p.len() - 1, p.last().push(s.last()));
            assert forall|j: int, i: int| 0 <= j < q.len() && 0 <= i < q[j].len() implies !is_separator(
                #[trigger] q[j][i],
            ) by {
                if j == p.len() - 1 && i == p.last().len() {
                } else if j == p.len() - 1 {
                    assert(q[j][i] == p[j][i]);
                } else {
                    assert(q[j] == p[j]);
                }
            }
        } else {
            let q = p.push(Seq::<char>::empty());
            assert forall|j: int, i: int| 0 <= j < q.len() && 0 <= i < q[j].len() implies !is_separator(
                #[trigger] q[j][i],
            ) by {
                assert(q[j] == p[j]);
            }
        }
    }
}

proof fn lemma_nonempty_lower_clean(ps: Seq<Seq<char>>)
    requires
        forall|j: int, i: int| 0 <= j < ps.len() && 0 <= i < ps[j].len() ==> !is_separator(#[trigger] ps[j][i]),
    ensures
        forall|j: int| 0 <= j < nonempty_lower(ps).len() ==> clean_word(#[trigger] nonempty_lower(ps)[j]),
    decreases ps.len(),
{
    if ps.len() > 0 {
        let t = ps.drop_last();
        assert forall|j: int, i: int| 0 <= j < t.len() && 0 <= i < t[j].len() implies !is_separator(
            #[trigger] t[j][i],
        ) by {
            assert(t[j] == ps[j]);
        }
        lemma_nonempty_lower_clean(t);
        let w = ps.last();
        if w.len() > 0 {
            let lw = lower_seq(w);
            assert forall|i: int| 0 <= i < lw.len() implies !is_separator(#[trigger] lw[i]) && !('A' <= lw[i]
                && lw[i] <= 'Z') by {
                assert(lw[i] == ascii_lower(w[i]));
                assert(ps[ps.len() - 1][i] == w[i]);
                let c = w[i];
                if 'A' <= c && c <= 'Z' {
                    assert(('a' as int) <= (c as int) + 32 <= ('z' as int));
                }
            }
            assert(clean_word(lw));
            let r = nonempty_lower(t);
            assert(nonempty_lower(ps) == r.push(lw));
            assert forall|j: int| 0 <= j < nonempty_lower(ps).len() implies clean_word(
                #[trigger] nonempty_lower(ps)[j],
            ) by {
                if j < r.len() {
                    assert(nonempty_lower(ps)[j] == r[j]);
                }
            }
        } else {
            assert(nonempty_lower(ps) == nonempty_lower(t));
        }
    }
}

/// Every word of an identifier is clean: not empty, without `_` or `-`, and without ASCII
/// capitals; so are the words the snake, kebab, Pascal and camel styles are built from.
pub proof fn law_words_are_clean(s: Seq<char>)
    ensures
        forall|j: int| 0 <= j < words_spec(s).len() ==> clean_word(#[trigger] words_spec(s)[j]),
{
    lemma_pieces_have_no_separator(s);
    lemma_nonempty_lower_clean(pieces(s));
}

/// Whether `e` is an error about the fields of the type named `name`, and says so.
pub open spec fn field_check_error_of(e: Error, name: String) -> bool {
    match e {
        Error::EmptyFieldName { ty } => ty == name,
        Error::DuplicateField { ty, .. } => ty == name,
        Error::EmptyMetricAttr { ty, .. } => ty == name,
        Error::MissingSchemaProperties { ty } => ty == name,
        Error::MissingSchemaField { ty, .. } => ty == name,
        _ => false,
    }
}

proof fn lemma_first_field_error_at(ty: Type, n: int)
    requires
        0 <= n <= ty.fields@.len(),
    ensures
        first_field_error(ty, n) matches Some(e) ==> exists|k: int|
            0 <= k < n && #[trigger] field_error(ty, k) == Some(e) && forall|j: int|
                0 <= j < k ==> (#[trigger] field_error(ty, j)) is None,
    decreases n,
{
    if n > 0 {
        lemma_first_field_error_at(ty, n - 1);
        lemma_first_field_error(ty, n - 1);
    }
}

proof fn lemma_first_missing_field_at(ty: Type, props: Map<Seq<char>, Json>, n: int)
    requires
        0 <= n <= ty.fields@.len(),
    ensures
        first_missing_field(ty, props, n) matches Some(e) ==> exists|k: int|
            0 <= k < n && e == (Error::MissingSchemaField { ty: ty.name, field: ty.fields@[k].name })
                && !props.contains_key((#[trigger] ty.fields@[k]).name@) && forall|j: int|
                0 <= j < k ==> props.contains_key((#[trigger] ty.fields@[j]).name@),
    decreases n,
{
    if n > 0 {
        lemma_first_missing_field_at(ty, props, n - 1);
        lemma_first_missing_field(ty, props, n - 1);
    }
}

/// What an error of the field check of `ty` says: it names `ty`; a blank, repeated or badly
/// measured field is the first field that breaks a rule; a schema without properties, or
/// missing a field, comes only when every field passes, and the missing field is the first
/// one the properties lack.
pub open spec fn reports_first_offender(ty: Type, e: Error) -> bool {
    let fs = ty.fields@;
    &&& field_check_error_of(e, ty.name)
    &&& (e is EmptyFieldName || e is DuplicateField || e is EmptyMetricAttr) ==> exists|k: int|
        0 <= k < fs.len() && #[trigger] field_error(ty, k) == Some(e) && forall|j: int|
            0 <= j < k ==> (#[trigger] field_error(ty, j)) is None
    &&& (e is MissingSchemaProperties || e is MissingSchemaField) ==> forall|k: int|
        0 <= k < fs.len() ==> (#[trigger] field_error(ty, k)) is None
    &&& e is MissingSchemaField ==> (schema_properties(json_view(ty.schema)) matches Some(props)
        && exists|k: int|
        0 <= k < fs.len() && e->MissingSchemaField_field == (#[trigger] fs[k]).name
            && !props.contains_key(fs[k].name@) && forall|j: int|
            0 <= j < k ==> props.contains_key((#[trigger] fs[j]).name@))
}

/// The error the field check of a type reports names that type and points at the first field
/// in field order that breaks a rule (see `reports_first_offender`).
pub proof fn law_field_check_reports_first_offender(ty: Type)
    ensures
        fields_result(ty) matches Err(e) ==> reports_first_offender(ty, e),
{
    let n = ty.fields@.len() as int;
    lemma_first_field_error(ty, n);
    lemma_first_field_error_at(ty, n);
    if let Some(e) = first_field_error(ty, n) {
        let k = choose|k: int|
            0 <= k < n && #[trigger] field_error(ty, k) == Some(e) && forall|j: int|
                0 <= j < k ==> (#[trigger] field_error(ty, j)) is None;
        let f = ty.fields@[k];
        if let Some(m) = f.metric {
            if !blank(f.name@) && !field_name_repeats(ty.fields@, k) {
                assert(metric_error(ty, f, m) == Some(e));
            }
        }
    } else if n > 0 {
        if let Some(props) = schema_properties(json_view(ty.schema)) {
            lemma_first_missing_field_at(ty, props, n);
        }
    }
}

/// Where the first `p.len()` characters from `i` on in `s` are `p`: `p` occurs in `s`.
pub open spec fn occurs_in(p: Seq<char>, s: Seq<char>) -> bool {
    exists|i: int| 0 <= i && i + p.len() <= s.len() && #[trigger] s.subrange(i, i + p.len()) == p
}

/// The names an error carries: the type, operation, field and metric setting it is about.
pub open spec fn error_payloads(e: Error) -> Seq<Seq<char>> {
    match e {
        Error::EmptyTypeName => Seq::<Seq<char>>::empty(),
        Error::EmptyOpName => Seq::<Seq<char>>::empty(),
        Error::EmptyFieldName { ty } => seq![ty@],
        Error::EmptyHttpPath { op } => seq![op@],
        Error::EmptyMetricAttr { ty, field, attr } => seq![ty@, field@, attr@],
        Error::DuplicateType(name) => seq![name@],
        Error::DuplicateOp(name) => seq![name@],
        Error::DuplicateField { ty, field } => seq![ty@, field@],
        Error::MissingInput { op, ty } => seq![op@, ty@],
        Error::MissingOutput { op, ty } => seq![op@, ty@],
        Error::MissingSchemaProperties { ty } => seq![ty@],
        Error::MissingSchemaField { ty, field } => seq![ty@, field@],
    }
}

proof fn lemma_occurs(a: Seq<char>, p: Seq<char>, b: Seq<char>)
    ensures
        occurs_in(p, a + p + b),
        occurs_in(p, a + p),
{
    assert((a + p + b).subrange(a.len() as int, (a.len() + p.len()) as int) =~= p);
    assert((a + p).subrange(a.len() as int, (a.len() + p.len()) as int) =~= p);
}

/// The message of an error is never empty and names everything the error carries: each
/// type, operation and field name in it, and the metric setting that is empty.
pub proof fn law_message_names_its_payloads(e: Error)
    ensures
        message_spec(e).len() > 0,
        forall|k: int|
            0 <= k < error_payloads(e).len() ==> occurs_in(
                #[trigger] error_payloads(e)[k],
                message_spec(e),
            ),
{
    reveal_strlit("empty type name");
    reveal_strlit("empty op name");
    reveal_strlit("type ");
    reveal_strlit("op ");
    reveal_strlit("duplicate type: ");
    reveal_strlit("duplicate op: ");
    let m = message_spec(e);
    let ps = error_payloads(e);
    match e {
        Error::EmptyTypeName => {},
        Error::EmptyOpName => {},
        Error::EmptyFieldName { ty } => {
            let t = " has an empty field name"@;
            lemma_occurs("type "@, ty@, t);
        },
        Error::EmptyHttpPath { op } => {
            lemma_occurs("op "@, op@, " has an empty HTTP path"@);
        },
        Error::EmptyMetricAttr { ty, field, attr } => {
            let a = "type "@;
            let b = " field "@;
            let c = " has an empty metric "@;
            assert(m =~= a + ty@ + (b + field@ + c + attr@));
            lemma_occurs(a, ty@, b + field@ + c + attr@);
            assert(m =~= (a + ty@ + b) + field@ + (c + attr@));
            lemma_occurs(a + ty@ + b, field@, c + attr@);
            lemma_occurs(a + ty@ + b + field@ + c, attr@, Seq::<char>::empty());
        },
        Error::DuplicateType(name) => {
            lemma_occurs("duplicate type: "@, name@, Seq::<char>::empty());
        },
        Error::DuplicateOp(name) => {
            lemma_occurs("duplicate op: "@, name@, Seq::<char>::empty());
        },
        Error::DuplicateField { ty, field } => {
            let a = "type "@;
            let b = " has duplicate field "@;
            assert(m =~= a + ty@ + (b + field@));
            lemma_occurs(a, ty@, b + field@);
            lemma_occurs(a + ty@ + b, field@, Seq::<char>::empty());
        },
        Error::MissingInput { op, ty } => {
            let a = "op "@;
            let b = " references missing input type "@;
            assert(m =~= a + op@ + (b + ty@));
            lemma_occurs(a, op@, b + ty@);
            lemma_occurs(a + op@ + b, ty@, Seq::<char>::empty());
        },
        Error::MissingOutput { op, ty } => {
            let a = "op "@;
            let b = " references missing output type "@;
            assert(m =~= a + op@ + (b + ty@));
            lemma_occurs(a, op@, b + ty@);
            lemma_occurs(a + op@ + b, ty@, Seq::<char>::empty());
        },
        Error::MissingSchemaProperties { ty } => {
            lemma_occurs("type "@, ty@, " has fields but its JSON Schema has no properties"@);
        },
        Error::MissingSchemaField { ty, field } => {
            let a = "type "@;
            let b = " field "@;
            let c = " is missing from JSON Schema properties"@;
            assert(m =~= a + ty@ + (b + field@ + c));
            lemma_occurs(a, ty@, b + field@ + c);
            lemma_occurs(a + ty@ + b, field@, c);
        },
    }
}

/// Dropping `$schema` keeps everything else: on an object, the keys are those of the object
/// but `$schema`, each with its value; any other value is kept as it is.
pub proof fn law_tool_schema_keeps_other_entries(schema: Json)
    ensures
        schema matches Json::Object(m) ==> (tool_schema_spec(schema) matches Json::Object(n) && n.dom()
            == m.dom().remove("$schema"@) && forall|k: Seq<char>| #[trigger] n.contains_key(k) ==> n[k] == m[k]),
        !(schema is Object) ==> tool_schema_spec(schema) == schema,
{
    if let Json::Object(m) = schema {
        assert(m.remove("$schema"@).dom() =~= m.dom().remove("$schema"@));
    }
}

/// The OpenAI object of a tool is a function tool named by the tool's name, with the tool's
/// description where it has one, and the tool's schema as its parameters.
pub proof fn law_openai_is_function_tool(t: Tool)
    ensures
        is_function_tool(openai_spec(t), t.name@, desc_view(t.desc), json_view(t.schema)),
{
    reveal_strlit("type");
    reveal_strlit("function");
    reveal_strlit("name");
    reveal_strlit("parameters");
    reveal_strlit("description");
    assert("type"@.len() != "function"@.len());
    assert("name"@.len() != "parameters"@.len());
    assert("name"@.len() != "description"@.len());
    assert("parameters"@.len() != "description"@.len());
    let f0 = Map::<Seq<char>, Json>::empty().insert("name"@, Json::Str(t.name@)).insert(
        "parameters"@,
        json_view(t.schema),
    );
    assert(f0.dom() =~= set!["name"@, "parameters"@]);
    if let Some(d) = t.desc {
        assert(f0.insert("description"@, Json::Str(d@)).dom() =~= set!["name"@, "parameters"@, "description"@]);
    }
    if let Json::Object(o) = openai_spec(t) {
        assert(o.dom() =~= set!["type"@, "function"@]);
    }
}

} // verus!
