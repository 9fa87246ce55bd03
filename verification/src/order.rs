//! Ordering index entries by name: lexicographic order on names, and a stable sort.
use vstd::prelude::*;
use crate::check::{check, check_spec, Error};
use crate::model::{Index, Op, Type, VERSION};
use crate::text::chars_of;

verus! {

/// Lexicographic order on character sequences, character by character (the order of
/// `String`'s `Ord`): `a` comes before `b`.
pub open spec fn lex_lt(a: Seq<char>, b: Seq<char>) -> bool
    decreases a.len(),
{
    if b.len() == 0 {
        false
    } else if a.len() == 0 {
        true
    } else if a[0] != b[0] {
        (a[0] as int) < (b[0] as int)
    } else {
        lex_lt(a.drop_first(), b.drop_first())
    }
}

/// No sequence comes before itself, and of two different sequences exactly one comes first.
pub proof fn lemma_lex_trichotomy(a: Seq<char>, b: Seq<char>)
    ensures
        !(lex_lt(a, b) && lex_lt(b, a)),
        a != b ==> lex_lt(a, b) || lex_lt(b, a),
        !lex_lt(a, a),
    decreases a.len(),
{
    if a.len() > 0 && b.len() > 0 && a[0] == b[0] {
        lemma_lex_trichotomy(a.drop_first(), b.drop_first());
        if a != b {
            assert(a.drop_first() != b.drop_first()) by {
                if a.drop_first() == b.drop_first() {
                    assert(a =~= seq![a[0]] + a.drop_first());
                    assert(b =~= seq![b[0]] + b.drop_first());
                }
            }
        }
    }
    if a.len() > 0 {
        lemma_lex_trichotomy(a.drop_first(), a.drop_first());
    }
    if a.len() == 0 && b.len() == 0 {
        assert(a =~= b);
    }
}

/// The order is transitive.
pub proof fn lemma_lex_transitive(a: Seq<char>, b: Seq<char>, c: Seq<char>)
    requires
        lex_lt(a, b),
        lex_lt(b, c),
    ensures
        lex_lt(a, c),
    decreases a.len(),
{
    if a.len() > 0 && b.len() > 0 && c.len() > 0 && a[0] == b[0] && b[0] == c[0] {
        lemma_lex_transitive(a.drop_first(), b.drop_first(), c.drop_first());
    }
}

/// Whether `a` comes before `b` in lexicographic order.
pub fn str_lt(a: &str, b: &str) -> (r: bool)
    ensures
        r == lex_lt(a@, b@),
{
    let x = chars_of(a);
    let y = chars_of(b);
    let mut i: usize = 0;
    assert(a@.skip(0) =~= a@);
    assert(b@.skip(0) =~= b@);
    while i < x.len() && i < y.len() && x[i] == y[i]
        invariant
            x@ == a@,
            y@ == b@,
            i <= x.len(),
            i <= y.len(),
            lex_lt(a@, b@) == lex_lt(a@.skip(i as int), b@.skip(i as int)),
        decreases x.len() - i,
    {
        assert(a@.skip(i as int).drop_first() =~= a@.skip(i + 1));
        assert(b@.skip(i as int).drop_first() =~= b@.skip(i + 1));
        i = i + 1;
    }
    if i == y.len() {
        false
    } else if i == x.len() {
        true
    } else {
        x[i] < y[i]
    }
}

/// Something with a name by which it is sorted.
pub trait Named {
    spec fn name_view(&self) -> Seq<char>;

    fn name_str(&self) -> (r: &str)
        ensures
            r@ == self.name_view(),
    ;
}

impl Named for Type {
    open spec fn name_view(&self) -> Seq<char> {
        self.name@
    }

    fn name_str(&self) -> (r: &str) {
        self.name.as_str()
    }
}

impl Named for Op {
    open spec fn name_view(&self) -> Seq<char> {
        self.name@
    }

    fn name_str(&self) -> (r: &str) {
        self.name.as_str()
    }
}

/// Whether no entry comes after one whose name is ordered after its own.
pub open spec fn sorted_by_name<T: Named>(s: Seq<T>) -> bool {
    forall|i: int, j: int|
        0 <= i < j < s.len() ==> !lex_lt((#[trigger] s[j]).name_view(), (#[trigger] s[i]).name_view())
}

/// Whether an entry is named `k`.
pub open spec fn named<T: Named>(k: Seq<char>) -> spec_fn(T) -> bool {
    |t: T| t.name_view() == k
}

/// The entries named `k`, in order.
pub open spec fn with_name<T: Named>(s: Seq<T>, k: Seq<char>) -> Seq<T> {
    s.filter(named::<T>(k))
}

/// Sorts entries by name, keeping entries of equal names in their order.
pub fn sort_by_name<T: Named>(v: &mut Vec<T>)
    ensures
        final(v)@.len() == old(v)@.len(),
        sorted_by_name(final(v)@),
        forall|k: Seq<char>| #[trigger] with_name(final(v)@, k) == with_name(old(v)@, k),
{
    let ghost orig = v@;
    let mut src: Vec<T> = Vec::new();
    std::mem::swap(v, &mut src);
    let mut out: Vec<T> = Vec::new();
    let ghost mut i: int = 0;
    while src.len() > 0
        invariant
            0 <= i <= orig.len(),
            src@ == orig.skip(i),
            out@.len() == i,
            sorted_by_name(out@),
            forall|k: Seq<char>| #[trigger] with_name(out@, k) == with_name(orig.take(i), k),
        decreases src.len(),
    {
        let x = src.remove(0);
        let mut p: usize = 0;
        while p < out.len() && !str_lt(x.name_str(), out[p].name_str())
            invariant
                p <= out@.len(),
                forall|q: int| 0 <= q < p ==> !lex_lt(x.name_view(), (#[trigger] out@[q]).name_view()),
            decreases out.len() - p,
        {
            p = p + 1;
        }
        let ghost before = out@;
        let ghost xk = x.name_view();
        proof {
            assert(x == orig[i]);
            assert forall|j: int| p <= j < before.len() implies
                (#[trigger] before[j]).name_view() != xk && !lex_lt(before[j].name_view(), xk) by {
                lemma_lex_trichotomy(xk, xk);
                lemma_lex_trichotomy(before[j].name_view(), xk);
                if j > p {
                    if lex_lt(before[j].name_view(), xk) {
                        lemma_lex_transitive(before[j].name_view(), xk, before[p as int].name_view());
                    }
                    if before[j].name_view() == xk {
                        assert(lex_lt(before[j].name_view(), before[p as int].name_view()));
                    }
                }
            }
        }
        out.insert(p, x);
        proof {
            let after = out@;
            assert(after =~= before.take(p as int) + seq![x] + before.skip(p as int));
            assert forall|a: int, b: int| 0 <= a < b < after.len() implies !lex_lt(
                (#[trigger] after[b]).name_view(),
                (#[trigger] after[a]).name_view(),
            ) by {
                if b < p {
                } else if b == p {
                    assert(after[a] == before[a]);
                } else if a == p {
                    assert(after[b] == before[b - 1]);
                } else if a < p {
                    assert(after[b] == before[b - 1]);
                    assert(after[a] == before[a]);
                } else {
                    assert(after[b] == before[b - 1]);
                    assert(after[a] == before[a - 1]);
                }
            }
            assert(orig.take(i + 1) =~= orig.take(i).push(x));
            assert forall|k: Seq<char>| #[trigger] with_name(after, k) == with_name(orig.take(i + 1), k) by {
                let pred = named::<T>(k);
                let left = before.take(p as int);
                let right = before.skip(p as int);
                let one = seq![x];
                assert(with_name(before, k) == with_name(orig.take(i), k));
                assert(before =~= left + right);
                assert(after =~= (left + one) + right);
                Seq::filter_distributes_over_add(left, right, pred);
                Seq::filter_distributes_over_add(left + one, right, pred);
                Seq::filter_distributes_over_add(left, one, pred);
                orig.take(i).lemma_filter_push(x, pred);
                assert(one =~= Seq::<T>::empty().push(x));
                Seq::<T>::empty().lemma_filter_push(x, pred);
                assert(Seq::<T>::empty().filter(pred) =~= Seq::<T>::empty()) by {
                    reveal_with_fuel(Seq::filter, 1);
                }
                if k == xk {
                    assert forall|j: int| 0 <= j < right.len() implies !pred(#[trigger] right[j]) by {
                        assert(right[j] == before[p + j]);
                    }
                    right.lemma_all_neg_filter_empty(pred);
                    assert(one.filter(pred) =~= one);
                    assert(after.filter(pred) =~= left.filter(pred) + one);
                    assert(before.filter(pred) =~= left.filter(pred));
                    assert(orig.take(i + 1).filter(pred) =~= orig.take(i).filter(pred).push(x));
                } else {
                    assert(one.filter(pred) =~= Seq::<T>::empty());
                    assert(after.filter(pred) =~= left.filter(pred) + right.filter(pred));
                    assert(orig.take(i + 1).filter(pred) =~= orig.take(i).filter(pred));
                }
            }
            i = i + 1;
        }
    }
    assert(orig.take(i) =~= orig);
    *v = out;
}

impl Index {
    /// Orders the types and the operations by name; entries of equal names keep their order.
    pub fn sort(&mut self)
        ensures
            final(self).version == old(self).version,
            final(self).types@.len() == old(self).types@.len(),
            final(self).ops@.len() == old(self).ops@.len(),
            sorted_by_name(final(self).types@),
            sorted_by_name(final(self).ops@),
            forall|k: Seq<char>| #[trigger] with_name(final(self).types@, k) == with_name(old(self).types@, k),
            forall|k: Seq<char>| #[trigger] with_name(final(self).ops@, k) == with_name(old(self).ops@, k),
    {
        sort_by_name(&mut self.types);
        sort_by_name(&mut self.ops);
    }
}

/// An index of `types` and `ops` at the current version, sorted by name, with the result of
/// checking it: what building an index from declared types and operations gives.
pub fn assemble(types: Vec<Type>, ops: Vec<Op>) -> (r: (Index, Result<(), Error>))
    ensures
        r.0.version@ == VERSION@,
        r.0.types@.len() == types@.len(),
        r.0.ops@.len() == ops@.len(),
        sorted_by_name(r.0.types@),
        sorted_by_name(r.0.ops@),
        forall|k: Seq<char>| #[trigger] with_name(r.0.types@, k) == with_name(types@, k),
        forall|k: Seq<char>| #[trigger] with_name(r.0.ops@, k) == with_name(ops@, k),
        r.1 == check_spec(r.0),
{
    let mut index = Index::new();
    index.types = types;
    index.ops = ops;
    index.sort();
    let checked = check(&index);
    (index, checked)
}

} // verus!
