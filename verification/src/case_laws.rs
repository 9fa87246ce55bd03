//! Laws of the serde case conversions: what the words of an identifier put together give
//! back, how the eight styles relate to each other, which of them a second application
//! leaves unchanged, and what they make of plain snake_case field names.
use vstd::prelude::*;
use crate::case::{
    camel_spec, capitalize, concat_capitalized, is_separator, join_with, nonempty_lower,
    pascal_spec, pieces, rename_all_spec, words_spec,
};
use crate::laws::{clean_word, lemma_pieces_have_no_separator, law_words_are_clean};
use crate::text::{ascii_lower, ascii_upper, lower_seq, upper_seq};

verus! {

/// The words put one after the other, with nothing between them.
pub open spec fn concat_all(ws: Seq<Seq<char>>) -> Seq<char>
    decreases ws.len(),
{
    if ws.len() == 0 {
        Seq::<char>::empty()
    } else {
        concat_all(ws.drop_last()) + ws.last()
    }
}

/// `s` with every `_` and `-` taken out.
pub open spec fn without_separators(s: Seq<char>) -> Seq<char>
    decreases s.len(),
{
    if s.len() == 0 {
        s
    } else if is_separator(s.last()) {
        without_separators(s.drop_last())
    } else {
        without_separators(s.drop_last()).push(s.last())
    }
}

/// `s` with every `from` replaced by `to`.
pub open spec fn replace_char(s: Seq<char>, from: char, to: char) -> Seq<char> {
    s.map_values(|c: char| if c == from { to } else { c })
}

/// Whether `c` is an ASCII capital letter.
pub open spec fn is_capital(c: char) -> bool {
    'A' <= c && c <= 'Z'
}

/// A plain snake_case field name: a lower-case letter, then lower-case letters, digits and
/// single underscores, not ending in an underscore (`^[a-z][a-z0-9]*(_[a-z0-9]+)*$`).
pub open spec fn plain_snake(s: Seq<char>) -> bool {
    &&& s.len() > 0
    &&& 'a' <= s[0] && s[0] <= 'z'
    &&& forall|i: int|
        0 <= i < s.len() ==> ('a' <= #[trigger] s[i] && s[i] <= 'z') || ('0' <= s[i] && s[i]
            <= '9') || s[i] == '_'
    &&& forall|i: int| 0 <= i < s.len() && #[trigger] s[i] == '_' ==> i + 1 < s.len() && s[i + 1] != '_'
}

proof fn lemma_char_case(c: char)
    ensures
        ascii_lower(ascii_lower(c)) == ascii_lower(c),
        ascii_upper(ascii_upper(c)) == ascii_upper(c),
        ascii_lower(ascii_upper(c)) == ascii_lower(c),
        !is_capital(c) ==> ascii_lower(c) == c,
        !is_capital(c) ==> ascii_lower(ascii_upper(c)) == c,
        !is_capital(ascii_lower(c)),
        is_separator(ascii_lower(c)) == is_separator(c),
        is_separator(ascii_upper(c)) == is_separator(c),
        ascii_upper('_') == '_',
        ascii_upper('-') == '-',
{
    if 'A' <= c && c <= 'Z' {
        assert(('a' as int) <= (c as int) + 32 <= ('z' as int));
    }
    if 'a' <= c && c <= 'z' {
        assert(('A' as int) <= (c as int) - 32 <= ('Z' as int));
    }
}

proof fn lemma_lower_idempotent(s: Seq<char>)
    ensures
        lower_seq(lower_seq(s)) == lower_seq(s),
{
    assert forall|i: int| 0 <= i < s.len() implies lower_seq(lower_seq(s))[i] == lower_seq(s)[i] by {
        lemma_char_case(s[i]);
    }
    assert(lower_seq(lower_seq(s)) =~= lower_seq(s));
}

proof fn lemma_upper_idempotent(s: Seq<char>)
    ensures
        upper_seq(upper_seq(s)) == upper_seq(s),
{
    assert forall|i: int| 0 <= i < s.len() implies upper_seq(upper_seq(s))[i] == upper_seq(s)[i] by {
        lemma_char_case(s[i]);
    }
    assert(upper_seq(upper_seq(s)) =~= upper_seq(s));
}

proof fn lemma_lower_append(a: Seq<char>, b: Seq<char>)
    ensures
        lower_seq(a + b) == lower_seq(a) + lower_seq(b),
{
    assert(lower_seq(a + b) =~= lower_seq(a) + lower_seq(b));
}

proof fn lemma_pieces_nonempty(s: Seq<char>)
    ensures
        pieces(s).len() >= 1,
{
    lemma_pieces_have_no_separator(s);
}

proof fn lemma_concat_pieces(s: Seq<char>)
    ensures
        concat_all(pieces(s)) == without_separators(s),
    decreases s.len(),
{
    if s.len() == 0 {
        let p = pieces(s);
        assert(p.drop_last() =~= Seq::<Seq<char>>::empty());
        assert(concat_all(Seq::<Seq<char>>::empty()) == Seq::<char>::empty());
        assert(concat_all(p) =~= Seq::<char>::empty());
    } else {
        lemma_concat_pieces(s.drop_last());
        lemma_pieces_nonempty(s.drop_last());
        let p = pieces(s.drop_last());
        let c = s.last();
        if is_separator(c) {
            let q = p.push(Seq::<char>::empty());
            assert(q.drop_last() =~= p);
            assert(concat_all(q) =~= concat_all(p));
        } else {
            let q = p.update(p.len() - 1, p.last().push(c));
            assert(q.drop_last() =~= p.drop_last());
            assert(concat_all(q) =~= concat_all(p.drop_last()) + p.last().push(c));
            assert(concat_all(q) =~= concat_all(p).push(c));
        }
    }
}

proof fn lemma_concat_nonempty_lower(ps: Seq<Seq<char>>)
    ensures
        concat_all(nonempty_lower(ps)) == lower_seq(concat_all(ps)),
    decreases ps.len(),
{
    if ps.len() == 0 {
        assert(lower_seq(Seq::<char>::empty()) =~= Seq::<char>::empty());
    } else {
        lemma_concat_nonempty_lower(ps.drop_last());
        let r = nonempty_lower(ps.drop_last());
        lemma_lower_append(concat_all(ps.drop_last()), ps.last());
        if ps.last().len() == 0 {
            assert(concat_all(ps) =~= concat_all(ps.drop_last()));
            assert(lower_seq(ps.last()) =~= Seq::<char>::empty());
        } else {
            assert(r.push(lower_seq(ps.last())).drop_last() =~= r);
        }
    }
}

proof fn lemma_without_separators_clean(s: Seq<char>)
    ensures
        forall|i: int| 0 <= i < without_separators(s).len() ==> !is_separator(#[trigger] without_separators(s)[i]),
    decreases s.len(),
{
    if s.len() > 0 {
        lemma_without_separators_clean(s.drop_last());
        let t = without_separators(s.drop_last());
        if !is_separator(s.last()) {
            assert forall|i: int| 0 <= i < t.push(s.last()).len() implies !is_separator(
                #[trigger] t.push(s.last())[i],
            ) by {
                if i < t.len() {
                    assert(t.push(s.last())[i] == t[i]);
                }
            }
        }
    }
}

/// The words of an identifier, put one after the other, are the identifier in ASCII lower
/// case with every `_` and `-` taken out.
pub proof fn law_words_concatenate(s: Seq<char>)
    ensures
        concat_all(words_spec(s)) == lower_seq(without_separators(s)),
{
    lemma_concat_nonempty_lower(pieces(s));
    lemma_concat_pieces(s);
}

proof fn lemma_lower_capitalize(w: Seq<char>)
    ensures
        lower_seq(capitalize(w)) == lower_seq(w),
{
    if w.len() > 0 {
        lemma_char_case(w[0]);
    }
    assert(lower_seq(capitalize(w)) =~= lower_seq(w));
}

proof fn lemma_lower_concat_capitalized(ws: Seq<Seq<char>>)
    ensures
        lower_seq(concat_capitalized(ws)) == lower_seq(concat_all(ws)),
    decreases ws.len(),
{
    if ws.len() == 0 {
    } else {
        lemma_lower_concat_capitalized(ws.drop_last());
        lemma_lower_append(concat_capitalized(ws.drop_last()), capitalize(ws.last()));
        lemma_lower_append(concat_all(ws.drop_last()), ws.last());
        lemma_lower_capitalize(ws.last());
    }
}

/// PascalCase holds no `_` or `-`, and in ASCII lower case it is the words of the identifier
/// put one after the other.
pub proof fn law_pascal_is_capitalized_words(s: Seq<char>)
    ensures
        forall|i: int| 0 <= i < pascal_spec(s).len() ==> !is_separator(#[trigger] pascal_spec(s)[i]),
        lower_seq(pascal_spec(s)) == concat_all(words_spec(s)),
{
    let ws = words_spec(s);
    let p = pascal_spec(s);
    lemma_lower_concat_capitalized(ws);
    law_words_concatenate(s);
    lemma_lower_idempotent(without_separators(s));
    lemma_without_separators_clean(s);
    let t = without_separators(s);
    assert forall|i: int| 0 <= i < p.len() implies !is_separator(#[trigger] p[i]) by {
        lemma_char_case(p[i]);
        lemma_char_case(t[i]);
        assert(lower_seq(p)[i] == ascii_lower(p[i]));
        assert(lower_seq(t)[i] == ascii_lower(t[i]));
    }
}

proof fn lemma_join_replace(ws: Seq<Seq<char>>)
    requires
        forall|j: int, i: int| 0 <= j < ws.len() && 0 <= i < ws[j].len() ==> #[trigger] ws[j][i] != '_',
    ensures
        join_with(ws, '-') == replace_char(join_with(ws, '_'), '_', '-'),
    decreases ws.len(),
{
    if ws.len() == 0 {
        assert(replace_char(Seq::<char>::empty(), '_', '-') =~= Seq::<char>::empty());
    } else if ws.len() == 1 {
        assert forall|i: int| 0 <= i < ws[0].len() implies ws[0][i] != '_' by {
            assert(ws[0][i] != '_');
        }
        assert(replace_char(ws[0], '_', '-') =~= ws[0]);
    } else {
        let d = ws.drop_last();
        assert forall|j: int, i: int| 0 <= j < d.len() && 0 <= i < d[j].len() implies #[trigger] d[j][i]
            != '_' by {
            assert(d[j] == ws[j]);
        }
        lemma_join_replace(d);
        let w = ws.last();
        assert forall|i: int| 0 <= i < w.len() implies w[i] != '_' by {
            assert(ws[ws.len() - 1][i] != '_');
        }
        assert(replace_char(join_with(d, '_').push('_') + w, '_', '-') =~= replace_char(
            join_with(d, '_'),
            '_',
            '-',
        ).push('-') + w);
    }
}

proof fn lemma_style_names()
    ensures
        "lowercase"@ != "UPPERCASE"@,
        "snake_case"@ != "PascalCase"@,
        "kebab-case"@ != "PascalCase"@,
        "kebab-case"@ != "snake_case"@,
        "SCREAMING-KEBAB-CASE"@ != "SCREAMING_SNAKE_CASE"@,
        "lowercase"@.len() == 9,
        "UPPERCASE"@.len() == 9,
        "camelCase"@.len() == 9,
        "PascalCase"@.len() == 10,
        "snake_case"@.len() == 10,
        "kebab-case"@.len() == 10,
        "SCREAMING_SNAKE_CASE"@.len() == 20,
        "SCREAMING-KEBAB-CASE"@.len() == 20,
        "lowercase"@ != "camelCase"@,
        "UPPERCASE"@ != "camelCase"@,
{
    reveal_strlit("lowercase");
    reveal_strlit("UPPERCASE");
    reveal_strlit("PascalCase");
    reveal_strlit("camelCase");
    reveal_strlit("snake_case");
    reveal_strlit("SCREAMING_SNAKE_CASE");
    reveal_strlit("kebab-case");
    reveal_strlit("SCREAMING-KEBAB-CASE");
    assert("lowercase"@[0] != "UPPERCASE"@[0]);
    assert("lowercase"@[0] != "camelCase"@[0]);
    assert("UPPERCASE"@[0] != "camelCase"@[0]);
    assert("snake_case"@[0] != "PascalCase"@[0]);
    assert("kebab-case"@[0] != "PascalCase"@[0]);
    assert("kebab-case"@[0] != "snake_case"@[0]);
    assert("SCREAMING-KEBAB-CASE"@[9] != "SCREAMING_SNAKE_CASE"@[9]);
}

/// The kebab and screaming styles follow from snake_case: kebab-case is snake_case with each
/// `_` replaced by `-`, and each SCREAMING style is its lower-case style in ASCII upper case.
pub proof fn law_styles_relate(x: Seq<char>)
    ensures
        rename_all_spec("snake_case"@, x) matches Some(snake) && {
            &&& rename_all_spec("kebab-case"@, x) == Some(replace_char(snake, '_', '-'))
            &&& rename_all_spec("SCREAMING_SNAKE_CASE"@, x) == Some(upper_seq(snake))
            &&& rename_all_spec("SCREAMING-KEBAB-CASE"@, x) == Some(
                upper_seq(replace_char(snake, '_', '-')),
            )
        },
{
    lemma_style_names();
    let ws = words_spec(x);
    law_words_are_clean(x);
    assert forall|j: int, i: int| 0 <= j < ws.len() && 0 <= i < ws[j].len() implies #[trigger] ws[j][i]
        != '_' by {
        assert(clean_word(ws[j]));
        assert(!is_separator(ws[j][i]));
    }
    lemma_join_replace(ws);
    let snake = join_with(ws, '_');
    assert(rename_all_spec("snake_case"@, x) == Some(snake));
    assert(rename_all_spec("kebab-case"@, x) == Some(join_with(ws, '-')));
    assert(rename_all_spec("SCREAMING_SNAKE_CASE"@, x) == Some(upper_seq(snake)));
    assert(rename_all_spec("SCREAMING-KEBAB-CASE"@, x) == Some(upper_seq(join_with(ws, '-'))));
}

proof fn lemma_pieces_append(a: Seq<char>, w: Seq<char>)
    requires
        forall|i: int| 0 <= i < w.len() ==> !is_separator(#[trigger] w[i]),
    ensures
        pieces(a + w) == pieces(a).update(pieces(a).len() - 1, pieces(a).last() + w),
    decreases w.len(),
{
    lemma_pieces_nonempty(a);
    let p = pieces(a);
    if w.len() == 0 {
        assert(a + w =~= a);
        assert(p.last() + w =~= p.last());
        assert(p.update(p.len() - 1, p.last() + w) =~= p);
    } else {
        let v = w.drop_last();
        assert forall|i: int| 0 <= i < v.len() implies !is_separator(#[trigger] v[i]) by {
            assert(v[i] == w[i]);
        }
        lemma_pieces_append(a, v);
        assert((a + w).drop_last() =~= a + v);
        assert((a + w).last() == w.last());
        let q = p.update(p.len() - 1, p.last() + v);
        assert((p.last() + v).push(w.last()) =~= p.last() + w);
        assert(q.update(q.len() - 1, q.last().push(w.last())) =~= p.update(
            p.len() - 1,
            p.last() + w,
        ));
    }
}

/// Every word is non-empty and holds no `_` or `-`.
pub open spec fn solid_words(ws: Seq<Seq<char>>) -> bool {
    forall|j: int|
        0 <= j < ws.len() ==> (#[trigger] ws[j]).len() > 0 && forall|i: int|
            0 <= i < ws[j].len() ==> !is_separator(#[trigger] ws[j][i])
}

proof fn lemma_pieces_join(ws: Seq<Seq<char>>, sep: char)
    requires
        is_separator(sep),
        ws.len() >= 1,
        solid_words(ws),
    ensures
        pieces(join_with(ws, sep)) == ws,
    decreases ws.len(),
{
    let e = Seq::<char>::empty();
    if ws.len() == 1 {
        assert(ws[0].len() > 0);
        lemma_pieces_append(e, ws[0]);
        assert(e + ws[0] =~= ws[0]);
        assert(pieces(e) == seq![e]);
        assert(seq![e].update(0, e + ws[0]) =~= ws);
    } else {
        let d = ws.drop_last();
        assert forall|j: int| 0 <= j < d.len() implies (#[trigger] d[j]).len() > 0 && forall|i: int|
            0 <= i < d[j].len() ==> !is_separator(#[trigger] d[j][i]) by {
            assert(d[j] == ws[j]);
        }
        lemma_pieces_join(d, sep);
        let a = join_with(d, sep).push(sep);
        assert(a.drop_last() =~= join_with(d, sep));
        assert(pieces(a) == d.push(e));
        let w = ws.last();
        assert(w == ws[ws.len() - 1]);
        lemma_pieces_append(a, w);
        assert(join_with(ws, sep) == a + w);
        assert(d.push(e).update(d.len() as int, e + w) =~= ws);
    }
}

proof fn lemma_nonempty_lower_all(ps: Seq<Seq<char>>)
    requires
        forall|j: int| 0 <= j < ps.len() ==> (#[trigger] ps[j]).len() > 0,
    ensures
        nonempty_lower(ps) == ps.map_values(|w: Seq<char>| lower_seq(w)),
    decreases ps.len(),
{
    if ps.len() > 0 {
        let d = ps.drop_last();
        assert forall|j: int| 0 <= j < d.len() implies (#[trigger] d[j]).len() > 0 by {
            assert(d[j] == ps[j]);
        }
        lemma_nonempty_lower_all(d);
        assert(ps.last() == ps[ps.len() - 1]);
        assert(d.map_values(|w: Seq<char>| lower_seq(w)).push(lower_seq(ps.last())) =~= ps.map_values(
            |w: Seq<char>| lower_seq(w),
        ));
    } else {
        assert(ps.map_values(|w: Seq<char>| lower_seq(w)) =~= Seq::<Seq<char>>::empty());
    }
}

proof fn lemma_upper_join(ws: Seq<Seq<char>>, sep: char)
    requires
        ascii_upper(sep) == sep,
    ensures
        upper_seq(join_with(ws, sep)) == join_with(ws.map_values(|w: Seq<char>| upper_seq(w)), sep),
    decreases ws.len(),
{
    let us = ws.map_values(|w: Seq<char>| upper_seq(w));
    if ws.len() == 0 {
        assert(upper_seq(Seq::<char>::empty()) =~= Seq::<char>::empty());
    } else if ws.len() == 1 {
    } else {
        let d = ws.drop_last();
        lemma_upper_join(d, sep);
        assert(us.drop_last() =~= d.map_values(|w: Seq<char>| upper_seq(w)));
        assert(upper_seq(join_with(d, sep).push(sep) + ws.last()) =~= upper_seq(join_with(d, sep)).push(
            sep,
        ) + upper_seq(ws.last()));
    }
}

proof fn lemma_words_of_join(ws: Seq<Seq<char>>, sep: char)
    requires
        is_separator(sep),
        solid_words(ws),
    ensures
        words_spec(join_with(ws, sep)) == ws.map_values(|w: Seq<char>| lower_seq(w)),
{
    if ws.len() == 0 {
        let e = Seq::<char>::empty();
        assert(pieces(e) == seq![e]);
        assert(seq![e].drop_last() =~= Seq::<Seq<char>>::empty());
        assert(nonempty_lower(seq![e]) == nonempty_lower(Seq::<Seq<char>>::empty()));
        assert(ws.map_values(|w: Seq<char>| lower_seq(w)) =~= Seq::<Seq<char>>::empty());
    } else {
        lemma_pieces_join(ws, sep);
        assert forall|j: int| 0 <= j < ws.len() implies (#[trigger] ws[j]).len() > 0 by {}
        lemma_nonempty_lower_all(ws);
    }
}

proof fn lemma_clean_words_lower(ws: Seq<Seq<char>>)
    requires
        forall|j: int| 0 <= j < ws.len() ==> clean_word(#[trigger] ws[j]),
    ensures
        solid_words(ws),
        ws.map_values(|w: Seq<char>| lower_seq(w)) == ws,
        solid_words(ws.map_values(|w: Seq<char>| upper_seq(w))),
        ws.map_values(|w: Seq<char>| upper_seq(w)).map_values(|w: Seq<char>| lower_seq(w)) == ws,
{
    let us = ws.map_values(|w: Seq<char>| upper_seq(w));
    assert forall|j: int| 0 <= j < ws.len() implies lower_seq(ws[j]) == ws[j] && lower_seq(upper_seq(ws[j]))
        == ws[j] && (#[trigger] us[j]).len() > 0 && forall|i: int|
        0 <= i < us[j].len() ==> !is_separator(#[trigger] us[j][i]) by {
        assert(clean_word(ws[j]));
        assert forall|i: int| 0 <= i < ws[j].len() implies lower_seq(ws[j])[i] == ws[j][i] && lower_seq(
            upper_seq(ws[j]),
        )[i] == ws[j][i] && !is_separator(upper_seq(ws[j])[i]) by {
            lemma_char_case(ws[j][i]);
        }
        assert(lower_seq(ws[j]) =~= ws[j]);
        assert(lower_seq(upper_seq(ws[j])) =~= ws[j]);
    }
    assert forall|j: int| 0 <= j < ws.len() implies lower_seq(#[trigger] ws[j]) == ws[j] by {
        assert(us[j] == upper_seq(ws[j]));
    }
    assert(ws.map_values(|w: Seq<char>| lower_seq(w)) =~= ws);
    assert(us.map_values(|w: Seq<char>| lower_seq(w)) =~= ws);
}

/// The lower-case, upper-case, snake, kebab and both screaming styles leave their own output
/// unchanged: applying one of them a second time gives the same name again.
pub proof fn law_case_styles_idempotent(style: Seq<char>, x: Seq<char>)
    requires
        style == "lowercase"@ || style == "UPPERCASE"@ || style == "snake_case"@ || style
            == "SCREAMING_SNAKE_CASE"@ || style == "kebab-case"@ || style == "SCREAMING-KEBAB-CASE"@,
    ensures
        rename_all_spec(style, x) matches Some(y) && rename_all_spec(style, y) == Some(y),
{
    lemma_style_names();
    let ws = words_spec(x);
    law_words_are_clean(x);
    lemma_clean_words_lower(ws);
    let us = ws.map_values(|w: Seq<char>| upper_seq(w));
    lemma_char_case('_');
    if style == "lowercase"@ {
        lemma_lower_idempotent(x);
    } else if style == "UPPERCASE"@ {
        lemma_upper_idempotent(x);
    } else if style == "snake_case"@ {
        lemma_words_of_join(ws, '_');
    } else if style == "kebab-case"@ {
        lemma_words_of_join(ws, '-');
    } else if style == "SCREAMING_SNAKE_CASE"@ {
        lemma_upper_join(ws, '_');
        lemma_words_of_join(us, '_');
    } else {
        lemma_upper_join(ws, '-');
        lemma_words_of_join(us, '-');
    }
}

proof fn lemma_pieces_inner(s: Seq<char>)
    requires
        forall|i: int| 0 <= i < s.len() ==> #[trigger] s[i] != '-',
        s.len() > 0 ==> s[0] != '_',
        forall|i: int| 0 <= i < s.len() - 1 && #[trigger] s[i] == '_' ==> s[i + 1] != '_',
    ensures
        forall|j: int| 0 <= j < pieces(s).len() - 1 ==> (#[trigger] pieces(s)[j]).len() > 0,
        (pieces(s).last().len() == 0) == (s.len() == 0 || s.last() == '_'),
    decreases s.len(),
{
    if s.len() > 0 {
        let d = s.drop_last();
        assert forall|i: int| 0 <= i < d.len() implies #[trigger] d[i] != '-' by {
            assert(d[i] == s[i]);
        }
        assert forall|i: int| 0 <= i < d.len() - 1 && #[trigger] d[i] == '_' implies d[i + 1] != '_' by {
            assert(d[i] == s[i] && d[i + 1] == s[i + 1]);
        }
        lemma_pieces_inner(d);
        lemma_pieces_nonempty(d);
        let p = pieces(d);
        let c = s.last();
        if c == '_' {
            if d.len() > 0 {
                assert(s[s.len() - 2] == d.last());
                assert(d.last() != '_');
            }
            assert(p.last().len() > 0);
            let q = p.push(Seq::<char>::empty());
            assert forall|j: int| 0 <= j < q.len() - 1 implies (#[trigger] q[j]).len() > 0 by {
                assert(q[j] == p[j]);
            }
        } else {
            assert(c == s[s.len() - 1]);
            let q = p.update(p.len() - 1, p.last().push(c));
            assert forall|j: int| 0 <= j < q.len() - 1 implies (#[trigger] q[j]).len() > 0 by {
                assert(q[j] == p[j]);
            }
        }
    }
}

proof fn lemma_pieces_no_capitals(s: Seq<char>)
    requires
        forall|i: int| 0 <= i < s.len() ==> !is_capital(#[trigger] s[i]),
    ensures
        forall|j: int, i: int|
            0 <= j < pieces(s).len() && 0 <= i < pieces(s)[j].len() ==> !is_capital(
                #[trigger] pieces(s)[j][i],
            ),
    decreases s.len(),
{
    if s.len() > 0 {
        let d = s.drop_last();
        assert forall|i: int| 0 <= i < d.len() implies !is_capital(#[trigger] d[i]) by {
            assert(d[i] == s[i]);
        }
        lemma_pieces_no_capitals(d);
        lemma_pieces_nonempty(d);
        let p = pieces(d);
        let c = s.last();
        assert(c == s[s.len() - 1]);
        if is_separator(c) {
            let q = p.push(Seq::<char>::empty());
            assert forall|j: int, i: int| 0 <= j < q.len() && 0 <= i < q[j].len() implies !is_capital(
                #[trigger] q[j][i],
            ) by {
                assert(q[j] == p[j]);
            }
        } else {
            let q = p.update(p.len() - 1, p.last().push(c));
            assert forall|j: int, i: int| 0 <= j < q.len() && 0 <= i < q[j].len() implies !is_capital(
                #[trigger] q[j][i],
            ) by {
                if j == p.len() - 1 && i == p.last().len() {
                } else if j == p.len() - 1 {
                    assert(q[j][i] == p[j][i]);
                } else {
                    assert(q[j] == p[j]);
                }
            }
        }
    }
}

proof fn lemma_join_pieces(s: Seq<char>)
    requires
        forall|i: int| 0 <= i < s.len() ==> #[trigger] s[i] != '-',
    ensures
        join_with(pieces(s), '_') == s,
    decreases s.len(),
{
    if s.len() == 0 {
        assert(s =~= Seq::<char>::empty());
        assert(pieces(s) == seq![s]);
        assert(join_with(seq![s], '_') == s);
    } else {
        let d = s.drop_last();
        assert forall|i: int| 0 <= i < d.len() implies #[trigger] d[i] != '-' by {
            assert(d[i] == s[i]);
        }
        lemma_join_pieces(d);
        lemma_pieces_nonempty(d);
        let p = pieces(d);
        let c = s.last();
        assert(c == s[s.len() - 1]);
        if c == '_' {
            let q = p.push(Seq::<char>::empty());
            assert(q.drop_last() =~= p);
            assert(join_with(q, '_') =~= d.push('_'));
            assert(d.push('_') =~= s);
        } else {
            let q = p.update(p.len() - 1, p.last().push(c));
            if p.len() == 1 {
                assert(join_with(q, '_') == q[0]);
                assert(join_with(p, '_') == p[0]);
            } else {
                assert(q.drop_last() =~= p.drop_last());
                assert(join_with(q, '_') =~= join_with(p, '_').push(c));
            }
            assert(d.push(c) =~= s);
        }
    }
}

proof fn lemma_concat_capitalized_first(ws: Seq<Seq<char>>)
    requires
        ws.len() >= 1,
    ensures
        concat_capitalized(ws) == capitalize(ws[0]) + concat_capitalized(ws.drop_first()),
    decreases ws.len(),
{
    let e = Seq::<Seq<char>>::empty();
    if ws.len() == 1 {
        assert(ws.drop_last() =~= e);
        assert(ws.drop_first() =~= e);
        assert(concat_capitalized(e) == Seq::<char>::empty());
        assert(capitalize(ws[0]) + Seq::<char>::empty() =~= capitalize(ws[0]));
        assert(Seq::<char>::empty() + capitalize(ws[0]) =~= capitalize(ws[0]));
    } else {
        let d = ws.drop_last();
        lemma_concat_capitalized_first(d);
        assert(ws.drop_first().drop_last() =~= d.drop_first());
        assert(ws.drop_first().last() == ws.last());
        assert(d[0] == ws[0]);
        assert(concat_capitalized(ws) =~= capitalize(ws[0]) + concat_capitalized(ws.drop_first()));
    }
}

/// What the styles make of a plain snake_case field name (`^[a-z][a-z0-9]*(_[a-z0-9]+)*$`):
/// lowercase and snake_case leave it as it is, UPPERCASE and SCREAMING_SNAKE_CASE upper-case
/// it, kebab-case replaces each `_` by `-` (and SCREAMING-KEBAB-CASE upper-cases that),
/// PascalCase capitalizes each `_`-separated word and drops the `_`, and camelCase does the
/// same but keeps the first word as it is.
pub proof fn law_plain_snake_names(s: Seq<char>)
    requires
        plain_snake(s),
    ensures
        rename_all_spec("lowercase"@, s) == Some(s),
        rename_all_spec("snake_case"@, s) == Some(s),
        rename_all_spec("UPPERCASE"@, s) == Some(upper_seq(s)),
        rename_all_spec("SCREAMING_SNAKE_CASE"@, s) == Some(upper_seq(s)),
        rename_all_spec("kebab-case"@, s) == Some(replace_char(s, '_', '-')),
        rename_all_spec("SCREAMING-KEBAB-CASE"@, s) == Some(upper_seq(replace_char(s, '_', '-'))),
        rename_all_spec("PascalCase"@, s) == Some(concat_capitalized(pieces(s))),
        rename_all_spec("camelCase"@, s) == Some(
            pieces(s)[0] + concat_capitalized(pieces(s).drop_first()),
        ),
{
    lemma_style_names();
    assert forall|i: int| 0 <= i < s.len() implies #[trigger] s[i] != '-' && !is_capital(s[i])
        && ascii_lower(s[i]) == s[i] by {
        lemma_char_case(s[i]);
    }
    assert(lower_seq(s) =~= s);
    assert forall|i: int| 0 <= i < s.len() - 1 && #[trigger] s[i] == '_' implies s[i + 1] != '_' by {}
    lemma_pieces_inner(s);
    lemma_pieces_nonempty(s);
    lemma_pieces_no_capitals(s);
    lemma_join_pieces(s);
    let ps = pieces(s);
    assert(ps.last() == ps[ps.len() - 1]);
    assert forall|j: int| 0 <= j < ps.len() implies (#[trigger] ps[j]).len() > 0 && lower_seq(ps[j])
        == ps[j] by {
        assert forall|i: int| 0 <= i < ps[j].len() implies lower_seq(ps[j])[i] == ps[j][i] by {
            lemma_char_case(ps[j][i]);
        }
        assert(lower_seq(ps[j]) =~= ps[j]);
    }
    lemma_nonempty_lower_all(ps);
    assert(ps.map_values(|w: Seq<char>| lower_seq(w)) =~= ps);
    assert(words_spec(s) == ps);
    law_styles_relate(s);
    lemma_concat_capitalized_first(ps);
    let w0 = ps[0];
    let rest = concat_capitalized(ps.drop_first());
    let p = pascal_spec(s);
    assert(p == capitalize(w0) + rest);
    assert(w0.len() > 0);
    lemma_char_case(w0[0]);
    assert(p[0] == ascii_upper(w0[0]));
    assert(camel_spec(s) =~= w0 + rest);
}

} // verus!
