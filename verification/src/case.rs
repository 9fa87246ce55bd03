//! serde `rename_all` case conversions of Rust field names.
use vstd::prelude::*;
use crate::text::{
    ascii_lower, ascii_upper, char_to_ascii_lowercase, char_to_ascii_uppercase, chars_of,
    lower_seq, push_char, str_eq, to_ascii_lowercase, to_ascii_uppercase, upper_seq,
};

verus! {

/// The characters that separate words in an identifier.
pub open spec fn is_separator(c: char) -> bool {
    c == '_' || c == '-'
}

/// The pieces of `s` between separators, as `str::split` yields them: `n` separators give
/// `n + 1` pieces, empty ones included.
pub open spec fn pieces(s: Seq<char>) -> Seq<Seq<char>>
    decreases s.len(),
{
    if s.len() == 0 {
        seq![Seq::<char>::empty()]
    } else {
        let p = pieces(s.drop_last());
        if is_separator(s.last()) {
            p.push(Seq::<char>::empty())
        } else {
            p.update(p.len() - 1, p.last().push(s.last()))
        }
    }
}

/// The non-empty pieces, each in ASCII lower case, in order.
pub open spec fn nonempty_lower(ps: Seq<Seq<char>>) -> Seq<Seq<char>>
    decreases ps.len(),
{
    if ps.len() == 0 {
        Seq::<Seq<char>>::empty()
    } else {
        let r = nonempty_lower(ps.drop_last());
        if ps.last().len() == 0 {
            r
        } else {
            r.push(lower_seq(ps.last()))
        }
    }
}

/// The words of an identifier: its non-empty pieces between `_` and `-`, in lower case.
pub open spec fn words_spec(s: Seq<char>) -> Seq<Seq<char>> {
    nonempty_lower(pieces(s))
}

/// A word with its first character in upper case.
pub open spec fn capitalize(w: Seq<char>) -> Seq<char> {
    if w.len() == 0 {
        w
    } else {
        w.update(0, ascii_upper(w[0]))
    }
}

/// The capitalized words, concatenated.
pub open spec fn concat_capitalized(ws: Seq<Seq<char>>) -> Seq<char>
    decreases ws.len(),
{
    if ws.len() == 0 {
        Seq::<char>::empty()
    } else {
        concat_capitalized(ws.drop_last()) + capitalize(ws.last())
    }
}

/// The words joined with `sep` between each two of them.
pub open spec fn join_with(ws: Seq<Seq<char>>, sep: char) -> Seq<char>
    decreases ws.len(),
{
    if ws.len() == 0 {
        Seq::<char>::empty()
    } else if ws.len() == 1 {
        ws[0]
    } else {
        join_with(ws.drop_last(), sep).push(sep) + ws.last()
    }
}

/// PascalCase of an identifier.
pub open spec fn pascal_spec(s: Seq<char>) -> Seq<char> {
    concat_capitalized(words_spec(s))
}

/// camelCase of an identifier: its PascalCase with the first character in lower case.
pub open spec fn camel_spec(s: Seq<char>) -> Seq<char> {
    let p = pascal_spec(s);
    if p.len() == 0 {
        p
    } else {
        p.update(0, ascii_lower(p[0]))
    }
}

/// The name serde gives the field `ident` under the container attribute `rename_all = style`,
/// or `None` where `style` is none of the eight styles serde knows.
pub open spec fn rename_all_spec(style: Seq<char>, ident: Seq<char>) -> Option<Seq<char>> {
    if style == "lowercase"@ {
        Some(lower_seq(ident))
    } else if style == "UPPERCASE"@ {
        Some(upper_seq(ident))
    } else if style == "PascalCase"@ {
        Some(pascal_spec(ident))
    } else if style == "camelCase"@ {
        Some(camel_spec(ident))
    } else if style == "snake_case"@ {
        Some(join_with(words_spec(ident), '_'))
    } else if style == "SCREAMING_SNAKE_CASE"@ {
        Some(upper_seq(join_with(words_spec(ident), '_')))
    } else if style == "kebab-case"@ {
        Some(join_with(words_spec(ident), '-'))
    } else if style == "SCREAMING-KEBAB-CASE"@ {
        Some(upper_seq(join_with(words_spec(ident), '-')))
    } else {
        None
    }
}

/// The views of a vector of strings.
pub open spec fn string_views(v: Seq<String>) -> Seq<Seq<char>> {
    v.map_values(|w: String| w@)
}

/// The words of `ident`: the non-empty pieces between `_` and `-`, each in ASCII lower case.
pub fn words(ident: &str) -> (out: Vec<String>)
    ensures
        string_views(out@) == words_spec(ident@),
{
    let cs = chars_of(ident);
    let mut out: Vec<String> = Vec::new();
    let mut cur = String::new();
    let mut i: usize = 0;
    while i < cs.len()
        invariant
            cs@ == ident@,
            i <= cs.len(),
            string_views(out@) == nonempty_lower(pieces(ident@.take(i as int)).drop_last()),
            cur@ == lower_seq(pieces(ident@.take(i as int)).last()),
            pieces(ident@.take(i as int)).len() >= 1,
        decreases cs.len() - i,
    {
        let c = cs[i];
        let ghost pre = ident@.take(i as int);
        let ghost p = pieces(pre);
        assert(ident@.take(i + 1).drop_last() =~= pre);
        assert(ident@.take(i + 1).last() == c);
        if c == '_' || c == '-' {
            assert(pieces(ident@.take(i + 1)) == p.push(Seq::<char>::empty()));
            assert(pieces(ident@.take(i + 1)).drop_last() =~= p);
            if !cur.as_str().is_empty() {
                assert(p.last().len() > 0);
                assert(string_views(out@.push(cur)) =~= string_views(out@).push(cur@));
                out.push(cur);
            } else {
                assert(p.last().len() == 0) by {
                    if p.last().len() > 0 {
                        assert(lower_seq(p.last()).len() > 0);
                    }
                }
            }
            assert(p =~= p.drop_last().push(p.last()));
            cur = String::new();
            assert(cur@ =~= lower_seq(Seq::<char>::empty()));
        } else {
            let lc = char_to_ascii_lowercase(c);
            push_char(&mut cur, lc);
            let ghost q = p.update(p.len() - 1, p.last().push(c));
            assert(pieces(ident@.take(i + 1)) == q);
            assert(q.drop_last() =~= p.drop_last());
            assert(lower_seq(q.last()) =~= lower_seq(p.last()).push(lc));
        }
        i = i + 1;
    }
    assert(ident@.take(cs.len() as int) =~= ident@);
    let ghost p = pieces(ident@);
    assert(p =~= p.drop_last().push(p.last()));
    if !cur.as_str().is_empty() {
        assert(string_views(out@.push(cur)) =~= string_views(out@).push(cur@));
        out.push(cur);
    } else {
        assert(p.last().len() == 0) by {
            if p.last().len() > 0 {
                assert(lower_seq(p.last()).len() > 0);
            }
        }
    }
    out
}

/// `w` with its first character in ASCII upper case.
fn capitalized(w: &str) -> (r: String)
    ensures
        r@ == capitalize(w@),
{
    let cs = chars_of(w);
    let mut r = String::new();
    let mut i: usize = 0;
    while i < cs.len()
        invariant
            cs@ == w@,
            i <= cs.len(),
            r@ == capitalize(w@).take(i as int),
        decreases cs.len() - i,
    {
        let c = if i == 0 {
            char_to_ascii_uppercase(cs[i])
        } else {
            cs[i]
        };
        push_char(&mut r, c);
        assert(capitalize(w@).take(i + 1) =~= capitalize(w@).take(i as int).push(c));
        i = i + 1;
    }
    assert(capitalize(w@).take(cs.len() as int) =~= capitalize(w@));
    r
}

/// PascalCase of `ident`: its words, each with the first character in upper case, concatenated.
pub fn pascal(ident: &str) -> (r: String)
    ensures
        r@ == pascal_spec(ident@),
{
    let ws = words(ident);
    let ghost views = string_views(ws@);
    let mut r = String::new();
    let mut k: usize = 0;
    while k < ws.len()
        invariant
            views == string_views(ws@),
            views == words_spec(ident@),
            k <= ws.len(),
            r@ == concat_capitalized(views.take(k as int)),
        decreases ws.len() - k,
    {
        let piece = capitalized(ws[k].as_str());
        assert(views[k as int] == ws@[k as int]@);
        assert(views.take(k + 1).drop_last() =~= views.take(k as int));
        r.append(piece.as_str());
        k = k + 1;
    }
    assert(views.take(ws.len() as int) =~= views);
    r
}

/// camelCase of `ident`: its PascalCase with the first character in ASCII lower case.
pub fn camel(ident: &str) -> (r: String)
    ensures
        r@ == camel_spec(ident@),
{
    let p = pascal(ident);
    let cs = chars_of(p.as_str());
    let mut r = String::new();
    let mut i: usize = 0;
    while i < cs.len()
        invariant
            cs@ == p@,
            p@ == pascal_spec(ident@),
            i <= cs.len(),
            r@ == camel_spec(ident@).take(i as int),
        decreases cs.len() - i,
    {
        let c = if i == 0 {
            char_to_ascii_lowercase(cs[i])
        } else {
            cs[i]
        };
        push_char(&mut r, c);
        assert(camel_spec(ident@).take(i + 1) =~= camel_spec(ident@).take(i as int).push(c));
        i = i + 1;
    }
    assert(camel_spec(ident@).take(cs.len() as int) =~= camel_spec(ident@));
    r
}

/// The words joined with `sep` between each two of them.
fn join(ws: &Vec<String>, sep: char) -> (r: String)
    ensures
        r@ == join_with(string_views(ws@), sep),
{
    let ghost views = string_views(ws@);
    let mut r = String::new();
    let mut k: usize = 0;
    while k < ws.len()
        invariant
            views == string_views(ws@),
            k <= ws.len(),
            r@ == join_with(views.take(k as int), sep),
        decreases ws.len() - k,
    {
        assert(views[k as int] == ws@[k as int]@);
        assert(views.take(k + 1).drop_last() =~= views.take(k as int));
        if k > 0 {
            push_char(&mut r, sep);
        } else {
            assert(views.take(1) =~= seq![views[0]]);
            assert(r@ + ws@[0]@ =~= ws@[0]@);
        }
        r.append(ws[k].as_str());
        k = k + 1;
    }
    assert(views.take(ws.len() as int) =~= views);
    r
}

/// The name serde gives the field `ident` under `#[serde(rename_all = style)]`; `None` where
/// `style` is not one of lowercase, UPPERCASE, PascalCase, camelCase, snake_case,
/// SCREAMING_SNAKE_CASE, kebab-case, SCREAMING-KEBAB-CASE.
pub fn rename_all(style: &str, ident: &str) -> (r: Option<String>)
    ensures
        r matches Some(s) ==> rename_all_spec(style@, ident@) == Some(s@),
        r is None <==> rename_all_spec(style@, ident@) is None,
{
    proof {
        reveal_strlit("lowercase");
        reveal_strlit("UPPERCASE");
        reveal_strlit("PascalCase");
        reveal_strlit("camelCase");
        reveal_strlit("snake_case");
        reveal_strlit("SCREAMING_SNAKE_CASE");
        reveal_strlit("kebab-case");
        reveal_strlit("SCREAMING-KEBAB-CASE");
    }
    if str_eq(style, "lowercase") {
        Some(to_ascii_lowercase(ident))
    } else if str_eq(style, "UPPERCASE") {
        Some(to_ascii_uppercase(ident))
    } else if str_eq(style, "PascalCase") {
        Some(pascal(ident))
    } else if str_eq(style, "camelCase") {
        Some(camel(ident))
    } else if str_eq(style, "snake_case") {
        Some(join(&words(ident), '_'))
    } else if str_eq(style, "SCREAMING_SNAKE_CASE") {
        let joined = join(&words(ident), '_');
        Some(to_ascii_uppercase(joined.as_str()))
    } else if str_eq(style, "kebab-case") {
        Some(join(&words(ident), '-'))
    } else if str_eq(style, "SCREAMING-KEBAB-CASE") {
        let joined = join(&words(ident), '-');
        Some(to_ascii_uppercase(joined.as_str()))
    } else {
        None
    }
}

} // verus!
