//! The laws of the sanitizer: its lists do not overlap, sanitizing what it
//! gave changes nothing, and none of the dangerous texts stands in what it
//! gives, in any case of letters.

use crate::css_sanitizer::{
    allowed_properties, dangerous_patterns, forbidden_properties, is_dangerous,
    is_safe_declaration, join_declarations, property_of, safe_declarations, sanitize_spec,
    value_of,
};
use crate::merge::has_double_semicolon;
use crate::text::{
    contains, index_of, is_space, is_trimmed, lemma_index_of, lemma_index_of_is,
    lemma_trim_bounds, lemma_trim_is, lower, lower_char, occurs_at, trim,
};
use vstd::prelude::*;

verus! {

/// The allow-list and the forbidden list share no property name.
pub proof fn lemma_lists_disjoint()
    ensures
        forall|p: Seq<char>| allowed_properties().contains(p) ==> !forbidden_properties().contains(p),
{
    reveal_strlit("color");
    reveal_strlit("background-color");
    reveal_strlit("background");
    reveal_strlit("background-image");
    reveal_strlit("background-size");
    reveal_strlit("background-position");
    reveal_strlit("background-repeat");
    reveal_strlit("font-size");
    reveal_strlit("font-family");
    reveal_strlit("font-weight");
    reveal_strlit("font-style");
    reveal_strlit("line-height");
    reveal_strlit("letter-spacing");
    reveal_strlit("text-align");
    reveal_strlit("text-decoration");
    reveal_strlit("text-transform");
    reveal_strlit("text-shadow");
    reveal_strlit("white-space");
    reveal_strlit("border");
    reveal_strlit("border-radius");
    reveal_strlit("border-color");
    reveal_strlit("border-width");
    reveal_strlit("border-style");
    reveal_strlit("border-top");
    reveal_strlit("border-right");
    reveal_strlit("border-bottom");
    reveal_strlit("border-left");
    reveal_strlit("outline");
    reveal_strlit("padding");
    reveal_strlit("padding-top");
    reveal_strlit("padding-right");
    reveal_strlit("padding-bottom");
    reveal_strlit("padding-left");
    reveal_strlit("margin");
    reveal_strlit("margin-top");
    reveal_strlit("margin-right");
    reveal_strlit("margin-bottom");
    reveal_strlit("margin-left");
    reveal_strlit("width");
    reveal_strlit("height");
    reveal_strlit("min-width");
    reveal_strlit("max-width");
    reveal_strlit("min-height");
    reveal_strlit("max-height");
    reveal_strlit("display");
    reveal_strlit("opacity");
    reveal_strlit("visibility");
    reveal_strlit("overflow");
    reveal_strlit("cursor");
    reveal_strlit("box-shadow");
    reveal_strlit("box-sizing");
    reveal_strlit("transition");
    reveal_strlit("transform");
    reveal_strlit("filter");
    reveal_strlit("flex");
    reveal_strlit("flex-direction");
    reveal_strlit("flex-wrap");
    reveal_strlit("justify-content");
    reveal_strlit("align-items");
    reveal_strlit("gap");
    reveal_strlit("behavior");
    reveal_strlit("binding");
    reveal_strlit("-moz-binding");
    reveal_strlit("-webkit-binding");
    reveal_strlit("expression");
    reveal_strlit("position");
    reveal_strlit("z-index");
    reveal_strlit("content");
    let allowed = allowed_properties();
    let forbidden = forbidden_properties();
    assert forall|i: int, j: int|
        0 <= i < allowed.len() && 0 <= j < forbidden.len() implies allowed[i] != forbidden[j] by {
        let a = allowed[i];
        let f = forbidden[j];
        if a == f {
            assert(a.len() == f.len());
            assert(a[0] == f[0]);
            assert(a[1] == f[1]);
            assert(a[2] == f[2]);
        }
    }
}

/// A text without an ASCII capital letter.
pub open spec fn is_lower_case(s: Seq<char>) -> bool {
    lower(s) == s
}

/// Every name on the allow-list and on the forbidden list is in lower case,
/// as the property names are that are looked up in them.
pub proof fn lemma_lists_lower_case()
    ensures
        forall|i: int|
            0 <= i < allowed_properties().len() ==> is_lower_case(
                #[trigger] allowed_properties()[i],
            ),
        forall|i: int|
            0 <= i < forbidden_properties().len() ==> is_lower_case(
                #[trigger] forbidden_properties()[i],
            ),
{
    reveal_strlit("color");
    reveal_strlit("background-color");
    reveal_strlit("background");
    reveal_strlit("background-image");
    reveal_strlit("background-size");
    reveal_strlit("background-position");
    reveal_strlit("background-repeat");
    reveal_strlit("font-size");
    reveal_strlit("font-family");
    reveal_strlit("font-weight");
    reveal_strlit("font-style");
    reveal_strlit("line-height");
    reveal_strlit("letter-spacing");
    reveal_strlit("text-align");
    reveal_strlit("text-decoration");
    reveal_strlit("text-transform");
    reveal_strlit("text-shadow");
    reveal_strlit("white-space");
    reveal_strlit("border");
    reveal_strlit("border-radius");
    reveal_strlit("border-color");
    reveal_strlit("border-width");
    reveal_strlit("border-style");
    reveal_strlit("border-top");
    reveal_strlit("border-right");
    reveal_strlit("border-bottom");
    reveal_strlit("border-left");
    reveal_strlit("outline");
    reveal_strlit("padding");
    reveal_strlit("padding-top");
    reveal_strlit("padding-right");
    reveal_strlit("padding-bottom");
    reveal_strlit("padding-left");
    reveal_strlit("margin");
    reveal_strlit("margin-top");
    reveal_strlit("margin-right");
    reveal_strlit("margin-bottom");
    reveal_strlit("margin-left");
    reveal_strlit("width");
    reveal_strlit("height");
    reveal_strlit("min-width");
    reveal_strlit("max-width");
    reveal_strlit("min-height");
    reveal_strlit("max-height");
    reveal_strlit("display");
    reveal_strlit("opacity");
    reveal_strlit("visibility");
    reveal_strlit("overflow");
    reveal_strlit("cursor");
    reveal_strlit("box-shadow");
    reveal_strlit("box-sizing");
    reveal_strlit("transition");
    reveal_strlit("transform");
    reveal_strlit("filter");
    reveal_strlit("flex");
    reveal_strlit("flex-direction");
    reveal_strlit("flex-wrap");
    reveal_strlit("justify-content");
    reveal_strlit("align-items");
    reveal_strlit("gap");
    reveal_strlit("behavior");
    reveal_strlit("binding");
    reveal_strlit("-moz-binding");
    reveal_strlit("-webkit-binding");
    reveal_strlit("expression");
    reveal_strlit("position");
    reveal_strlit("z-index");
    reveal_strlit("content");
    assert forall|i: int| 0 <= i < allowed_properties().len() implies is_lower_case(
        #[trigger] allowed_properties()[i],
    ) by {
        assert(lower(allowed_properties()[i]) =~= allowed_properties()[i]);
    }
    assert forall|i: int| 0 <= i < forbidden_properties().len() implies is_lower_case(
        #[trigger] forbidden_properties()[i],
    ) by {
        assert(lower(forbidden_properties()[i]) =~= forbidden_properties()[i]);
    }
}

/// A declaration as the sanitizer writes it: safe, trimmed and without `;`.
pub open spec fn is_kept_declaration(d: Seq<char>) -> bool {
    &&& is_safe_declaration(d)
    &&& is_trimmed(d)
    &&& forall|k: int| 0 <= k < d.len() ==> d[k] != ';'
}

/// Every declaration of the list is as the sanitizer writes it.
pub open spec fn all_kept(ds: Seq<Seq<char>>) -> bool {
    forall|i: int| 0 <= i < ds.len() ==> is_kept_declaration(#[trigger] ds[i])
}

/// The declarations that stay are safe, trimmed and without `;`.
pub proof fn lemma_safe_declarations_kept(s: Seq<char>)
    ensures
        all_kept(safe_declarations(s)),
    decreases s.len(),
{
    lemma_index_of(s, ';');
    let i = index_of(s, ';');
    let piece = s.subrange(0, i);
    let d = trim(piece);
    let (a, b) = lemma_trim_bounds(piece);
    assert forall|k: int| 0 <= k < d.len() implies d[k] != ';' by {
        assert(d[k] == s[a + k]);
    }
    let head = if is_safe_declaration(d) {
        seq![d]
    } else {
        Seq::<Seq<char>>::empty()
    };
    assert(all_kept(head));
    if 0 <= i < s.len() {
        lemma_safe_declarations_kept(s.subrange(i + 1, s.len() as int));
    }
}

/// A joined list begins with its first declaration; the others follow after `"; "`.
pub proof fn lemma_join_first(ds: Seq<Seq<char>>)
    requires
        ds.len() >= 2,
    ensures
        join_declarations(ds) == ds[0] + seq![';', ' '] + join_declarations(ds.drop_first()),
    decreases ds.len(),
{
    if ds.len() == 2 {
        assert(ds.drop_last() =~= seq![ds[0]]);
        assert(ds.drop_first() =~= seq![ds[1]]);
        assert(join_declarations(ds.drop_last()) == ds[0]);
        assert(join_declarations(ds.drop_first()) == ds[1]);
    } else {
        lemma_join_first(ds.drop_last());
        assert(ds.drop_last().drop_first() =~= ds.drop_first().drop_last());
        assert(ds.drop_last()[0] == ds[0]);
        assert(ds.drop_first().last() == ds.last());
        assert(join_declarations(ds) =~= ds[0] + seq![';', ' '] + join_declarations(
            ds.drop_first(),
        ));
    }
}

/// Cutting a joined list of kept declarations at its `;` gives the
/// declarations back, whatever white space stands before the first.
proof fn lemma_split_joined(pre: Seq<char>, ds: Seq<Seq<char>>)
    requires
        forall|k: int| 0 <= k < pre.len() ==> is_space(#[trigger] pre[k]),
        all_kept(ds),
    ensures
        safe_declarations(pre + join_declarations(ds)) == ds,
    decreases ds.len(),
{
    let s = pre + join_declarations(ds);
    if ds.len() == 0 {
        assert(s =~= pre);
        lemma_index_of_is(s, ';', s.len() as int);
        assert(s.subrange(0, s.len() as int) =~= s);
        lemma_trim_is(s, s.len() as int, s.len() as int);
        assert(trim(s) =~= Seq::<char>::empty());
        lemma_index_of(trim(s), ':');
        assert(safe_declarations(s) =~= ds);
    } else {
        let d = ds[0];
        let rest = ds.drop_first();
        assert(is_kept_declaration(d));
        lemma_index_of(d, ':');
        assert(d.len() > 0);
        assert(all_kept(rest)) by {
            assert forall|i: int| 0 <= i < rest.len() implies is_kept_declaration(
                #[trigger] rest[i],
            ) by {
                assert(rest[i] == ds[i + 1]);
            }
        }
        let cut = (pre.len() + d.len()) as int;
        if rest.len() == 0 {
            assert(join_declarations(ds) == d);
            assert(cut == s.len());
            lemma_index_of_is(s, ';', cut);
        } else {
            lemma_join_first(ds);
            assert(s =~= pre + d + seq![';', ' '] + join_declarations(rest));
            assert(s[cut] == ';');
            lemma_index_of_is(s, ';', cut);
            assert(s.subrange(cut + 1, s.len() as int) =~= seq![' '] + join_declarations(rest));
            lemma_split_joined(seq![' '], rest);
        }
        let piece = s.subrange(0, cut);
        assert(piece =~= pre + d);
        lemma_trim_is(piece, pre.len() as int, cut);
        assert(piece.subrange(pre.len() as int, cut) =~= d);
        assert(trim(piece) == d);
        assert(seq![d] + rest =~= ds);
        if rest.len() == 0 {
            assert(seq![d] =~= ds);
        }
    }
}

/// Sanitizing what the sanitizer gave changes nothing.
pub proof fn lemma_sanitize_fixed_point(s: Seq<char>)
    ensures
        sanitize_spec(sanitize_spec(s)) == sanitize_spec(s),
{
    let ds = safe_declarations(s);
    lemma_safe_declarations_kept(s);
    lemma_split_joined(Seq::empty(), ds);
    assert(Seq::<char>::empty() + join_declarations(ds) =~= join_declarations(ds));
}

/// A text without white space and without `;`.
pub open spec fn is_solid(p: Seq<char>) -> bool {
    forall|k: int| 0 <= k < p.len() ==> !is_space(#[trigger] p[k]) && p[k] != ';'
}

/// A character that a property name is made of: a small letter or a hyphen.
pub open spec fn is_name_char(c: char) -> bool {
    'a' <= c <= 'z' || c == '-'
}

/// A text made of the characters of property names.
pub open spec fn is_name(s: Seq<char>) -> bool {
    forall|k: int| 0 <= k < s.len() ==> is_name_char(#[trigger] s[k])
}

/// Where a solid text stands in the lower-case form of `s`, `s` holds
/// neither white space nor `;` there.
proof fn lemma_solid_occurrence(s: Seq<char>, p: Seq<char>, i: int)
    requires
        is_solid(p),
        occurs_at(lower(s), p, i),
    ensures
        forall|k: int| i <= k < i + p.len() ==> !is_space(#[trigger] s[k]) && s[k] != ';',
{
    assert forall|k: int| i <= k < i + p.len() implies !is_space(#[trigger] s[k]) && s[k]
        != ';' by {
        assert(lower(s).subrange(i, i + p.len())[k - i] == lower(s)[k]);
        assert(lower_char(s[k]) == p[k - i]);
    }
}

/// A text that stands in a piece of `s` stands in `s`, and one that stands
/// in `s` within the bounds of a piece stands in the piece.
proof fn lemma_occurs_in_piece(s: Seq<char>, p: Seq<char>, a: int, b: int, i: int)
    requires
        0 <= a <= b <= s.len(),
        a <= i,
        i + p.len() <= b,
    ensures
        occurs_at(lower(s), p, i) == occurs_at(lower(s.subrange(a, b)), p, i - a),
{
    assert(lower(s).subrange(i, i + p.len()) =~= lower(s.subrange(a, b)).subrange(
        i - a,
        i - a + p.len(),
    ));
}

/// A solid text that stands in `s` stands in the trimmed form of `s`.
proof fn lemma_solid_in_trimmed(s: Seq<char>, p: Seq<char>, i: int)
    requires
        is_solid(p),
        p.len() > 0,
        occurs_at(lower(s), p, i),
    ensures
        contains(lower(trim(s)), p),
{
    let (a, b) = lemma_trim_bounds(s);
    lemma_solid_occurrence(s, p, i);
    if i < a {
        assert(is_space(s[i]));
    }
    if i + p.len() > b {
        assert(is_space(s[i + p.len() - 1]));
    }
    lemma_occurs_in_piece(s, p, a, b, i);
    assert(occurs_at(lower(trim(s)), p, i - a));
}

/// A solid text that stands in two texts joined by `"; "` stands in one of
/// the two.
proof fn lemma_solid_in_joined(a: Seq<char>, b: Seq<char>, p: Seq<char>, i: int)
    requires
        is_solid(p),
        p.len() > 0,
        occurs_at(lower(a + seq![';', ' '] + b), p, i),
    ensures
        contains(lower(a), p) || contains(lower(b), p),
{
    let s = a + seq![';', ' '] + b;
    let n = a.len() as int;
    lemma_solid_occurrence(s, p, i);
    assert(s[n] == ';');
    assert(s[n + 1] == ' ');
    if i + p.len() <= n {
        lemma_occurs_in_piece(s, p, 0, n, i);
        assert(s.subrange(0, n) =~= a);
        assert(occurs_at(lower(a), p, i));
    } else if i >= n + 2 {
        lemma_occurs_in_piece(s, p, n + 2, s.len() as int, i);
        assert(s.subrange(n + 2, s.len() as int) =~= b);
        assert(occurs_at(lower(b), p, i - (n + 2)));
    } else if i <= n {
        assert(s[n] != ';');
    } else {
        assert(is_space(' '));
        assert(!is_space(s[n + 1]));
    }
}

/// A solid text that stands in a joined list stands in one of its
/// declarations.
proof fn lemma_solid_in_list(ds: Seq<Seq<char>>, p: Seq<char>)
    requires
        is_solid(p),
        p.len() > 0,
        contains(lower(join_declarations(ds)), p),
    ensures
        exists|j: int| 0 <= j < ds.len() && contains(lower(#[trigger] ds[j]), p),
    decreases ds.len(),
{
    let i = choose|i: int| occurs_at(lower(join_declarations(ds)), p, i);
    if ds.len() == 0 {
    } else if ds.len() == 1 {
        assert(contains(lower(ds[0]), p));
    } else {
        let init = ds.drop_last();
        lemma_solid_in_joined(join_declarations(init), ds.last(), p, i);
        if contains(lower(join_declarations(init)), p) {
            lemma_solid_in_list(init, p);
            let j = choose|j: int| 0 <= j < init.len() && contains(lower(#[trigger] init[j]), p);
            assert(init[j] == ds[j]);
        } else {
            assert(contains(lower(ds[ds.len() - 1]), p));
        }
    }
}

/// What the proof needs of a dangerous text: it has two characters or more,
/// is solid, holds `:` at its end or nowhere, and begins or ends with a
/// character that no property name holds.
pub open spec fn is_marked(p: Seq<char>) -> bool {
    &&& p.len() >= 2
    &&& is_solid(p)
    &&& forall|k: int| 0 <= k < p.len() - 1 ==> #[trigger] p[k] != ':'
    &&& !is_name_char(p[0]) || !is_name_char(p[p.len() - 1])
}

/// Every dangerous text is marked.
proof fn lemma_patterns_marked()
    ensures
        forall|j: int|
            0 <= j < dangerous_patterns().len() ==> is_marked(#[trigger] dangerous_patterns()[j]),
{
    reveal_strlit("javascript:");
    reveal_strlit("vbscript:");
    reveal_strlit("data:");
    reveal_strlit("expression(");
    reveal_strlit("eval(");
    reveal_strlit("document.");
    reveal_strlit("window.");
    reveal_strlit("location.");
    reveal_strlit("history.");
    reveal_strlit("navigator.");
    reveal_strlit("onload=");
    reveal_strlit("onerror=");
    reveal_strlit("onclick=");
    reveal_strlit("onmouseover=");
    reveal_strlit("behavior:");
    reveal_strlit("binding:");
    reveal_strlit("-moz-binding:");
    reveal_strlit("-webkit-binding:");
    reveal_strlit("<script");
    reveal_strlit("</script");
    assert(is_space(' '));
}

/// Every name on the allow-list is made of small letters and hyphens.
proof fn lemma_allowed_are_names()
    ensures
        forall|i: int|
            0 <= i < allowed_properties().len() ==> is_name(#[trigger] allowed_properties()[i]),
{
    reveal_strlit("color");
    reveal_strlit("background-color");
    reveal_strlit("background");
    reveal_strlit("background-image");
    reveal_strlit("background-size");
    reveal_strlit("background-position");
    reveal_strlit("background-repeat");
    reveal_strlit("font-size");
    reveal_strlit("font-family");
    reveal_strlit("font-weight");
    reveal_strlit("font-style");
    reveal_strlit("line-height");
    reveal_strlit("letter-spacing");
    reveal_strlit("text-align");
    reveal_strlit("text-decoration");
    reveal_strlit("text-transform");
    reveal_strlit("text-shadow");
    reveal_strlit("white-space");
    reveal_strlit("border");
    reveal_strlit("border-radius");
    reveal_strlit("border-color");
    reveal_strlit("border-width");
    reveal_strlit("border-style");
    reveal_strlit("border-top");
    reveal_strlit("border-right");
    reveal_strlit("border-bottom");
    reveal_strlit("border-left");
    reveal_strlit("outline");
    reveal_strlit("padding");
    reveal_strlit("padding-top");
    reveal_strlit("padding-right");
    reveal_strlit("padding-bottom");
    reveal_strlit("padding-left");
    reveal_strlit("margin");
    reveal_strlit("margin-top");
    reveal_strlit("margin-right");
    reveal_strlit("margin-bottom");
    reveal_strlit("margin-left");
    reveal_strlit("width");
    reveal_strlit("height");
    reveal_strlit("min-width");
    reveal_strlit("max-width");
    reveal_strlit("min-height");
    reveal_strlit("max-height");
    reveal_strlit("display");
    reveal_strlit("opacity");
    reveal_strlit("visibility");
    reveal_strlit("overflow");
    reveal_strlit("cursor");
    reveal_strlit("box-shadow");
    reveal_strlit("box-sizing");
    reveal_strlit("transition");
    reveal_strlit("transform");
    reveal_strlit("filter");
    reveal_strlit("flex");
    reveal_strlit("flex-direction");
    reveal_strlit("flex-wrap");
    reveal_strlit("justify-content");
    reveal_strlit("align-items");
    reveal_strlit("gap");
}

/// No name on the allow-list ends with what a dangerous text holds before
/// its closing `:`.
proof fn lemma_no_name_ends_in_scheme()
    ensures
        forall|i: int, j: int|
            0 <= i < allowed_properties().len() && 0 <= j < dangerous_patterns().len() ==> !({
                let n = #[trigger] allowed_properties()[i];
                let p = #[trigger] dangerous_patterns()[j];
                p.last() == ':' && n.len() >= p.len() - 1 && n.subrange(
                    n.len() - (p.len() - 1),
                    n.len() as int,
                ) == p.drop_last()
            }),
{
    reveal_strlit("color");
    reveal_strlit("background-color");
    reveal_strlit("background");
    reveal_strlit("background-image");
    reveal_strlit("background-size");
    reveal_strlit("background-position");
    reveal_strlit("background-repeat");
    reveal_strlit("font-size");
    reveal_strlit("font-family");
    reveal_strlit("font-weight");
    reveal_strlit("font-style");
    reveal_strlit("line-height");
    reveal_strlit("letter-spacing");
    reveal_strlit("text-align");
    reveal_strlit("text-decoration");
    reveal_strlit("text-transform");
    reveal_strlit("text-shadow");
    reveal_strlit("white-space");
    reveal_strlit("border");
    reveal_strlit("border-radius");
    reveal_strlit("border-color");
    reveal_strlit("border-width");
    reveal_strlit("border-style");
    reveal_strlit("border-top");
    reveal_strlit("border-right");
    reveal_strlit("border-bottom");
    reveal_strlit("border-left");
    reveal_strlit("outline");
    reveal_strlit("padding");
    reveal_strlit("padding-top");
    reveal_strlit("padding-right");
    reveal_strlit("padding-bottom");
    reveal_strlit("padding-left");
    reveal_strlit("margin");
    reveal_strlit("margin-top");
    reveal_strlit("margin-right");
    reveal_strlit("margin-bottom");
    reveal_strlit("margin-left");
    reveal_strlit("width");
    reveal_strlit("height");
    reveal_strlit("min-width");
    reveal_strlit("max-width");
    reveal_strlit("min-height");
    reveal_strlit("max-height");
    reveal_strlit("display");
    reveal_strlit("opacity");
    reveal_strlit("visibility");
    reveal_strlit("overflow");
    reveal_strlit("cursor");
    reveal_strlit("box-shadow");
    reveal_strlit("box-sizing");
    reveal_strlit("transition");
    reveal_strlit("transform");
    reveal_strlit("filter");
    reveal_strlit("flex");
    reveal_strlit("flex-direction");
    reveal_strlit("flex-wrap");
    reveal_strlit("justify-content");
    reveal_strlit("align-items");
    reveal_strlit("gap");
    reveal_strlit("javascript:");
    reveal_strlit("vbscript:");
    reveal_strlit("data:");
    reveal_strlit("expression(");
    reveal_strlit("eval(");
    reveal_strlit("document.");
    reveal_strlit("window.");
    reveal_strlit("location.");
    reveal_strlit("history.");
    reveal_strlit("navigator.");
    reveal_strlit("onload=");
    reveal_strlit("onerror=");
    reveal_strlit("onclick=");
    reveal_strlit("onmouseover=");
    reveal_strlit("behavior:");
    reveal_strlit("binding:");
    reveal_strlit("-moz-binding:");
    reveal_strlit("-webkit-binding:");
    reveal_strlit("<script");
    reveal_strlit("</script");
    assert forall|i: int, j: int|
        0 <= i < allowed_properties().len() && 0 <= j < dangerous_patterns().len() implies !({
            let n = #[trigger] allowed_properties()[i];
            let p = #[trigger] dangerous_patterns()[j];
            p.last() == ':' && n.len() >= p.len() - 1 && n.subrange(
                n.len() - (p.len() - 1),
                n.len() as int,
            ) == p.drop_last()
        }) by {
        let n = allowed_properties()[i];
        let p = dangerous_patterns()[j];
        let q = p.drop_last();
        let tail = n.subrange(n.len() - q.len(), n.len() as int);
        if p.last() == ':' && n.len() >= q.len() && tail == q {
            assert(tail[q.len() - 1] == q[q.len() - 1]);
            assert(tail[q.len() - 2] == q[q.len() - 2]);
            assert(tail[q.len() - 3] == q[q.len() - 3]);
            assert(tail[q.len() - 4] == q[q.len() - 4]);
            if q.len() >= 7 {
                assert(tail[q.len() - 5] == q[q.len() - 5]);
                assert(tail[q.len() - 6] == q[q.len() - 6]);
                assert(tail[q.len() - 7] == q[q.len() - 7]);
            }
        }
    }
}

/// No dangerous text stands in a declaration that the sanitizer keeps:
/// not in its property, not in its value, and not across its colon.
proof fn lemma_declaration_harmless(d: Seq<char>, j: int)
    requires
        is_safe_declaration(d),
        0 <= j < dangerous_patterns().len(),
    ensures
        !contains(lower(d), dangerous_patterns()[j]),
{
    lemma_patterns_marked();
    lemma_allowed_are_names();
    lemma_no_name_ends_in_scheme();
    lemma_index_of(d, ':');
    let p = dangerous_patterns()[j];
    let c = index_of(d, ':');
    let before = d.subrange(0, c);
    let after = d.subrange(c + 1, d.len() as int);
    let name = property_of(d);
    let n = choose|n: int| 0 <= n < allowed_properties().len() && allowed_properties()[n] == name;
    assert(is_name(allowed_properties()[n]));
    assert forall|i: int| !occurs_at(lower(d), p, i) by {
        if occurs_at(lower(d), p, i) {
            if i + p.len() <= c {
                lemma_occurs_in_piece(d, p, 0, c, i);
                lemma_solid_in_trimmed(before, p, i);
                let k = choose|k: int| occurs_at(name, p, k);
                assert(name.subrange(k, k + p.len())[0] == name[k]);
                assert(name.subrange(k, k + p.len())[p.len() - 1] == name[k + p.len() - 1]);
            } else if i > c {
                lemma_occurs_in_piece(d, p, c + 1, d.len() as int, i);
                lemma_solid_in_trimmed(after, p, i - (c + 1));
                assert(contains(lower(value_of(d)), dangerous_patterns()[j]));
                assert(is_dangerous(value_of(d)));
            } else {
                assert(lower(d).subrange(i, i + p.len())[c - i] == lower(d)[c]);
                assert(p[c - i] == ':');
                assert(c - i == p.len() - 1);
                let q = p.drop_last();
                assert(lower(d).subrange(i, i + q.len()) =~= lower(d).subrange(
                    i,
                    i + p.len(),
                ).drop_last());
                assert(occurs_at(lower(d), q, i));
                lemma_occurs_in_piece(d, q, 0, c, i);
                assert(occurs_at(lower(before), q, i));
                let (lo, hi) = lemma_trim_bounds(before);
                lemma_solid_occurrence(before, q, i);
                if i < lo {
                    assert(is_space(before[i]));
                }
                if hi < c {
                    assert(is_space(before[c - 1]));
                }
                lemma_occurs_in_piece(before, q, lo, hi, i);
                assert(occurs_at(name, q, i - lo));
                assert(name.len() == hi - lo);
                assert(name.subrange(name.len() - q.len(), name.len() as int) == q);
            }
        }
    }
}

/// The result of the sanitizer holds none of the dangerous texts, in any
/// case of letters, whatever it was given.
pub proof fn lemma_sanitized_harmless(s: Seq<char>)
    ensures
        !is_dangerous(sanitize_spec(s)),
{
    lemma_patterns_marked();
    lemma_safe_declarations_kept(s);
    let ds = safe_declarations(s);
    assert forall|j: int| 0 <= j < dangerous_patterns().len() implies !contains(
        lower(sanitize_spec(s)),
        #[trigger] dangerous_patterns()[j],
    ) by {
        let p = dangerous_patterns()[j];
        if contains(lower(join_declarations(ds)), p) {
            lemma_solid_in_list(ds, p);
            let k = choose|k: int| 0 <= k < ds.len() && contains(lower(#[trigger] ds[k]), p);
            assert(is_kept_declaration(ds[k]));
            lemma_declaration_harmless(ds[k], j);
        }
    }
}

/// The shape of a sanitized list: it neither begins nor ends with white
/// space, and each of its `;` is followed by a space, so that none stands
/// at its end and no two stand in a row.
pub open spec fn is_separated(r: Seq<char>) -> bool {
    &&& is_trimmed(r)
    &&& forall|k: int| 0 <= k < r.len() && #[trigger] r[k] == ';' ==> k + 1 < r.len() && r[k + 1] == ' '
}

/// A joined list of kept declarations is separated.
proof fn lemma_joined_separated(ds: Seq<Seq<char>>)
    requires
        all_kept(ds),
    ensures
        is_separated(join_declarations(ds)),
        ds.len() > 0 ==> join_declarations(ds).len() > 0,
    decreases ds.len(),
{
    if ds.len() == 0 {
    } else {
        let d = ds.last();
        assert(is_kept_declaration(d));
        lemma_index_of(d, ':');
        assert(d.len() > 0);
        if ds.len() > 1 {
            let init = ds.drop_last();
            assert(all_kept(init)) by {
                assert forall|i: int| 0 <= i < init.len() implies is_kept_declaration(
                    #[trigger] init[i],
                ) by {
                    assert(init[i] == ds[i]);
                }
            }
            lemma_joined_separated(init);
            let head = join_declarations(init);
            let r = join_declarations(ds);
            assert(r =~= head + seq![';', ' '] + d);
            assert(r[0] == head[0]);
            assert(r[r.len() - 1] == d[d.len() - 1]);
            assert forall|k: int| 0 <= k < r.len() && #[trigger] r[k] == ';' implies k + 1 < r.len()
                && r[k + 1] == ' ' by {
                if k < head.len() {
                    assert(head[k] == ';');
                    assert(r[k + 1] == head[k + 1]);
                } else if k >= head.len() + 2 {
                    assert(d[k - head.len() - 2] == ';');
                }
            }
        } else {
            assert(ds[0] == d);
        }
    }
}

/// The result of the sanitizer is separated: trimmed, with `"; "` between
/// its declarations and nothing after the last.
pub proof fn lemma_sanitized_separated(s: Seq<char>)
    ensures
        is_separated(sanitize_spec(s)),
{
    lemma_safe_declarations_kept(s);
    lemma_joined_separated(safe_declarations(s));
}

/// A text as the sanitizer gives it: sanitizing it changes nothing, it
/// holds none of the dangerous texts, and it is separated.
pub open spec fn is_sanitized(t: Seq<char>) -> bool {
    &&& sanitize_spec(t) == t
    &&& !is_dangerous(t)
    &&& is_separated(t)
}

/// Whatever the sanitizer gives is sanitized.
pub proof fn lemma_sanitized(s: Seq<char>)
    ensures
        is_sanitized(sanitize_spec(s)),
{
    lemma_sanitize_fixed_point(s);
    lemma_sanitized_harmless(s);
    lemma_sanitized_separated(s);
}

/// A sanitized text holds no two `;` in a row, as the style accumulator
/// asks of what is merged into it.
pub proof fn lemma_sanitized_single(t: Seq<char>)
    requires
        is_sanitized(t),
    ensures
        !has_double_semicolon(t),
{
}

} // verus!
