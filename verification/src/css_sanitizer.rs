//! Reduces a flat list of CSS declarations to the ones that are known to be
//! safe: a declaration stays only if its property is on the allow-list and its
//! value holds nothing dangerous and has a recognised shape.
//!
//! This is a default-deny filter over `property: value` pairs, not a CSS
//! parser: it is as sound as its lists are complete.

use crate::css_laws::{is_separated, lemma_sanitized_harmless, lemma_sanitized_separated};
use crate::text::{
    contains, contains_any, contains_chars, ends_with_any, index_of, index_of_char,
    index_of_char_from, list_any_ends, list_any_starts, list_any_within, list_has, lower, slice,
    starts_with_any, to_chars, to_lower, to_string, trim, trim_chars, views,
};
use vstd::prelude::*;

verus! {

/// The property names that a declaration may carry, in lower case.
pub open spec fn allowed_properties() -> Seq<Seq<char>> {
    seq![
        "color"@,
        "background-color"@,
        "background"@,
        "background-image"@,
        "background-size"@,
        "background-position"@,
        "background-repeat"@,
        "font-size"@,
        "font-family"@,
        "font-weight"@,
        "font-style"@,
        "line-height"@,
        "letter-spacing"@,
        "text-align"@,
        "text-decoration"@,
        "text-transform"@,
        "text-shadow"@,
        "white-space"@,
        "border"@,
        "border-radius"@,
        "border-color"@,
        "border-width"@,
        "border-style"@,
        "border-top"@,
        "border-right"@,
        "border-bottom"@,
        "border-left"@,
        "outline"@,
        "padding"@,
        "padding-top"@,
        "padding-right"@,
        "padding-bottom"@,
        "padding-left"@,
        "margin"@,
        "margin-top"@,
        "margin-right"@,
        "margin-bottom"@,
        "margin-left"@,
        "width"@,
        "height"@,
        "min-width"@,
        "max-width"@,
        "min-height"@,
        "max-height"@,
        "display"@,
        "opacity"@,
        "visibility"@,
        "overflow"@,
        "cursor"@,
        "box-shadow"@,
        "box-sizing"@,
        "transition"@,
        "transform"@,
        "filter"@,
        "flex"@,
        "flex-direction"@,
        "flex-wrap"@,
        "justify-content"@,
        "align-items"@,
        "gap"@,
    ]
}

/// The property names that are refused whatever else is allowed, in lower case.
pub open spec fn forbidden_properties() -> Seq<Seq<char>> {
    seq![
        "behavior"@,
        "binding"@,
        "-moz-binding"@,
        "-webkit-binding"@,
        "expression"@,
        "position"@,
        "z-index"@,
        "content"@,
    ]
}

/// The texts that no value may hold, in lower case: script schemes, calls that
/// evaluate code, probes of the document and the window, event handlers,
/// bindings and script tags.
pub open spec fn dangerous_patterns() -> Seq<Seq<char>> {
    seq![
        "javascript:"@,
        "vbscript:"@,
        "data:"@,
        "expression("@,
        "eval("@,
        "document."@,
        "window."@,
        "location."@,
        "history."@,
        "navigator."@,
        "onload="@,
        "onerror="@,
        "onclick="@,
        "onmouseover="@,
        "behavior:"@,
        "binding:"@,
        "-moz-binding:"@,
        "-webkit-binding:"@,
        "<script"@,
        "</script"@,
    ]
}

/// The units that may end a value.
pub open spec fn length_units() -> Seq<Seq<char>> {
    seq![
        "px"@,
        "em"@,
        "rem"@,
        "%"@,
        "vh"@,
        "vw"@,
    ]
}

/// The texts that begin a colour value.
pub open spec fn color_prefixes() -> Seq<Seq<char>> {
    seq![
        "#"@,
        "rgb"@,
        "hsl"@,
    ]
}

/// The words that mark a value as a known keyword, in lower case: layout and
/// text keywords, generic font families, names of transform, filter and
/// gradient functions, `calc(` and `var(`, and the basic colour names.
pub open spec fn safe_keywords() -> Seq<Seq<char>> {
    seq![
        "auto"@,
        "none"@,
        "inherit"@,
        "initial"@,
        "unset"@,
        "normal"@,
        "block"@,
        "inline"@,
        "flex"@,
        "grid"@,
        "hidden"@,
        "visible"@,
        "center"@,
        "left"@,
        "right"@,
        "top"@,
        "bottom"@,
        "middle"@,
        "baseline"@,
        "justify"@,
        "stretch"@,
        "nowrap"@,
        "bold"@,
        "italic"@,
        "underline"@,
        "uppercase"@,
        "lowercase"@,
        "capitalize"@,
        "solid"@,
        "dashed"@,
        "dotted"@,
        "pointer"@,
        "cover"@,
        "contain"@,
        "serif"@,
        "monospace"@,
        "cursive"@,
        "fantasy"@,
        "system-ui"@,
        "translate"@,
        "rotate"@,
        "scale"@,
        "skew"@,
        "matrix"@,
        "blur"@,
        "brightness"@,
        "contrast"@,
        "grayscale"@,
        "saturate"@,
        "sepia"@,
        "linear-gradient"@,
        "radial-gradient"@,
        "calc("@,
        "var("@,
        "black"@,
        "white"@,
        "red"@,
        "green"@,
        "blue"@,
        "yellow"@,
        "orange"@,
        "purple"@,
        "pink"@,
        "gray"@,
        "grey"@,
        "brown"@,
        "transparent"@,
    ]
}


/// Whether `c` is a decimal digit.
pub open spec fn is_digit(c: char) -> bool {
    '0' <= c <= '9'
}

/// A numeric literal: digits and dots, at least one, after an optional leading `-`.
pub open spec fn is_numeric(v: Seq<char>) -> bool {
    let from: int = if v.len() > 0 && v[0] == '-' {
        1
    } else {
        0
    };
    from < v.len() && forall|i: int| from <= i < v.len() ==> is_digit(v[i]) || v[i] == '.'
}

/// The value holds one of the dangerous texts, in any case of letters.
pub open spec fn is_dangerous(v: Seq<char>) -> bool {
    contains_any(lower(v), dangerous_patterns())
}

/// The value has one of the recognised shapes: a numeric literal, a text that
/// ends with a unit, a colour, a text that holds a known keyword, or one that
/// holds `url(`.
pub open spec fn has_safe_shape(v: Seq<char>) -> bool {
    ||| is_numeric(v)
    ||| ends_with_any(lower(v), length_units())
    ||| starts_with_any(lower(v), color_prefixes())
    ||| contains_any(lower(v), safe_keywords())
    ||| contains(lower(v), "url("@)
}

/// The value is safe: it holds nothing dangerous and has a recognised shape.
pub open spec fn is_safe_value(v: Seq<char>) -> bool {
    !is_dangerous(v) && has_safe_shape(v)
}

/// The property name of a declaration: what stands before its first colon,
/// trimmed and in lower case.
pub open spec fn property_of(decl: Seq<char>) -> Seq<char> {
    lower(trim(decl.subrange(0, index_of(decl, ':'))))
}

/// The value of a declaration: what stands after its first colon, trimmed.
pub open spec fn value_of(decl: Seq<char>) -> Seq<char> {
    trim(decl.subrange(index_of(decl, ':') + 1, decl.len() as int))
}

/// The property may be used: it is on the allow-list and not on the forbidden list.
pub open spec fn is_permitted_property(p: Seq<char>) -> bool {
    allowed_properties().contains(p) && !forbidden_properties().contains(p)
}

/// The declaration is kept: it has a colon, its property may be used and its
/// value is safe.
pub open spec fn is_safe_declaration(decl: Seq<char>) -> bool {
    &&& index_of(decl, ':') < decl.len()
    &&& is_permitted_property(property_of(decl))
    &&& is_safe_value(value_of(decl))
}

/// The declarations of `s` that are kept, each trimmed, in their order: `s` is
/// cut at every `;`, and a piece stays if it is a safe declaration.
pub open spec fn safe_declarations(s: Seq<char>) -> Seq<Seq<char>>
    decreases s.len(),
{
    let i = index_of(s, ';');
    let d = trim(s.subrange(0, i));
    let head = if is_safe_declaration(d) {
        seq![d]
    } else {
        Seq::<Seq<char>>::empty()
    };
    if 0 <= i < s.len() {
        head + safe_declarations(s.subrange(i + 1, s.len() as int))
    } else {
        head
    }
}

/// The declarations joined by `"; "`, with nothing after the last.
pub open spec fn join_declarations(ds: Seq<Seq<char>>) -> Seq<char>
    decreases ds.len(),
{
    if ds.len() == 0 {
        Seq::empty()
    } else if ds.len() == 1 {
        ds[0]
    } else {
        join_declarations(ds.drop_last()) + seq![';', ' '] + ds.last()
    }
}

/// The safe part of a declaration list.
pub open spec fn sanitize_spec(s: Seq<char>) -> Seq<char> {
    join_declarations(safe_declarations(s))
}

/// Filters CSS declaration lists against fixed lists of property names, of
/// dangerous texts and of recognised value shapes. The lists are built once,
/// when the sanitizer is made, and never change.
pub struct CssSanitizer {
    allowed: Vec<Vec<char>>,
    forbidden: Vec<Vec<char>>,
    dangerous: Vec<Vec<char>>,
    units: Vec<Vec<char>>,
    colors: Vec<Vec<char>>,
    keywords: Vec<Vec<char>>,
    url_marker: Vec<char>,
}

impl CssSanitizer {
    /// The lists of a sanitizer are the fixed lists.
    #[verifier::type_invariant]
    spec fn lists_are_fixed(&self) -> bool {
        &&& views(self.allowed@) == allowed_properties()
        &&& views(self.forbidden@) == forbidden_properties()
        &&& views(self.dangerous@) == dangerous_patterns()
        &&& views(self.units@) == length_units()
        &&& views(self.colors@) == color_prefixes()
        &&& views(self.keywords@) == safe_keywords()
        &&& self.url_marker@ == "url("@
    }

    /// The property names that this sanitizer allows.
    pub closed spec fn allow_list(&self) -> Seq<Seq<char>> {
        views(self.allowed@)
    }

    /// The property names that this sanitizer refuses whatever it allows.
    pub closed spec fn forbidden_list(&self) -> Seq<Seq<char>> {
        views(self.forbidden@)
    }

    /// Makes a sanitizer with the fixed lists.
    pub fn new() -> (r: Self)
        ensures
            r.allow_list() == allowed_properties(),
            r.forbidden_list() == forbidden_properties(),
    {
        CssSanitizer {
            allowed: build_allowed_properties(),
            forbidden: build_forbidden_properties(),
            dangerous: build_dangerous_patterns(),
            units: build_length_units(),
            colors: build_color_prefixes(),
            keywords: build_safe_keywords(),
            url_marker: to_chars("url("),
        }
    }

    /// Tests whether a property name, trimmed and in lower case, may be used.
    fn permits_property(&self, p: &Vec<char>) -> (b: bool)
        ensures
            b == is_permitted_property(p@),
    {
        proof {
            use_type_invariant(self);
        }
        list_has(&self.allowed, p) && !list_has(&self.forbidden, p)
    }

    /// Tests whether a trimmed value is safe.
    fn accepts_value(&self, v: &Vec<char>) -> (b: bool)
        ensures
            b == is_safe_value(v@),
    {
        proof {
            use_type_invariant(self);
        }
        let low = to_lower(v);
        if list_any_within(&self.dangerous, &low) {
            return false;
        }
        numeric_chars(v) || list_any_ends(&self.units, &low) || list_any_starts(
            &self.colors,
            &low,
        ) || list_any_within(&self.keywords, &low) || contains_chars(&low, &self.url_marker)
    }

    /// Tests whether a trimmed piece of a declaration list is a safe declaration.
    fn accepts_declaration(&self, decl: &Vec<char>) -> (b: bool)
        ensures
            b == is_safe_declaration(decl@),
    {
        let colon = index_of_char(decl, ':');
        if colon >= decl.len() {
            return false;
        }
        let property = to_lower(&trim_chars(&slice(decl, 0, colon)));
        if !self.permits_property(&property) {
            return false;
        }
        let value = trim_chars(&slice(decl, colon + 1, decl.len()));
        self.accepts_value(&value)
    }

    /// Returns the safe part of the declaration list `css_string`: the list is
    /// cut at every `;`; a piece stays if, trimmed, it is `property: value`
    /// with a property that may be used and a safe value; the pieces that stay
    /// are joined by `"; "`, trimmed and otherwise as they were written. The
    /// result is empty where nothing stays. It holds none of the dangerous
    /// texts, and no `;` at its end.
    pub fn sanitize_css_string(&self, css_string: &str) -> (r: String)
        ensures
            r@ == sanitize_spec(css_string@),
            !is_dangerous(r@),
            is_separated(r@),
    {
        proof {
            lemma_sanitized_harmless(css_string@);
            lemma_sanitized_separated(css_string@);
        }
        let v = to_chars(css_string);
        let mut out: Vec<char> = Vec::new();
        let ghost mut kept: Seq<Seq<char>> = Seq::empty();
        let mut any: bool = false;
        let mut start: usize = 0;
        proof {
            assert(v@.subrange(0, v.len() as int) =~= v@);
            assert(kept + safe_declarations(v@) =~= safe_declarations(v@));
        }
        loop
            invariant_except_break
                safe_declarations(v@) == kept + safe_declarations(
                    v@.subrange(start as int, v.len() as int),
                ),
            invariant
                start <= v.len(),
                v@ == css_string@,
                any == (kept.len() > 0),
                out@ == join_declarations(kept),
            ensures
                safe_declarations(v@) == kept,
            decreases v.len() - start,
        {
            let end = index_of_char_from(&v, ';', start);
            let decl = trim_chars(&slice(&v, start, end));
            let ghost rest = v@.subrange(start as int, v.len() as int);
            let ghost head = if is_safe_declaration(decl@) {
                seq![decl@]
            } else {
                Seq::<Seq<char>>::empty()
            };
            proof {
                assert(rest.subrange(0, end - start) =~= v@.subrange(start as int, end as int));
            }
            if self.accepts_declaration(&decl) {
                if any {
                    out.push(';');
                    out.push(' ');
                }
                let mut k: usize = 0;
                while k < decl.len()
                    invariant
                        k <= decl.len(),
                        out@ == (if any {
                            join_declarations(kept) + seq![';', ' ']
                        } else {
                            join_declarations(kept)
                        }) + decl@.subrange(0, k as int),
                    decreases decl.len() - k,
                {
                    out.push(decl[k]);
                    k += 1;
                }
                proof {
                    assert(decl@.subrange(0, decl@.len() as int) =~= decl@);
                    assert(kept.push(decl@).drop_last() =~= kept);
                    assert(kept + head =~= kept.push(decl@));
                    assert(out@ =~= join_declarations(kept.push(decl@)));
                }
                any = true;
            }
            proof {
                assert(kept + head + Seq::<Seq<char>>::empty() =~= kept + head);
                if end < v.len() {
                    assert(rest.subrange(end - start + 1, rest.len() as int) =~= v@.subrange(
                        end + 1,
                        v.len() as int,
                    ));
                    assert(kept + (head + safe_declarations(v@.subrange(end + 1, v.len() as int)))
                        =~= (kept + head) + safe_declarations(
                        v@.subrange(end + 1, v.len() as int),
                    ));
                }
                kept = kept + head;
            }
            if end >= v.len() {
                break;
            }
            start = end + 1;
        }
        to_string(&out)
    }
}

impl Default for CssSanitizer {
    fn default() -> (r: Self)
        ensures
            r.allow_list() == allowed_properties(),
            r.forbidden_list() == forbidden_properties(),
    {
        CssSanitizer::new()
    }
}

/// Tests whether a text is a numeric literal.
fn numeric_chars(v: &Vec<char>) -> (b: bool)
    ensures
        b == is_numeric(v@),
{
    let from: usize = if v.len() > 0 && v[0] == '-' {
        1
    } else {
        0
    };
    if from >= v.len() {
        return false;
    }
    let mut i: usize = from;
    while i < v.len()
        invariant
            from <= i <= v.len(),
            from == (if v@.len() > 0 && v@[0] == '-' {
                1int
            } else {
                0int
            }),
            forall|j: int| from <= j < i ==> is_digit(v@[j]) || v@[j] == '.',
        decreases v.len() - i,
    {
        let c = v[i];
        if !(('0' <= c && c <= '9') || c == '.') {
            proof {
                assert(!(is_digit(v@[i as int]) || v@[i as int] == '.'));
            }
            return false;
        }
        i += 1;
    }
    true
}

fn build_allowed_properties() -> (list: Vec<Vec<char>>)
    ensures
        views(list@) == allowed_properties(),
{
    let mut list: Vec<Vec<char>> = Vec::new();
    list.push(to_chars("color"));
    list.push(to_chars("background-color"));
    list.push(to_chars("background"));
    list.push(to_chars("background-image"));
    list.push(to_chars("background-size"));
    list.push(to_chars("background-position"));
    list.push(to_chars("background-repeat"));
    list.push(to_chars("font-size"));
    list.push(to_chars("font-family"));
    list.push(to_chars("font-weight"));
    list.push(to_chars("font-style"));
    list.push(to_chars("line-height"));
    list.push(to_chars("letter-spacing"));
    list.push(to_chars("text-align"));
    list.push(to_chars("text-decoration"));
    list.push(to_chars("text-transform"));
    list.push(to_chars("text-shadow"));
    list.push(to_chars("white-space"));
    list.push(to_chars("border"));
    list.push(to_chars("border-radius"));
    list.push(to_chars("border-color"));
    list.push(to_chars("border-width"));
    list.push(to_chars("border-style"));
    list.push(to_chars("border-top"));
    list.push(to_chars("border-right"));
    list.push(to_chars("border-bottom"));
    list.push(to_chars("border-left"));
    list.push(to_chars("outline"));
    list.push(to_chars("padding"));
    list.push(to_chars("padding-top"));
    list.push(to_chars("padding-right"));
    list.push(to_chars("padding-bottom"));
    list.push(to_chars("padding-left"));
    list.push(to_chars("margin"));
    list.push(to_chars("margin-top"));
    list.push(to_chars("margin-right"));
    list.push(to_chars("margin-bottom"));
    list.push(to_chars("margin-left"));
    list.push(to_chars("width"));
    list.push(to_chars("height"));
    list.push(to_chars("min-width"));
    list.push(to_chars("max-width"));
    list.push(to_chars("min-height"));
    list.push(to_chars("max-height"));
    list.push(to_chars("display"));
    list.push(to_chars("opacity"));
    list.push(to_chars("visibility"));
    list.push(to_chars("overflow"));
    list.push(to_chars("cursor"));
    list.push(to_chars("box-shadow"));
    list.push(to_chars("box-sizing"));
    list.push(to_chars("transition"));
    list.push(to_chars("transform"));
    list.push(to_chars("filter"));
    list.push(to_chars("flex"));
    list.push(to_chars("flex-direction"));
    list.push(to_chars("flex-wrap"));
    list.push(to_chars("justify-content"));
    list.push(to_chars("align-items"));
    list.push(to_chars("gap"));
    proof {
        assert(views(list@) =~= allowed_properties());
    }
    list
}

fn build_forbidden_properties() -> (list: Vec<Vec<char>>)
    ensures
        views(list@) == forbidden_properties(),
{
    let mut list: Vec<Vec<char>> = Vec::new();
    list.push(to_chars("behavior"));
    list.push(to_chars("binding"));
    list.push(to_chars("-moz-binding"));
    list.push(to_chars("-webkit-binding"));
    list.push(to_chars("expression"));
    list.push(to_chars("position"));
    list.push(to_chars("z-index"));
    list.push(to_chars("content"));
    proof {
        assert(views(list@) =~= forbidden_properties());
    }
    list
}

fn build_dangerous_patterns() -> (list: Vec<Vec<char>>)
    ensures
        views(list@) == dangerous_patterns(),
{
    let mut list: Vec<Vec<char>> = Vec::new();
    list.push(to_chars("javascript:"));
    list.push(to_chars("vbscript:"));
    list.push(to_chars("data:"));
    list.push(to_chars("expression("));
    list.push(to_chars("eval("));
    list.push(to_chars("document."));
    list.push(to_chars("window."));
    list.push(to_chars("location."));
    list.push(to_chars("history."));
    list.push(to_chars("navigator."));
    list.push(to_chars("onload="));
    list.push(to_chars("onerror="));
    list.push(to_chars("onclick="));
    list.push(to_chars("onmouseover="));
    list.push(to_chars("behavior:"));
    list.push(to_chars("binding:"));
    list.push(to_chars("-moz-binding:"));
    list.push(to_chars("-webkit-binding:"));
    list.push(to_chars("<script"));
    list.push(to_chars("</script"));
    proof {
        assert(views(list@) =~= dangerous_patterns());
    }
    list
}

fn build_length_units() -> (list: Vec<Vec<char>>)
    ensures
        views(list@) == length_units(),
{
    let mut list: Vec<Vec<char>> = Vec::new();
    list.push(to_chars("px"));
    list.push(to_chars("em"));
    list.push(to_chars("rem"));
    list.push(to_chars("%"));
    list.push(to_chars("vh"));
    list.push(to_chars("vw"));
    proof {
        assert(views(list@) =~= length_units());
    }
    list
}

fn build_color_prefixes() -> (list: Vec<Vec<char>>)
    ensures
        views(list@) == color_prefixes(),
{
    let mut list: Vec<Vec<char>> = Vec::new();
    list.push(to_chars("#"));
    list.push(to_chars("rgb"));
    list.push(to_chars("hsl"));
    proof {
        assert(views(list@) =~= color_prefixes());
    }
    list
}

fn build_safe_keywords() -> (list: Vec<Vec<char>>)
    ensures
        views(list@) == safe_keywords(),
{
    let mut list: Vec<Vec<char>> = Vec::new();
    list.push(to_chars("auto"));
    list.push(to_chars("none"));
    list.push(to_chars("inherit"));
    list.push(to_chars("initial"));
    list.push(to_chars("unset"));
    list.push(to_chars("normal"));
    list.push(to_chars("block"));
    list.push(to_chars("inline"));
    list.push(to_chars("flex"));
    list.push(to_chars("grid"));
    list.push(to_chars("hidden"));
    list.push(to_chars("visible"));
    list.push(to_chars("center"));
    list.push(to_chars("left"));
    list.push(to_chars("right"));
    list.push(to_chars("top"));
    list.push(to_chars("bottom"));
    list.push(to_chars("middle"));
    list.push(to_chars("baseline"));
    list.push(to_chars("justify"));
    list.push(to_chars("stretch"));
    list.push(to_chars("nowrap"));
    list.push(to_chars("bold"));
    list.push(to_chars("italic"));
    list.push(to_chars("underline"));
    list.push(to_chars("uppercase"));
    list.push(to_chars("lowercase"));
    list.push(to_chars("capitalize"));
    list.push(to_chars("solid"));
    list.push(to_chars("dashed"));
    list.push(to_chars("dotted"));
    list.push(to_chars("pointer"));
    list.push(to_chars("cover"));
    list.push(to_chars("contain"));
    list.push(to_chars("serif"));
    list.push(to_chars("monospace"));
    list.push(to_chars("cursive"));
    list.push(to_chars("fantasy"));
    list.push(to_chars("system-ui"));
    list.push(to_chars("translate"));
    list.push(to_chars("rotate"));
    list.push(to_chars("scale"));
    list.push(to_chars("skew"));
    list.push(to_chars("matrix"));
    list.push(to_chars("blur"));
    list.push(to_chars("brightness"));
    list.push(to_chars("contrast"));
    list.push(to_chars("grayscale"));
    list.push(to_chars("saturate"));
    list.push(to_chars("sepia"));
    list.push(to_chars("linear-gradient"));
    list.push(to_chars("radial-gradient"));
    list.push(to_chars("calc("));
    list.push(to_chars("var("));
    list.push(to_chars("black"));
    list.push(to_chars("white"));
    list.push(to_chars("red"));
    list.push(to_chars("green"));
    list.push(to_chars("blue"));
    list.push(to_chars("yellow"));
    list.push(to_chars("orange"));
    list.push(to_chars("purple"));
    list.push(to_chars("pink"));
    list.push(to_chars("gray"));
    list.push(to_chars("grey"));
    list.push(to_chars("brown"));
    list.push(to_chars("transparent"));
    proof {
        assert(views(list@) =~= safe_keywords());
    }
    list
}

} // verus!
