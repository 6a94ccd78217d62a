//! Finds the first balanced `{...}` span of a text by counting braces.
//!
//! The count takes every brace as structure: a brace inside a quoted JSON
//! string is counted like any other, so a string value that holds `}` can end
//! the span early.

use crate::text::{index_of, lemma_index_of, slice, to_chars, to_string};
use vstd::prelude::*;

verus! {

/// What a character adds to the brace depth.
pub open spec fn brace_step(c: char) -> int {
    if c == '{' {
        1
    } else if c == '}' {
        -1
    } else {
        0
    }
}

/// The number of `{` in `s` less the number of `}`.
pub open spec fn brace_net(s: Seq<char>) -> int
    decreases s.len(),
{
    if s.len() == 0 {
        0
    } else {
        brace_net(s.drop_last()) + brace_step(s.last())
    }
}

/// `s.subrange(a, b)` is the first balanced object of `s`: it begins at the
/// first `{` of `s`, and `b` is the first place after it at which as many
/// braces have closed as have opened.
pub open spec fn is_object_span(s: Seq<char>, a: int, b: int) -> bool {
    &&& 0 <= a < b <= s.len()
    &&& s[a] == '{'
    &&& forall|i: int| 0 <= i < a ==> s[i] != '{'
    &&& brace_net(s.subrange(a, b)) == 0
    &&& forall|k: int| a < k < b ==> brace_net(#[trigger] s.subrange(a, k)) > 0
}

/// The first balanced object of `s`, where it has one.
pub open spec fn extract_spec(s: Seq<char>) -> Option<Seq<char>> {
    if exists|a: int, b: int| is_object_span(s, a, b) {
        let (a, b) = choose|a: int, b: int| is_object_span(s, a, b);
        Some(s.subrange(a, b))
    } else {
        None
    }
}

/// A text has at most one first balanced object.
pub proof fn lemma_object_span_unique(s: Seq<char>, a: int, b: int, c: int, d: int)
    requires
        is_object_span(s, a, b),
        is_object_span(s, c, d),
    ensures
        a == c,
        b == d,
{
    if b < d {
        assert(brace_net(s.subrange(c, b)) > 0);
    }
    if d < b {
        assert(brace_net(s.subrange(a, d)) > 0);
    }
}

/// A span that meets the definition is what `extract_spec` gives.
pub proof fn lemma_extract_is(s: Seq<char>, a: int, b: int)
    requires
        is_object_span(s, a, b),
    ensures
        extract_spec(s) == Some(s.subrange(a, b)),
{
    let (c, d) = choose|c: int, d: int| is_object_span(s, c, d);
    lemma_object_span_unique(s, a, b, c, d);
}

/// Taking one more character into a piece adds that character's step.
proof fn lemma_brace_net_extend(s: Seq<char>, a: int, k: int)
    requires
        0 <= a <= k < s.len(),
    ensures
        brace_net(s.subrange(a, k + 1)) == brace_net(s.subrange(a, k)) + brace_step(s[k]),
{
    assert(s.subrange(a, k + 1).drop_last() =~= s.subrange(a, k));
}

/// Returns the first balanced `{...}` span of `text`: from its first `{`
/// through the `}` at which the brace depth first returns to zero. Returns
/// `None` where `text` holds no `{`, or the depth never returns to zero.
pub fn extract_first_json_object(text: &str) -> (r: Option<String>)
    ensures
        match r {
            Some(t) => extract_spec(text@) == Some(t@),
            None => extract_spec(text@) is None,
        },
{
    let v = to_chars(text);
    let mut start: Option<usize> = None;
    let mut depth: usize = 0;
    let mut i: usize = 0;
    while i < v.len()
        invariant
            i <= v.len(),
            v@ == text@,
            match start {
                None => depth == 0 && forall|j: int| 0 <= j < i ==> v@[j] != '{',
                Some(a) => {
                    &&& a < i
                    &&& v@[a as int] == '{'
                    &&& forall|j: int| 0 <= j < a ==> v@[j] != '{'
                    &&& depth == brace_net(v@.subrange(a as int, i as int))
                    &&& depth <= i - a
                    &&& forall|k: int| a < k <= i ==> brace_net(#[trigger] v@.subrange(a as int, k)) > 0
                },
            },
        decreases v.len() - i,
    {
        let c = v[i];
        match start {
            None => {
                if c == '{' {
                    start = Some(i);
                    depth = 1;
                    proof {
                        lemma_brace_net_extend(v@, i as int, i as int);
                        assert(v@.subrange(i as int, i as int).len() == 0);
                    }
                }
            },
            Some(a) => {
                proof {
                    lemma_brace_net_extend(v@, a as int, i as int);
                }
                if c == '{' {
                    depth = depth + 1;
                } else if c == '}' {
                    depth = depth - 1;
                    if depth == 0 {
                        proof {
                            lemma_extract_is(v@, a as int, i + 1);
                        }
                        return Some(to_string(&slice(&v, a, i + 1)));
                    }
                }
            },
        }
        i += 1;
    }
    proof {
        assert forall|a: int, b: int| !is_object_span(v@, a, b) by {
            if is_object_span(v@, a, b) {
                match start {
                    None => {},
                    Some(a0) => {
                        if a < a0 {
                            assert(v@[a] != '{');
                        }
                        if a0 < a {
                            assert(v@[a0 as int] != '{');
                        }
                        assert(brace_net(v@.subrange(a0 as int, b)) > 0);
                    },
                }
            }
        }
    }
    None
}

/// A balanced object that stands after prose without an opening brace, whatever
/// follows it, is exactly what extraction gives.
pub proof fn lemma_extract_embedded(pre: Seq<char>, span: Seq<char>, post: Seq<char>)
    requires
        forall|i: int| 0 <= i < pre.len() ==> pre[i] != '{',
        is_object_span(span, 0, span.len() as int),
    ensures
        extract_spec(pre + span + post) == Some(span),
{
    let s = pre + span + post;
    let a = pre.len() as int;
    let b = a + span.len();
    assert(s.subrange(a, b) =~= span);
    assert(span.subrange(0, span.len() as int) =~= span);
    assert forall|k: int| a < k < b implies brace_net(#[trigger] s.subrange(a, k)) > 0 by {
        assert(s.subrange(a, k) =~= span.subrange(0, k - a));
    }
    assert(s[a] == span[0]);
    lemma_extract_is(s, a, b);
}

/// A text without an opening brace, or one whose first opening brace is never
/// matched by a closing one, holds no object.
pub proof fn lemma_extract_unclosed(s: Seq<char>)
    requires
        forall|k: int|
            index_of(s, '{') < k <= s.len() ==> brace_net(
                #[trigger] s.subrange(index_of(s, '{'), k),
            ) > 0,
    ensures
        extract_spec(s) is None,
{
    lemma_index_of(s, '{');
    let a0 = index_of(s, '{');
    assert forall|a: int, b: int| !is_object_span(s, a, b) by {
        if is_object_span(s, a, b) {
            if a < a0 {
                assert(s[a] != '{');
            }
            if a0 < a {
                assert(s[a0] != '{');
            }
            assert(brace_net(s.subrange(a0, b)) > 0);
        }
    }
}

} // verus!
