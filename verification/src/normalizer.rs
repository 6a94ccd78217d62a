//! Removes from the text of a model what it wrote around its answer: an
//! introduction that ends in `JSON:` and the fence of a code block.

use crate::text::{
    contains, find, find_chars, first_true, index_of, index_of_char, is_trimmed, lemma_find,
    lemma_first_true, lemma_first_true_unique, lemma_index_of, lemma_index_of_is, lemma_rfind,
    lemma_rfind_is, lemma_trim_bounds, lower, occurs_at, rfind, rfind_chars, slice, starts_with,
    starts_with_chars, to_chars, to_lower, to_string, trim, trim_chars,
};
use vstd::prelude::*;

verus! {

/// The marker that ends an introduction, in lower case.
pub open spec fn json_marker() -> Seq<char> {
    "json:"@
}

/// The fence of a code block.
pub open spec fn fence() -> Seq<char> {
    "```"@
}

/// `s` without everything up to and including the first marker, written in
/// any case of letters, and trimmed; `s` itself where it holds no marker.
pub open spec fn strip_marker(s: Seq<char>) -> Seq<char> {
    match find(lower(s), json_marker()) {
        Some(p) => trim(s.subrange(p + json_marker().len(), s.len() as int)),
        None => s,
    }
}

/// For each index of `s`, whether the character there is no backtick.
pub open spec fn not_backtick(s: Seq<char>) -> Seq<bool> {
    Seq::new(s.len(), |i: int| s[i] != '`')
}

/// `s` without its leading backticks.
pub open spec fn strip_backticks(s: Seq<char>) -> Seq<char> {
    s.subrange(first_true(not_backtick(s)), s.len() as int)
}

/// `s` without its first line; `s` itself where it holds no line break.
pub open spec fn after_first_line(s: Seq<char>) -> Seq<char> {
    let i = index_of(s, '\n');
    if i < s.len() {
        s.subrange(i + 1, s.len() as int)
    } else {
        s
    }
}

/// What stands before the last fence of `s`; `s` itself where it holds no
/// fence.
pub open spec fn before_last_fence(s: Seq<char>) -> Seq<char> {
    match rfind(s, fence()) {
        Some(e) => s.subrange(0, e),
        None => s,
    }
}

/// The content of a code block: where `s` begins with a fence, `s` without
/// its leading backticks, without the line they stand on, and without its
/// last fence and what follows it, trimmed; `s` itself where it begins with
/// no fence.
pub open spec fn strip_fence(s: Seq<char>) -> Seq<char> {
    if starts_with(s, fence()) {
        trim(before_last_fence(after_first_line(strip_backticks(s))))
    } else {
        s
    }
}

/// The normal form of a text: without its introduction, then without its
/// fence.
pub open spec fn normalize_spec(s: Seq<char>) -> Seq<char> {
    strip_fence(strip_marker(s))
}

/// A text is in normal form when it holds no marker and begins with no
/// fence.
pub open spec fn is_normal(s: Seq<char>) -> bool {
    &&& !contains(lower(s), json_marker())
    &&& !starts_with(s, fence())
}

/// Removes the scaffolding of a model's answer: everything up to and
/// including the first `json:` (in any case of letters) with the white
/// space around what follows it; then, where the text begins with a code
/// fence of three or more backticks, the fence with the line it stands on
/// and the last closing fence with all that follows, and the white space
/// around what is left. A text without marker and fence is returned as it
/// is. Never fails; the result may be empty.
pub fn normalize_ai_output(text: &str) -> (r: String)
    ensures
        r@ == normalize_spec(text@),
{
    let given = to_chars(text);
    let marker = to_chars("json:");
    let low = to_lower(&given);
    let s = match find_chars(&low, &marker) {
        Some(p) => {
            proof {
                lemma_find(low@, marker@);
                assert(occurs_at(low@, marker@, p as int));
                assert(low@.len() == given@.len());
            }
            trim_chars(&slice(&given, p + marker.len(), given.len()))
        },
        None => given,
    };
    let fence = to_chars("```");
    if !starts_with_chars(&s, &fence) {
        return to_string(&s);
    }
    let mut run: usize = 0;
    while run < s.len() && s[run] == '`'
        invariant
            run <= s.len(),
            forall|j: int| 0 <= j < run ==> s@[j] == '`',
        decreases s.len() - run,
    {
        run += 1;
    }
    proof {
        lemma_first_true_unique(not_backtick(s@), run as int);
    }
    let body = slice(&s, run, s.len());
    let line_end = index_of_char(&body, '\n');
    let rest = if line_end < body.len() {
        slice(&body, line_end + 1, body.len())
    } else {
        body
    };
    let content = match rfind_chars(&rest, &fence) {
        Some(e) => {
            proof {
                lemma_rfind(rest@, fence@);
            }
            slice(&rest, 0, e)
        },
        None => rest,
    };
    to_string(&trim_chars(&content))
}

/// Trimming never lengthens a text, and shortens one that is not trimmed.
proof fn lemma_trim_shrinks(s: Seq<char>)
    ensures
        trim(s).len() <= s.len(),
        !is_trimmed(s) ==> trim(s).len() < s.len(),
{
    let (a, b) = lemma_trim_bounds(s);
}

/// Cutting the introduction off never lengthens a text, and shortens one
/// that holds the marker.
proof fn lemma_strip_marker_shrinks(s: Seq<char>)
    ensures
        strip_marker(s).len() <= s.len(),
        contains(lower(s), json_marker()) ==> strip_marker(s).len() < s.len(),
        !contains(lower(s), json_marker()) ==> strip_marker(s) == s,
{
    reveal_strlit("json:");
    lemma_find(lower(s), json_marker());
    match find(lower(s), json_marker()) {
        Some(p) => {
            lemma_trim_shrinks(s.subrange(p + json_marker().len(), s.len() as int));
        },
        None => {},
    }
}

/// Taking the fence off never lengthens a text, and shortens one that
/// begins with a fence.
proof fn lemma_strip_fence_shrinks(s: Seq<char>)
    ensures
        strip_fence(s).len() <= s.len(),
        starts_with(s, fence()) ==> strip_fence(s).len() < s.len(),
        !starts_with(s, fence()) ==> strip_fence(s) == s,
{
    reveal_strlit("```");
    if starts_with(s, fence()) {
        assert(s.subrange(0, 3)[0] == '`');
        let marks = not_backtick(s);
        lemma_first_true(marks);
        let run = first_true(marks);
        if run == 0 {
            assert(marks[0]);
        }
        let body = strip_backticks(s);
        assert(body.len() < s.len());
        lemma_index_of(body, '\n');
        let rest = after_first_line(body);
        assert(rest.len() <= body.len());
        lemma_rfind(rest, fence());
        lemma_trim_shrinks(before_last_fence(rest));
    }
}

/// The texts that normalizing leaves as they are are exactly those in normal
/// form: without a marker, and not begun by a fence.
pub proof fn lemma_normalize_fixed_point(s: Seq<char>)
    ensures
        normalize_spec(s) == s <==> is_normal(s),
{
    lemma_strip_marker_shrinks(s);
    lemma_strip_fence_shrinks(strip_marker(s));
}

/// Normalizing twice gives what normalizing once gives, for every text whose
/// normal form holds no further introduction or fence.
///
/// A second pass does change the result where the first pass uncovers a
/// second marker or a fence, as it does for `json: json: x`.
pub proof fn lemma_normalize_idempotent(s: Seq<char>)
    requires
        is_normal(normalize_spec(s)),
    ensures
        normalize_spec(normalize_spec(s)) == normalize_spec(s),
{
    lemma_normalize_fixed_point(normalize_spec(s));
}

/// A text that holds no marker and begins with no fence is its own normal
/// form.
pub proof fn lemma_normalize_plain(s: Seq<char>)
    requires
        !contains(lower(s), json_marker()),
        !starts_with(s, fence()),
    ensures
        normalize_spec(s) == s,
{
    lemma_normalize_fixed_point(s);
}

/// A text wrapped in fences, with a language tag on the line of the opening
/// fence, has the trimmed content as its normal form, provided the whole
/// holds no marker.
pub proof fn lemma_normalize_fenced(tag: Seq<char>, content: Seq<char>)
    requires
        forall|k: int| 0 <= k < tag.len() ==> tag[k] != '\n',
        !contains(lower(fence() + tag + seq!['\n'] + content + fence()), json_marker()),
    ensures
        normalize_spec(fence() + tag + seq!['\n'] + content + fence()) == trim(content),
{
    reveal_strlit("```");
    let whole = fence() + tag + seq!['\n'] + content + fence();
    let n = whole.len() as int;
    let line_end = (3 + tag.len()) as int;
    lemma_strip_marker_shrinks(whole);
    assert(whole.subrange(0, 3) =~= fence());
    assert(starts_with(whole, fence()));
    let marks = not_backtick(whole);
    lemma_first_true(marks);
    let run = first_true(marks);
    assert(whole[line_end] == '\n');
    if run > line_end {
        assert(!marks[line_end]);
    }
    let body = strip_backticks(whole);
    assert forall|j: int| 0 <= j < line_end - run implies body[j] != '\n' by {
        if run + j < 3 {
            assert(whole[run + j] == fence()[run + j]);
        } else {
            assert(whole[run + j] == tag[run + j - 3]);
        }
    }
    assert(body[line_end - run] == '\n');
    lemma_index_of_is(body, '\n', line_end - run);
    let rest = after_first_line(body);
    assert(rest =~= content + fence());
    assert(rest.subrange(content.len() as int, content.len() as int + 3) =~= fence());
    lemma_rfind_is(rest, fence(), content.len() as int);
    assert(rest.subrange(0, content.len() as int) =~= content);
}

} // verus!
