//! Accumulates, for each element of the page, the style declarations that
//! the commands of one chat session gave it.
//!
//! Declarations for one element follow each other in the order of their
//! arrival, so that a later declaration of a property overrides an earlier
//! one by its place. Nothing is ever removed or de-duplicated; only a reset
//! empties the accumulator.

use crate::command::{text_view, update_views, StyleUpdate, StyleUpdateView};
use crate::text::{to_chars, trim, trim_chars};
use std::collections::HashMap;
use vstd::prelude::*;
use vstd::string::StringExecFns;

verus! {

/// A declaration list that ends with `;`.
pub open spec fn is_terminated(s: Seq<char>) -> bool {
    s.len() > 0 && s.last() == ';'
}

/// `s` with a `;` at its end: `s` itself where it ends with one.
pub open spec fn terminated(s: Seq<char>) -> Seq<char> {
    if is_terminated(s) {
        s
    } else {
        s.push(';')
    }
}

/// The declarations of an element after new ones arrived: the new ones,
/// terminated, where it had none; else the old ones, terminated, one space,
/// and the new ones, terminated.
pub open spec fn merge_styles(existing: Option<Seq<char>>, declarations: Seq<char>) -> Seq<char> {
    match existing {
        Some(old) => if old.len() > 0 {
            terminated(old) + seq![' '] + terminated(declarations)
        } else {
            terminated(declarations)
        },
        None => terminated(declarations),
    }
}

/// The declarations of the element `id` in `styles`, where it has any.
pub open spec fn styles_of(styles: Map<usize, Seq<char>>, id: usize) -> Option<Seq<char>> {
    if styles.contains_key(id) {
        Some(styles[id])
    } else {
        None
    }
}

/// The styles after one update was merged into them.
pub open spec fn merge_one(styles: Map<usize, Seq<char>>, id: usize, declarations: Seq<char>) -> Map<
    usize,
    Seq<char>,
> {
    styles.insert(id, merge_styles(styles_of(styles, id), declarations))
}

/// The styles after the updates were merged into them, one after the other.
pub open spec fn merge_all(styles: Map<usize, Seq<char>>, updates: Seq<StyleUpdateView>) -> Map<
    usize,
    Seq<char>,
>
    decreases updates.len(),
{
    if updates.len() == 0 {
        styles
    } else {
        merge_one(
            merge_all(styles, updates.drop_last()),
            updates.last().id,
            updates.last().styles,
        )
    }
}

/// Merging declarations for an element that has none gives exactly those
/// declarations, terminated by `;`.
pub proof fn lemma_merge_fresh(styles: Map<usize, Seq<char>>, id: usize, declarations: Seq<char>)
    requires
        !styles.contains_key(id),
    ensures
        merge_one(styles, id, declarations)[id] == terminated(declarations),
        is_terminated(merge_one(styles, id, declarations)[id]),
{
}

/// Merging a second list of declarations for the same element gives both
/// lists in the order of their arrival, each terminated by `;`, with exactly
/// one space between them.
pub proof fn lemma_merge_twice(
    styles: Map<usize, Seq<char>>,
    id: usize,
    first: Seq<char>,
    second: Seq<char>,
)
    requires
        !styles.contains_key(id),
    ensures
        merge_one(merge_one(styles, id, first), id, second)[id] == terminated(first) + seq![' ']
            + terminated(second),
{
}

/// Every entry of the styles ends with `;`.
pub open spec fn all_terminated(styles: Map<usize, Seq<char>>) -> bool {
    forall|id: usize| #[trigger] styles.contains_key(id) ==> is_terminated(styles[id])
}

/// Merging into styles whose entries all end with `;` gives such styles.
pub proof fn lemma_merge_keeps_terminated(
    styles: Map<usize, Seq<char>>,
    id: usize,
    declarations: Seq<char>,
)
    requires
        all_terminated(styles),
    ensures
        all_terminated(merge_one(styles, id, declarations)),
{
    let merged = merge_one(styles, id, declarations);
    assert forall|k: usize| #[trigger] merged.contains_key(k) implies is_terminated(merged[k]) by {
        if k != id {
            assert(styles.contains_key(k));
        }
    }
}

/// Two `;` stand in a row somewhere in `s`.
pub open spec fn has_double_semicolon(s: Seq<char>) -> bool {
    exists|k: int| 0 <= k < s.len() - 1 && #[trigger] s[k] == ';' && s[k + 1] == ';'
}

/// No entry of the styles holds two `;` in a row.
pub open spec fn all_single(styles: Map<usize, Seq<char>>) -> bool {
    forall|id: usize| #[trigger] styles.contains_key(id) ==> !has_double_semicolon(styles[id])
}

/// Ending a list with `;` puts no two `;` in a row.
proof fn lemma_terminated_single(s: Seq<char>)
    requires
        !has_double_semicolon(s),
    ensures
        !has_double_semicolon(terminated(s)),
{
    let t = terminated(s);
    assert forall|k: int| 0 <= k < t.len() - 1 && #[trigger] t[k] == ';' implies t[k + 1]
        != ';' by {
        if k + 1 < s.len() {
            assert(s[k] == ';');
        }
    }
}

/// Merging declarations without two `;` in a row into such declarations
/// gives such declarations.
pub proof fn lemma_merge_single(existing: Option<Seq<char>>, declarations: Seq<char>)
    requires
        existing matches Some(old) ==> !has_double_semicolon(old),
        !has_double_semicolon(declarations),
    ensures
        !has_double_semicolon(merge_styles(existing, declarations)),
{
    lemma_terminated_single(declarations);
    match existing {
        Some(old) => {
            lemma_terminated_single(old);
            if old.len() > 0 {
                let a = terminated(old);
                let b = terminated(declarations);
                let m = a + seq![' '] + b;
                assert forall|k: int| 0 <= k < m.len() - 1 && #[trigger] m[k] == ';' implies m[k
                    + 1] != ';' by {
                    if k + 1 < a.len() {
                        assert(a[k] == ';');
                        assert(m[k + 1] == a[k + 1]);
                    } else if k > a.len() {
                        assert(b[k - a.len() - 1] == ';');
                        assert(m[k + 1] == b[k - a.len()]);
                    }
                }
            }
        },
        None => {},
    }
}

/// Merging declarations without two `;` in a row into styles whose entries
/// hold none gives such styles.
pub proof fn lemma_merge_keeps_single(
    styles: Map<usize, Seq<char>>,
    id: usize,
    declarations: Seq<char>,
)
    requires
        all_single(styles),
        !has_double_semicolon(declarations),
    ensures
        all_single(merge_one(styles, id, declarations)),
{
    let merged = merge_one(styles, id, declarations);
    lemma_merge_single(styles_of(styles, id), declarations);
    assert forall|k: usize| #[trigger] merged.contains_key(k) implies !has_double_semicolon(
        merged[k],
    ) by {
        if k != id {
            assert(styles.contains_key(k));
        }
    }
}

/// Whatever is merged, the result ends with `;`.
pub proof fn lemma_merge_terminated(existing: Option<Seq<char>>, declarations: Seq<char>)
    ensures
        is_terminated(merge_styles(existing, declarations)),
{
}

/// Merging keeps every element that had declarations, and changes those of
/// no element but the one it is for.
pub proof fn lemma_merge_keeps_others(
    styles: Map<usize, Seq<char>>,
    id: usize,
    declarations: Seq<char>,
    other: usize,
)
    requires
        styles.contains_key(other),
    ensures
        merge_one(styles, id, declarations).contains_key(other),
        other != id ==> merge_one(styles, id, declarations)[other] == styles[other],
{
}

/// The styles that all updates of a command share: those of the first,
/// where there are at least two updates and all have the same styles.
pub open spec fn shared_style_spec(updates: Seq<StyleUpdateView>) -> Option<Seq<char>> {
    if updates.len() > 1 && forall|i: int|
        0 <= i < updates.len() ==> (#[trigger] updates[i]).styles == updates[0].styles {
        Some(updates[0].styles)
    } else {
        None
    }
}

/// The styles after a command was applied: its updates are merged, and
/// where they all share their styles, these are merged for the reply too.
pub open spec fn apply_spec(
    styles: Map<usize, Seq<char>>,
    updates: Seq<StyleUpdateView>,
    reply_id: usize,
) -> Map<usize, Seq<char>> {
    match shared_style_spec(updates) {
        Some(shared) => merge_one(merge_all(styles, updates), reply_id, shared),
        None => merge_all(styles, updates),
    }
}

/// The style of an element as it is rendered: its base style, followed
/// after one space by what was accumulated for it, where that is more than
/// white space.
pub open spec fn rendered_style(base: Seq<char>, extra: Option<Seq<char>>) -> Seq<char> {
    match extra {
        Some(e) => if trim(e).len() > 0 {
            base + seq![' '] + e
        } else {
            base
        },
        None => base,
    }
}

/// Returns the styles that all the updates share, where there are at least
/// two updates and all have the same styles.
pub fn shared_style(updates: &Vec<StyleUpdate>) -> (r: Option<String>)
    ensures
        text_view(r) == shared_style_spec(update_views(updates@)),
{
    if updates.len() < 2 {
        return None;
    }
    let ghost views = update_views(updates@);
    let mut i: usize = 1;
    while i < updates.len()
        invariant
            1 <= i <= updates.len(),
            views == update_views(updates@),
            forall|j: int| 0 <= j < i ==> (#[trigger] views[j]).styles == views[0].styles,
        decreases updates.len() - i,
    {
        if updates[i].styles != updates[0].styles {
            proof {
                assert(views[i as int].styles != views[0].styles);
            }
            return None;
        }
        i += 1;
    }
    Some(updates[0].styles.clone())
}

/// Tests whether a declaration list ends with `;`.
fn ends_with_semicolon(s: &str) -> (b: bool)
    ensures
        b == is_terminated(s@),
{
    let v = to_chars(s);
    v.len() > 0 && v[v.len() - 1] == ';'
}

/// The style declarations of the elements of one chat session, by element.
#[derive(Clone, Debug)]
pub struct StyleAccumulator {
    styles: HashMap<usize, String>,
}

impl View for StyleAccumulator {
    type V = Map<usize, Seq<char>>;

    closed spec fn view(&self) -> Map<usize, Seq<char>> {
        Map::new(|id: usize| self.styles@.contains_key(id), |id: usize| self.styles@[id]@)
    }
}

impl StyleAccumulator {
    /// The accumulator is well formed: every entry ends with `;`. A new
    /// accumulator is, and merging and resetting keep it so.
    pub open spec fn well_formed(&self) -> bool {
        all_terminated(self@)
    }

    /// An accumulator without an entry, as a session starts with.
    pub fn new() -> (r: Self)
        ensures
            r@ == Map::<usize, Seq<char>>::empty(),
            r.well_formed(),
    {
        let r = StyleAccumulator { styles: HashMap::new() };
        proof {
            assert(r@ =~= Map::<usize, Seq<char>>::empty());
        }
        r
    }

    /// Empties the accumulator, as a new session asks for.
    pub fn reset(&mut self)
        ensures
            final(self)@ == Map::<usize, Seq<char>>::empty(),
            final(self).well_formed(),
    {
        self.styles.clear();
        proof {
            assert(self@ =~= Map::<usize, Seq<char>>::empty());
        }
    }

    /// The declarations of the element `id`, where it has any.
    pub fn get(&self, id: usize) -> (r: Option<&String>)
        ensures
            match r {
                Some(s) => styles_of(self@, id) == Some(s@),
                None => styles_of(self@, id) is None,
            },
    {
        self.styles.get(&id)
    }

    /// Merges new declarations for the element `id` into what it has. Where
    /// it has none, or an empty entry, the entry becomes the new
    /// declarations, with a `;` added unless they end with one. Else the
    /// entry becomes the old one, with a `;` added unless it ends with one,
    /// one space, and the new declarations, ended in the same way. No other
    /// entry changes.
    pub fn merge(&mut self, id: usize, declarations: &str)
        ensures
            final(self)@ == merge_one(old(self)@, id, declarations@),
            old(self).well_formed() ==> final(self).well_formed(),
    {
        let mut merged = String::new();
        match self.styles.get(&id) {
            Some(existing) => {
                if !existing.as_str().is_empty() {
                    merged.append(existing.as_str());
                    if !ends_with_semicolon(existing.as_str()) {
                        merged.push(';');
                    }
                    merged.push(' ');
                }
            },
            None => {},
        }
        let ghost head = merged@;
        merged.append(declarations);
        if !ends_with_semicolon(declarations) {
            merged.push(';');
        }
        proof {
            assert(merged@ =~= head + terminated(declarations@));
            assert(merged@ =~= merge_styles(styles_of(self@, id), declarations@));
        }
        let ghost before = self@;
        self.styles.insert(id, merged);
        proof {
            assert(self@ =~= merge_one(before, id, declarations@));
            if all_terminated(before) {
                lemma_merge_keeps_terminated(before, id, declarations@);
            }
        }
    }

    /// Merges the updates of a command, one after the other.
    pub fn merge_updates(&mut self, updates: &Vec<StyleUpdate>)
        ensures
            final(self)@ == merge_all(old(self)@, update_views(updates@)),
            old(self).well_formed() ==> final(self).well_formed(),
    {
        let ghost views = update_views(updates@);
        let mut i: usize = 0;
        while i < updates.len()
            invariant
                i <= updates.len(),
                views == update_views(updates@),
                self@ == merge_all(old(self)@, views.subrange(0, i as int)),
                old(self).well_formed() ==> self.well_formed(),
            decreases updates.len() - i,
        {
            proof {
                assert(views.subrange(0, i + 1).drop_last() =~= views.subrange(0, i as int));
            }
            self.merge(updates[i].id, updates[i].styles.as_str());
            i += 1;
        }
        proof {
            assert(views.subrange(0, i as int) =~= views);
        }
    }

    /// Applies the style updates of a command: merges them one after the
    /// other and, where there are at least two and all share their styles,
    /// merges these styles for the reply `reply_id` as well, so that the
    /// reply looks like the messages before it.
    pub fn apply_command(&mut self, updates: &Vec<StyleUpdate>, reply_id: usize)
        ensures
            final(self)@ == apply_spec(old(self)@, update_views(updates@), reply_id),
            old(self).well_formed() ==> final(self).well_formed(),
    {
        self.merge_updates(updates);
        match shared_style(updates) {
            Some(shared) => {
                self.merge(reply_id, shared.as_str());
            },
            None => {},
        }
    }

    /// The style to render the element `id` with: `base`, followed after one
    /// space by what was accumulated for the element, where that is more
    /// than white space.
    pub fn style_for(&self, id: usize, base: &str) -> (r: String)
        ensures
            r@ == rendered_style(base@, styles_of(self@, id)),
    {
        let mut out = String::new();
        out.append(base);
        match self.styles.get(&id) {
            Some(extra) => {
                if trim_chars(&to_chars(extra.as_str())).len() > 0 {
                    out.push(' ');
                    out.append(extra.as_str());
                }
            },
            None => {},
        }
        proof {
            assert(out@ =~= rendered_style(base@, styles_of(self@, id)));
        }
        out
    }
}

impl Default for StyleAccumulator {
    fn default() -> (r: Self)
        ensures
            r@ == Map::<usize, Seq<char>>::empty(),
            r.well_formed(),
    {
        StyleAccumulator::new()
    }
}

} // verus!
