//! Character-level text operations shared by the rest of the crate, each with a
//! mathematical model over `Seq<char>`.

use vstd::prelude::*;

verus! {

/// `String::push` of std: the string after the call is the string before
/// it with the character at its end.
pub assume_specification[ std::string::String::push ](s: &mut std::string::String, c: char)
    ensures
        final(s)@ == old(s)@.push(c),
;

/// `r` is the least index at which `b` holds, or the length of `b` if it holds nowhere.
pub open spec fn is_first_true(b: Seq<bool>, r: int) -> bool {
    &&& 0 <= r <= b.len()
    &&& forall|j: int| 0 <= j < r ==> !b[j]
    &&& r < b.len() ==> b[r]
}

/// The least index at which `b` holds, or the length of `b`.
pub open spec fn first_true(b: Seq<bool>) -> int {
    choose|r: int| is_first_true(b, r)
}

/// `r` is the greatest index at which `b` holds, or `-1` if it holds nowhere.
pub open spec fn is_last_true(b: Seq<bool>, r: int) -> bool {
    &&& -1 <= r < b.len()
    &&& forall|j: int| r < j < b.len() ==> !b[j]
    &&& 0 <= r ==> b[r]
}

/// The greatest index at which `b` holds, or `-1`.
pub open spec fn last_true(b: Seq<bool>) -> int {
    choose|r: int| is_last_true(b, r)
}

/// From any index before which `b` holds nowhere, a least index is reached.
proof fn lemma_first_true_from(b: Seq<bool>, k: int) -> (r: int)
    requires
        0 <= k <= b.len(),
        forall|j: int| 0 <= j < k ==> !b[j],
    ensures
        is_first_true(b, r),
    decreases b.len() - k,
{
    if k < b.len() && !b[k] {
        lemma_first_true_from(b, k + 1)
    } else {
        k
    }
}

/// From any index after which `b` holds nowhere, a greatest index is reached.
proof fn lemma_last_true_from(b: Seq<bool>, k: int) -> (r: int)
    requires
        -1 <= k < b.len(),
        forall|j: int| k < j < b.len() ==> !b[j],
    ensures
        is_last_true(b, r),
    decreases k + 1,
{
    if 0 <= k && !b[k] {
        lemma_last_true_from(b, k - 1)
    } else {
        k
    }
}

/// `first_true` gives the least index at which `b` holds.
pub proof fn lemma_first_true(b: Seq<bool>)
    ensures
        is_first_true(b, first_true(b)),
{
    let r = lemma_first_true_from(b, 0);
}

/// The least index at which `b` holds is what `first_true` gives.
pub proof fn lemma_first_true_unique(b: Seq<bool>, r: int)
    requires
        is_first_true(b, r),
    ensures
        r == first_true(b),
{
    let q = first_true(b);
    if q < r {
        assert(!b[q]);
    }
    if r < q {
        assert(!b[r]);
    }
}

/// `last_true` gives the greatest index at which `b` holds.
pub proof fn lemma_last_true(b: Seq<bool>)
    ensures
        is_last_true(b, last_true(b)),
{
    let r = lemma_last_true_from(b, b.len() - 1);
}

/// The greatest index at which `b` holds is what `last_true` gives.
pub proof fn lemma_last_true_unique(b: Seq<bool>, r: int)
    requires
        is_last_true(b, r),
    ensures
        r == last_true(b),
{
    let q = last_true(b);
    if q < r {
        assert(!b[r]);
    }
    if r < q {
        assert(!b[q]);
    }
}

/// The characters of a string slice, in order.
pub fn to_chars(s: &str) -> (v: Vec<char>)
    ensures
        v@ == s@,
{
    let mut v: Vec<char> = Vec::new();
    for c in it: s.chars()
        invariant
            v@ == s@.subrange(0, it.index() as int),
            it.seq() == s@,
    {
        v.push(c);
    }
    v
}

/// The string made of the given characters.
pub fn to_string(v: &Vec<char>) -> (s: String)
    ensures
        s@ == v@,
{
    let mut s = String::new();
    let mut i: usize = 0;
    while i < v.len()
        invariant
            i <= v.len(),
            s@ == v@.subrange(0, i as int),
        decreases v.len() - i,
    {
        s.push(v[i]);
        i += 1;
    }
    s
}

/// A copy of the characters of `v` from index `from` up to, not including, `to`.
pub fn slice(v: &Vec<char>, from: usize, to: usize) -> (r: Vec<char>)
    requires
        from <= to <= v.len(),
    ensures
        r@ == v@.subrange(from as int, to as int),
{
    let mut r: Vec<char> = Vec::new();
    let mut i: usize = from;
    while i < to
        invariant
            from <= i <= to <= v.len(),
            r@ == v@.subrange(from as int, i as int),
        decreases to - i,
    {
        r.push(v[i]);
        i += 1;
    }
    r
}

/// Whether `c` is white space: a character with the Unicode property `White_Space`.
pub open spec fn is_space(c: char) -> bool {
    let n = c as u32;
    ||| 0x09 <= n <= 0x0D
    ||| n == 0x20
    ||| n == 0x85
    ||| n == 0xA0
    ||| n == 0x1680
    ||| 0x2000 <= n <= 0x200A
    ||| n == 0x2028
    ||| n == 0x2029
    ||| n == 0x202F
    ||| n == 0x205F
    ||| n == 0x3000
}

/// Tests a character for white space.
pub fn char_is_space(c: char) -> (b: bool)
    ensures
        b == is_space(c),
{
    let n: u32 = c as u32;
    (0x09 <= n && n <= 0x0D) || n == 0x20 || n == 0x85 || n == 0xA0 || n == 0x1680 || (0x2000 <= n
        && n <= 0x200A) || n == 0x2028 || n == 0x2029 || n == 0x202F || n == 0x205F || n == 0x3000
}

/// The lower-case form of an ASCII capital letter; every other character is left as it is.
pub open spec fn lower_char(c: char) -> char {
    if 'A' <= c <= 'Z' {
        ((c as u8) + 32) as char
    } else {
        c
    }
}

/// Lower-cases one character.
pub fn char_to_lower(c: char) -> (r: char)
    ensures
        r == lower_char(c),
{
    if 'A' <= c && c <= 'Z' {
        ((c as u8) + 32) as char
    } else {
        c
    }
}

/// `s` with every ASCII capital letter replaced by its lower-case form.
pub open spec fn lower(s: Seq<char>) -> Seq<char> {
    Seq::new(s.len(), |i: int| lower_char(s[i]))
}

/// Lower-cases a text.
pub fn to_lower(v: &Vec<char>) -> (r: Vec<char>)
    ensures
        r@ == lower(v@),
{
    let mut r: Vec<char> = Vec::new();
    let mut i: usize = 0;
    while i < v.len()
        invariant
            i <= v.len(),
            r@ == lower(v@).subrange(0, i as int),
        decreases v.len() - i,
    {
        r.push(char_to_lower(v[i]));
        i += 1;
    }
    r
}

/// For each index of `s`, whether the character there is not white space.
pub open spec fn non_space(s: Seq<char>) -> Seq<bool> {
    Seq::new(s.len(), |i: int| !is_space(s[i]))
}

/// `s` without its leading and trailing white space.
pub open spec fn trim(s: Seq<char>) -> Seq<char> {
    let lo = first_true(non_space(s));
    let hi = last_true(non_space(s)) + 1;
    if lo < hi {
        s.subrange(lo, hi)
    } else {
        Seq::empty()
    }
}

/// A text is trimmed when it neither begins nor ends with white space.
pub open spec fn is_trimmed(s: Seq<char>) -> bool {
    s.len() > 0 ==> !is_space(s[0]) && !is_space(s[s.len() - 1])
}

/// `s.subrange(a, b)` is `s` without the white space around it.
pub open spec fn is_trim_bounds(s: Seq<char>, a: int, b: int) -> bool {
    &&& 0 <= a <= b <= s.len()
    &&& forall|i: int| 0 <= i < a ==> is_space(#[trigger] s[i])
    &&& forall|i: int| b <= i < s.len() ==> is_space(#[trigger] s[i])
    &&& a < b ==> !is_space(s[a]) && !is_space(s[b - 1])
}

/// Any bounds that cut exactly the surrounding white space off give the trimmed text.
pub proof fn lemma_trim_is(s: Seq<char>, a: int, b: int)
    requires
        is_trim_bounds(s, a, b),
    ensures
        trim(s) == s.subrange(a, b),
{
    let ns = non_space(s);
    lemma_first_true(ns);
    lemma_last_true(ns);
    let lo = first_true(ns);
    let hi = last_true(ns) + 1;
    if a < b {
        assert(ns[a]);
        assert(ns[b - 1]);
        if lo < a {
            assert(ns[lo]);
            assert(is_space(s[lo]));
        }
        if hi > b {
            assert(ns[hi - 1]);
            assert(is_space(s[hi - 1]));
        }
        assert(lo == a);
        assert(hi == b);
    } else {
        if lo < s.len() {
            assert(ns[lo]);
            assert(is_space(s[lo]));
        }
        if hi > 0 {
            assert(ns[hi - 1]);
            assert(is_space(s[hi - 1]));
        }
        assert(s.subrange(a, b) =~= Seq::empty());
    }
}

/// The trimmed text is a piece of the text, cut at the white space around it.
pub proof fn lemma_trim_bounds(s: Seq<char>) -> (r: (int, int))
    ensures
        is_trim_bounds(s, r.0, r.1),
        trim(s) == s.subrange(r.0, r.1),
        is_trimmed(trim(s)),
        trim(s).len() <= s.len(),
{
    let ns = non_space(s);
    lemma_first_true(ns);
    lemma_last_true(ns);
    let lo = first_true(ns);
    let hi = last_true(ns) + 1;
    if lo < s.len() {
        assert(ns[lo]);
        assert(hi > lo);
        assert(ns[hi - 1]);
    }
    assert forall|i: int| 0 <= i < lo implies is_space(#[trigger] s[i]) by {
        assert(!ns[i]);
    }
    assert forall|i: int| hi <= i < s.len() implies is_space(#[trigger] s[i]) by {
        assert(!ns[i]);
    }
    if lo < hi {
        (lo, hi)
    } else {
        assert(s.subrange(s.len() as int, s.len() as int) =~= Seq::empty());
        (s.len() as int, s.len() as int)
    }
}

/// Removes leading and trailing white space.
pub fn trim_chars(v: &Vec<char>) -> (r: Vec<char>)
    ensures
        r@ == trim(v@),
{
    let mut a: usize = 0;
    while a < v.len() && char_is_space(v[a])
        invariant
            a <= v.len(),
            forall|i: int| 0 <= i < a ==> is_space(#[trigger] v@[i]),
        decreases v.len() - a,
    {
        a += 1;
    }
    let mut b: usize = v.len();
    while b > a && char_is_space(v[b - 1])
        invariant
            a <= b <= v.len(),
            forall|i: int| b <= i < v.len() ==> is_space(#[trigger] v@[i]),
        decreases b,
    {
        b -= 1;
    }
    proof {
        lemma_trim_is(v@, a as int, b as int);
    }
    slice(v, a, b)
}

/// The pattern `pat` stands in `s` at index `i`.
pub open spec fn occurs_at(s: Seq<char>, pat: Seq<char>, i: int) -> bool {
    0 <= i && i + pat.len() <= s.len() && s.subrange(i, i + pat.len()) == pat
}

/// For each index of `s`, and for its length, whether `pat` stands there.
pub open spec fn occurrences(s: Seq<char>, pat: Seq<char>) -> Seq<bool> {
    Seq::new(s.len() + 1, |i: int| occurs_at(s, pat, i))
}

/// `pat` stands somewhere in `s`.
pub open spec fn contains(s: Seq<char>, pat: Seq<char>) -> bool {
    exists|i: int| occurs_at(s, pat, i)
}

/// The index of the first occurrence of `pat` in `s`.
pub open spec fn find(s: Seq<char>, pat: Seq<char>) -> Option<int> {
    let r = first_true(occurrences(s, pat));
    if r <= s.len() {
        Some(r)
    } else {
        None
    }
}

/// The index of the last occurrence of `pat` in `s`.
pub open spec fn rfind(s: Seq<char>, pat: Seq<char>) -> Option<int> {
    let r = last_true(occurrences(s, pat));
    if 0 <= r {
        Some(r)
    } else {
        None
    }
}

/// `s` begins with `pat`.
pub open spec fn starts_with(s: Seq<char>, pat: Seq<char>) -> bool {
    occurs_at(s, pat, 0)
}

/// `s` ends with `pat`.
pub open spec fn ends_with(s: Seq<char>, pat: Seq<char>) -> bool {
    occurs_at(s, pat, s.len() - pat.len())
}

/// For each index of `s`, whether the character there is `c`.
pub open spec fn char_hits(s: Seq<char>, c: char) -> Seq<bool> {
    Seq::new(s.len(), |i: int| s[i] == c)
}

/// The index of the first `c` in `s`, or the length of `s` where it holds none.
pub open spec fn index_of(s: Seq<char>, c: char) -> int {
    first_true(char_hits(s, c))
}

/// Where `find` gives an index, the pattern stands there and nowhere before;
/// where it gives none, the pattern stands nowhere.
pub proof fn lemma_find(s: Seq<char>, pat: Seq<char>)
    ensures
        match find(s, pat) {
            Some(i) => occurs_at(s, pat, i) && forall|j: int| 0 <= j < i ==> !occurs_at(s, pat, j),
            None => !contains(s, pat),
        },
{
    let occ = occurrences(s, pat);
    lemma_first_true(occ);
    let r = first_true(occ);
    if r <= s.len() {
        assert(occ[r]);
        assert forall|j: int| 0 <= j < r implies !occurs_at(s, pat, j) by {
            assert(!occ[j]);
        }
    } else {
        assert forall|j: int| !occurs_at(s, pat, j) by {
            if 0 <= j <= s.len() {
                assert(!occ[j]);
            }
        }
    }
}

/// The first occurrence is the one that nothing precedes.
pub proof fn lemma_find_is(s: Seq<char>, pat: Seq<char>, i: int)
    requires
        occurs_at(s, pat, i),
        forall|j: int| 0 <= j < i ==> !occurs_at(s, pat, j),
    ensures
        find(s, pat) == Some(i),
{
    let occ = occurrences(s, pat);
    assert(occ[i]);
    lemma_first_true_unique(occ, i);
}

/// Where the pattern stands nowhere, `find` gives none.
pub proof fn lemma_find_none(s: Seq<char>, pat: Seq<char>)
    requires
        !contains(s, pat),
    ensures
        find(s, pat) is None,
{
    let occ = occurrences(s, pat);
    assert forall|j: int| 0 <= j < occ.len() implies !occ[j] by {
        assert(!occurs_at(s, pat, j));
    }
    lemma_first_true_unique(occ, occ.len() as int);
}

/// Where `rfind` gives an index, the pattern stands there and nowhere after;
/// where it gives none, the pattern stands nowhere.
pub proof fn lemma_rfind(s: Seq<char>, pat: Seq<char>)
    ensures
        match rfind(s, pat) {
            Some(i) => occurs_at(s, pat, i) && forall|j: int| i < j ==> !occurs_at(s, pat, j),
            None => !contains(s, pat),
        },
{
    let occ = occurrences(s, pat);
    lemma_last_true(occ);
    let r = last_true(occ);
    if 0 <= r {
        assert(occ[r]);
        assert forall|j: int| r < j implies !occurs_at(s, pat, j) by {
            if j <= s.len() {
                assert(!occ[j]);
            }
        }
    } else {
        assert forall|j: int| !occurs_at(s, pat, j) by {
            if 0 <= j <= s.len() {
                assert(!occ[j]);
            }
        }
    }
}

/// The last occurrence is the one that nothing follows.
pub proof fn lemma_rfind_is(s: Seq<char>, pat: Seq<char>, i: int)
    requires
        occurs_at(s, pat, i),
        forall|j: int| i < j ==> !occurs_at(s, pat, j),
    ensures
        rfind(s, pat) == Some(i),
{
    let occ = occurrences(s, pat);
    assert(occ[i]);
    lemma_last_true_unique(occ, i);
}

/// Where the pattern stands nowhere, `rfind` gives none.
pub proof fn lemma_rfind_none(s: Seq<char>, pat: Seq<char>)
    requires
        !contains(s, pat),
    ensures
        rfind(s, pat) is None,
{
    let occ = occurrences(s, pat);
    assert forall|j: int| 0 <= j < occ.len() implies !occ[j] by {
        assert(!occurs_at(s, pat, j));
    }
    lemma_last_true_unique(occ, -1);
}

/// The index that `index_of` gives holds the character, and no earlier one does.
pub proof fn lemma_index_of(s: Seq<char>, c: char)
    ensures
        0 <= index_of(s, c) <= s.len(),
        forall|j: int| 0 <= j < index_of(s, c) ==> s[j] != c,
        index_of(s, c) < s.len() ==> s[index_of(s, c)] == c,
{
    let hits = char_hits(s, c);
    lemma_first_true(hits);
    let r = first_true(hits);
    if r < s.len() {
        assert(hits[r]);
    }
    assert forall|j: int| 0 <= j < r implies s[j] != c by {
        assert(!hits[j]);
    }
}

/// The first index that holds the character is what `index_of` gives.
pub proof fn lemma_index_of_is(s: Seq<char>, c: char, i: int)
    requires
        0 <= i <= s.len(),
        forall|j: int| 0 <= j < i ==> s[j] != c,
        i < s.len() ==> s[i] == c,
    ensures
        index_of(s, c) == i,
{
    lemma_first_true_unique(char_hits(s, c), i);
}

/// Tests whether `pat` stands in `v` at index `i`.
pub fn matches_at(v: &Vec<char>, pat: &Vec<char>, i: usize) -> (b: bool)
    ensures
        b == occurs_at(v@, pat@, i as int),
{
    if pat.len() > v.len() || i > v.len() - pat.len() {
        return false;
    }
    let mut k: usize = 0;
    while k < pat.len()
        invariant
            k <= pat.len(),
            i + pat.len() <= v.len(),
            forall|j: int| 0 <= j < k ==> v@[i + j] == pat@[j],
        decreases pat.len() - k,
    {
        if v[i + k] != pat[k] {
            proof {
                assert(v@.subrange(i as int, i + pat.len())[k as int] == v@[i + k]);
            }
            return false;
        }
        k += 1;
    }
    proof {
        assert(v@.subrange(i as int, i + pat.len()) =~= pat@);
    }
    true
}

/// Finds the first occurrence of `pat` in `v`.
pub fn find_chars(v: &Vec<char>, pat: &Vec<char>) -> (r: Option<usize>)
    ensures
        match r {
            Some(i) => find(v@, pat@) == Some(i as int),
            None => find(v@, pat@) is None,
        },
{
    let mut i: usize = 0;
    while i <= v.len()
        invariant
            i <= v.len() + 1,
            forall|j: int| 0 <= j < i ==> !occurs_at(v@, pat@, j),
        decreases v.len() + 1 - i,
    {
        if matches_at(v, pat, i) {
            proof {
                lemma_find_is(v@, pat@, i as int);
            }
            return Some(i);
        }
        if i == v.len() {
            proof {
                lemma_find_none(v@, pat@);
            }
            return None;
        }
        i += 1;
    }
    proof {
        lemma_find_none(v@, pat@);
    }
    None
}

/// Finds the last occurrence of `pat` in `v`.
pub fn rfind_chars(v: &Vec<char>, pat: &Vec<char>) -> (r: Option<usize>)
    ensures
        match r {
            Some(i) => rfind(v@, pat@) == Some(i as int),
            None => rfind(v@, pat@) is None,
        },
{
    let mut i: usize = v.len();
    loop
        invariant
            i <= v.len(),
            forall|j: int| i < j ==> !occurs_at(v@, pat@, j),
        decreases i,
    {
        if matches_at(v, pat, i) {
            proof {
                lemma_rfind_is(v@, pat@, i as int);
            }
            return Some(i);
        }
        if i == 0 {
            proof {
                lemma_rfind_none(v@, pat@);
            }
            return None;
        }
        i -= 1;
    }
}

/// Tests whether `pat` stands somewhere in `v`.
pub fn contains_chars(v: &Vec<char>, pat: &Vec<char>) -> (b: bool)
    ensures
        b == contains(v@, pat@),
{
    proof {
        lemma_find(v@, pat@);
    }
    find_chars(v, pat).is_some()
}

/// Tests whether `v` begins with `pat`.
pub fn starts_with_chars(v: &Vec<char>, pat: &Vec<char>) -> (b: bool)
    ensures
        b == starts_with(v@, pat@),
{
    matches_at(v, pat, 0)
}

/// Tests whether `v` ends with `pat`.
pub fn ends_with_chars(v: &Vec<char>, pat: &Vec<char>) -> (b: bool)
    ensures
        b == ends_with(v@, pat@),
{
    if pat.len() > v.len() {
        return false;
    }
    matches_at(v, pat, v.len() - pat.len())
}

/// Finds the first `c` in `v`; gives the length of `v` where it holds none.
pub fn index_of_char(v: &Vec<char>, c: char) -> (r: usize)
    ensures
        r == index_of(v@, c),
{
    let mut i: usize = 0;
    while i < v.len() && v[i] != c
        invariant
            i <= v.len(),
            forall|j: int| 0 <= j < i ==> v@[j] != c,
        decreases v.len() - i,
    {
        i += 1;
    }
    proof {
        lemma_index_of_is(v@, c, i as int);
    }
    i
}

/// Finds the first `c` in `v` at or after index `from`; gives the length of `v`
/// where none follows.
pub fn index_of_char_from(v: &Vec<char>, c: char, from: usize) -> (r: usize)
    requires
        from <= v.len(),
    ensures
        from <= r <= v.len(),
        r == from + index_of(v@.subrange(from as int, v.len() as int), c),
{
    let mut i: usize = from;
    while i < v.len() && v[i] != c
        invariant
            from <= i <= v.len(),
            forall|j: int| from <= j < i ==> v@[j] != c,
        decreases v.len() - i,
    {
        i += 1;
    }
    proof {
        lemma_index_of_is(v@.subrange(from as int, v.len() as int), c, i - from);
    }
    i
}

/// The views of the texts of a list.
pub open spec fn views(list: Seq<Vec<char>>) -> Seq<Seq<char>> {
    Seq::new(list.len(), |i: int| list[i]@)
}

/// One of the patterns stands somewhere in `s`.
pub open spec fn contains_any(s: Seq<char>, pats: Seq<Seq<char>>) -> bool {
    exists|i: int| 0 <= i < pats.len() && contains(s, #[trigger] pats[i])
}

/// `s` begins with one of the patterns.
pub open spec fn starts_with_any(s: Seq<char>, pats: Seq<Seq<char>>) -> bool {
    exists|i: int| 0 <= i < pats.len() && starts_with(s, #[trigger] pats[i])
}

/// `s` ends with one of the patterns.
pub open spec fn ends_with_any(s: Seq<char>, pats: Seq<Seq<char>>) -> bool {
    exists|i: int| 0 <= i < pats.len() && ends_with(s, #[trigger] pats[i])
}

/// Tests whether `x` is one of the texts of `list`.
pub fn list_has(list: &Vec<Vec<char>>, x: &Vec<char>) -> (b: bool)
    ensures
        b == views(list@).contains(x@),
{
    let mut i: usize = 0;
    while i < list.len()
        invariant
            i <= list.len(),
            forall|j: int| 0 <= j < i ==> views(list@)[j] != x@,
        decreases list.len() - i,
    {
        if list[i].len() == x.len() && matches_at(x, &list[i], 0) {
            proof {
                assert(x@.subrange(0, x@.len() as int) =~= x@);
                assert(views(list@)[i as int] == x@);
            }
            return true;
        }
        proof {
            if views(list@)[i as int] == x@ {
                assert(x@.subrange(0, x@.len() as int) =~= x@);
            }
        }
        i += 1;
    }
    false
}

/// Tests whether one of the texts of `list` stands somewhere in `x`.
pub fn list_any_within(list: &Vec<Vec<char>>, x: &Vec<char>) -> (b: bool)
    ensures
        b == contains_any(x@, views(list@)),
{
    let mut i: usize = 0;
    while i < list.len()
        invariant
            i <= list.len(),
            forall|j: int| 0 <= j < i ==> !contains(x@, #[trigger] views(list@)[j]),
        decreases list.len() - i,
    {
        if contains_chars(x, &list[i]) {
            proof {
                assert(contains(x@, views(list@)[i as int]));
            }
            return true;
        }
        i += 1;
    }
    false
}

/// Tests whether `x` begins with one of the texts of `list`.
pub fn list_any_starts(list: &Vec<Vec<char>>, x: &Vec<char>) -> (b: bool)
    ensures
        b == starts_with_any(x@, views(list@)),
{
    let mut i: usize = 0;
    while i < list.len()
        invariant
            i <= list.len(),
            forall|j: int| 0 <= j < i ==> !starts_with(x@, #[trigger] views(list@)[j]),
        decreases list.len() - i,
    {
        if starts_with_chars(x, &list[i]) {
            proof {
                assert(starts_with(x@, views(list@)[i as int]));
            }
            return true;
        }
        i += 1;
    }
    false
}

/// Tests whether `x` ends with one of the texts of `list`.
pub fn list_any_ends(list: &Vec<Vec<char>>, x: &Vec<char>) -> (b: bool)
    ensures
        b == ends_with_any(x@, views(list@)),
{
    let mut i: usize = 0;
    while i < list.len()
        invariant
            i <= list.len(),
            forall|j: int| 0 <= j < i ==> !ends_with(x@, #[trigger] views(list@)[j]),
        decreases list.len() - i,
    {
        if ends_with_chars(x, &list[i]) {
            proof {
                assert(ends_with(x@, views(list@)[i as int]));
            }
            return true;
        }
        i += 1;
    }
    false
}

} // verus!
