//! Character-level scanning helpers: whitespace classification, first/last
//! occurrence searches over an index range, trimming, and whitespace
//! splitting.  The spec functions define the meaning; the exec functions are
//! verified against them.

use vstd::prelude::*;

verus! {

/// Whether `c` has the Unicode `White_Space` property, the classification the
/// configuration line syntax splits on.
pub open spec fn is_space(c: char) -> bool {
    ||| c == '\u{0009}'
    ||| c == '\u{000A}'
    ||| c == '\u{000B}'
    ||| c == '\u{000C}'
    ||| c == '\u{000D}'
    ||| c == ' '
    ||| c == '\u{0085}'
    ||| c == '\u{00A0}'
    ||| c == '\u{1680}'
    ||| c == '\u{2000}'
    ||| c == '\u{2001}'
    ||| c == '\u{2002}'
    ||| c == '\u{2003}'
    ||| c == '\u{2004}'
    ||| c == '\u{2005}'
    ||| c == '\u{2006}'
    ||| c == '\u{2007}'
    ||| c == '\u{2008}'
    ||| c == '\u{2009}'
    ||| c == '\u{200A}'
    ||| c == '\u{2028}'
    ||| c == '\u{2029}'
    ||| c == '\u{202F}'
    ||| c == '\u{205F}'
    ||| c == '\u{3000}'
}

/// Runtime whitespace test, equal to [`is_space`].
pub fn is_space_char(c: char) -> (r: bool)
    ensures
        r == is_space(c),
{
    c == '\u{0009}' || c == '\u{000A}' || c == '\u{000B}' || c == '\u{000C}' || c == '\u{000D}'
        || c == ' ' || c == '\u{0085}' || c == '\u{00A0}' || c == '\u{1680}' || c == '\u{2000}'
        || c == '\u{2001}' || c == '\u{2002}' || c == '\u{2003}' || c == '\u{2004}'
        || c == '\u{2005}' || c == '\u{2006}' || c == '\u{2007}' || c == '\u{2008}'
        || c == '\u{2009}' || c == '\u{200A}' || c == '\u{2028}' || c == '\u{2029}'
        || c == '\u{202F}' || c == '\u{205F}' || c == '\u{3000}'
}

/// The first index in `[i, hi)` holding exactly `target`, if any.
pub open spec fn find_char_from(s: Seq<char>, i: int, hi: int, target: char) -> Option<int>
    decreases hi - i,
{
    if i < 0 || i >= hi || hi > s.len() {
        None
    } else if s[i] == target {
        Some(i)
    } else {
        find_char_from(s, i + 1, hi, target)
    }
}

/// The first index in `[i, hi)` holding a non-whitespace character, if any.
pub open spec fn find_non_space_from(s: Seq<char>, i: int, hi: int) -> Option<int>
    decreases hi - i,
{
    if i < 0 || i >= hi || hi > s.len() {
        None
    } else if !is_space(s[i]) {
        Some(i)
    } else {
        find_non_space_from(s, i + 1, hi)
    }
}

/// The first index in `[i, hi)` holding a whitespace character, if any.
pub open spec fn find_space_from(s: Seq<char>, i: int, hi: int) -> Option<int>
    decreases hi - i,
{
    if i < 0 || i >= hi || hi > s.len() {
        None
    } else if is_space(s[i]) {
        Some(i)
    } else {
        find_space_from(s, i + 1, hi)
    }
}

/// The last index in `[lo, i]` holding a non-whitespace character, if any.
pub open spec fn find_non_space_back(s: Seq<char>, lo: int, i: int) -> Option<int>
    decreases i - lo + 1,
{
    if i < lo || lo < 0 || i >= s.len() {
        None
    } else if !is_space(s[i]) {
        Some(i)
    } else {
        find_non_space_back(s, lo, i - 1)
    }
}

/// The slice of `[lo, hi)` with leading and trailing whitespace removed.
pub open spec fn trim_range(s: Seq<char>, lo: int, hi: int) -> Seq<char> {
    match find_non_space_from(s, lo, hi) {
        None => Seq::empty(),
        Some(a) => match find_non_space_back(s, lo, hi - 1) {
            None => Seq::empty(),
            Some(b) => s.subrange(a, b + 1),
        },
    }
}

/// Where the whitespace-delimited token starting at `i` ends: the first
/// whitespace index at or after `i`, or `hi` when none follows.
pub open spec fn token_end(s: Seq<char>, i: int, hi: int) -> int {
    match find_space_from(s, i, hi) {
        Some(e) => e,
        None => hi,
    }
}

/// Characterization of [`find_space_from`]: a found index lies in range,
/// holds whitespace, and nothing before it in the range does.
pub proof fn lemma_find_space_from_spec(s: Seq<char>, i: int, hi: int)
    requires
        0 <= i <= hi <= s.len(),
    ensures
        match find_space_from(s, i, hi) {
            Some(j) => i <= j < hi && is_space(s[j]) && forall|k: int|
                i <= k < j ==> !is_space(s[k]),
            None => forall|k: int| i <= k < hi ==> !is_space(s[k]),
        },
    decreases hi - i,
{
    if i < hi && !is_space(s[i]) {
        lemma_find_space_from_spec(s, i + 1, hi);
    }
}

/// Characterization of [`find_char_from`].
pub proof fn lemma_find_char_from_spec(s: Seq<char>, i: int, hi: int, target: char)
    requires
        0 <= i <= hi <= s.len(),
    ensures
        match find_char_from(s, i, hi, target) {
            Some(j) => i <= j < hi && s[j] == target && forall|k: int|
                i <= k < j ==> s[k] != target,
            None => forall|k: int| i <= k < hi ==> s[k] != target,
        },
    decreases hi - i,
{
    if i < hi && s[i] != target {
        lemma_find_char_from_spec(s, i + 1, hi, target);
    }
}

/// Characterization of [`find_non_space_from`].
pub proof fn lemma_find_non_space_from_spec(s: Seq<char>, i: int, hi: int)
    requires
        0 <= i <= hi <= s.len(),
    ensures
        match find_non_space_from(s, i, hi) {
            Some(j) => i <= j < hi && !is_space(s[j]) && forall|k: int|
                i <= k < j ==> is_space(s[k]),
            None => forall|k: int| i <= k < hi ==> is_space(s[k]),
        },
    decreases hi - i,
{
    if i < hi && is_space(s[i]) {
        lemma_find_non_space_from_spec(s, i + 1, hi);
    }
}

/// Characterization of [`find_non_space_back`].
pub proof fn lemma_find_non_space_back_spec(s: Seq<char>, lo: int, i: int)
    requires
        0 <= lo,
        i < s.len(),
    ensures
        match find_non_space_back(s, lo, i) {
            Some(j) => lo <= j <= i && !is_space(s[j]) && forall|k: int|
                j < k <= i ==> is_space(s[k]),
            None => forall|k: int| lo <= k <= i ==> is_space(s[k]),
        },
    decreases i - lo + 1,
{
    if i >= lo && is_space(s[i]) {
        lemma_find_non_space_back_spec(s, lo, i - 1);
    }
}

/// The sequence of maximal non-whitespace runs of `[i, hi)`, in order.
pub open spec fn split_ws_range(s: Seq<char>, i: int, hi: int) -> Seq<Seq<char>>
    decreases hi - i,
    when 0 <= i && hi <= s.len()
    via split_ws_range_decreases
{
    if i >= hi {
        Seq::empty()
    } else if is_space(s[i]) {
        split_ws_range(s, i + 1, hi)
    } else {
        seq![s.subrange(i, token_end(s, i, hi))] + split_ws_range(s, token_end(s, i, hi), hi)
    }
}

#[via_fn]
proof fn split_ws_range_decreases(s: Seq<char>, i: int, hi: int) {
    if 0 <= i < hi && hi <= s.len() && !is_space(s[i]) {
        lemma_find_space_from_spec(s, i, hi);
    }
}

/// The first index in `[from, to)` of `s` holding `target`, if any.
pub fn find_char_in(s: &str, from: usize, to: usize, target: char) -> (r: Option<usize>)
    requires
        from <= to <= s@.len(),
    ensures
        match r {
            Some(j) => find_char_from(s@, from as int, to as int, target) == Some(j as int),
            None => find_char_from(s@, from as int, to as int, target) is None,
        },
{
    let mut j = from;
    while j < to
        invariant
            from <= j <= to <= s@.len(),
            find_char_from(s@, from as int, to as int, target) == find_char_from(
                s@,
                j as int,
                to as int,
                target,
            ),
        decreases to - j,
    {
        if s.get_char(j) == target {
            return Some(j);
        }
        j = j + 1;
    }
    None
}

/// The first index in `[from, to)` of `s` holding a non-whitespace character.
pub fn find_non_space_in(s: &str, from: usize, to: usize) -> (r: Option<usize>)
    requires
        from <= to <= s@.len(),
    ensures
        match r {
            Some(j) => find_non_space_from(s@, from as int, to as int) == Some(j as int),
            None => find_non_space_from(s@, from as int, to as int) is None,
        },
{
    let mut j = from;
    while j < to
        invariant
            from <= j <= to <= s@.len(),
            find_non_space_from(s@, from as int, to as int) == find_non_space_from(
                s@,
                j as int,
                to as int,
            ),
        decreases to - j,
    {
        if !is_space_char(s.get_char(j)) {
            return Some(j);
        }
        j = j + 1;
    }
    None
}

/// The first index in `[from, to)` of `s` holding a whitespace character.
pub fn find_space_in(s: &str, from: usize, to: usize) -> (r: Option<usize>)
    requires
        from <= to <= s@.len(),
    ensures
        match r {
            Some(j) => find_space_from(s@, from as int, to as int) == Some(j as int),
            None => find_space_from(s@, from as int, to as int) is None,
        },
{
    let mut j = from;
    while j < to
        invariant
            from <= j <= to <= s@.len(),
            find_space_from(s@, from as int, to as int) == find_space_from(
                s@,
                j as int,
                to as int,
            ),
        decreases to - j,
    {
        if is_space_char(s.get_char(j)) {
            return Some(j);
        }
        j = j + 1;
    }
    None
}

/// The last index in `[lo, hi)` of `s` holding a non-whitespace character.
pub fn find_non_space_back_in(s: &str, lo: usize, hi: usize) -> (r: Option<usize>)
    requires
        lo <= hi <= s@.len(),
    ensures
        match r {
            Some(j) => find_non_space_back(s@, lo as int, hi - 1) == Some(j as int),
            None => find_non_space_back(s@, lo as int, hi - 1) is None,
        },
{
    let mut j = hi;
    while j > lo
        invariant
            lo <= j <= hi <= s@.len(),
            find_non_space_back(s@, lo as int, hi - 1) == find_non_space_back(
                s@,
                lo as int,
                j - 1,
            ),
        decreases j,
    {
        if !is_space_char(s.get_char(j - 1)) {
            return Some(j - 1);
        }
        j = j - 1;
    }
    None
}

} // verus!
