//! Collision-free destination naming: the desired base name is used when no
//! existing entry carries it; otherwise `base_2`, `base_3`, ... are tried in
//! order, and the search fails loudly when every suffixed candidate up to the
//! bound is taken.

use vstd::prelude::*;

use crate::errors::UnpackError;

verus! {

/// The digit character for a value below ten.
pub open spec fn digit_char(d: nat) -> char {
    if d == 0 {
        '0'
    } else if d == 1 {
        '1'
    } else if d == 2 {
        '2'
    } else if d == 3 {
        '3'
    } else if d == 4 {
        '4'
    } else if d == 5 {
        '5'
    } else if d == 6 {
        '6'
    } else if d == 7 {
        '7'
    } else if d == 8 {
        '8'
    } else {
        '9'
    }
}

/// The decimal rendering of `n`, without a sign and without leading zeros.
pub open spec fn dec_rep(n: nat) -> Seq<char>
    decreases n,
{
    if n < 10 {
        seq![digit_char(n)]
    } else {
        dec_rep(n / 10).push(digit_char(n % 10))
    }
}

/// The suffixed candidate tried at counter `c`: the base name, an
/// underscore, and the counter in decimal.
pub open spec fn candidate_name(base: Seq<char>, c: nat) -> Seq<char> {
    base + seq!['_'] + dec_rep(c)
}

/// Whether `name` occurs among the existing entry names.
pub open spec fn taken(name: Seq<char>, existing: Seq<Seq<char>>) -> bool {
    exists|i: int| 0 <= i < existing.len() && existing[i] == name
}

/// The search outcome from counter `c` on: the first free suffixed
/// candidate, or nothing when every counter up to the bound is taken.
pub open spec fn resolve_from(base: Seq<char>, existing: Seq<Seq<char>>, c: nat) -> Option<
    Seq<char>,
>
    decreases u32::MAX + 1 - c,
    when c <= u32::MAX
{
    if !taken(candidate_name(base, c), existing) {
        Some(candidate_name(base, c))
    } else if c == u32::MAX {
        None
    } else {
        resolve_from(base, existing, c + 1)
    }
}

/// The collision-free name for `base` against the existing entries: `base`
/// itself when free, else the first free candidate among `base_2`, `base_3`,
/// and so on.
pub open spec fn resolve(base: Seq<char>, existing: Seq<Seq<char>>) -> Option<Seq<char>> {
    if !taken(base, existing) {
        Some(base)
    } else {
        resolve_from(base, existing, 2)
    }
}

/// A resolved name never collides: whatever the search returns is absent
/// from the existing entries, so what already exists is left untouched.
pub proof fn lemma_resolve_free(base: Seq<char>, existing: Seq<Seq<char>>)
    ensures
        resolve(base, existing) matches Some(name) ==> !taken(name, existing),
{
    if taken(base, existing) {
        lemma_resolve_from_free(base, existing, 2);
    }
}

proof fn lemma_resolve_from_free(base: Seq<char>, existing: Seq<Seq<char>>, c: nat)
    requires
        c <= u32::MAX,
    ensures
        resolve_from(base, existing, c) matches Some(name) ==> !taken(name, existing),
    decreases u32::MAX + 1 - c,
{
    if taken(candidate_name(base, c), existing) && c < u32::MAX {
        lemma_resolve_from_free(base, existing, c + 1);
    }
}

/// Collision avoidance on the first step: when the base name is taken and
/// `base_2` is free, the search settles on `base_2`.
pub proof fn lemma_collision_first_suffix(base: Seq<char>, existing: Seq<Seq<char>>)
    requires
        taken(base, existing),
        !taken(candidate_name(base, 2), existing),
    ensures
        resolve(base, existing) == Some(candidate_name(base, 2)),
{
}

/// The decimal rendering of a value below ten.
fn digit_str(d: u32) -> (r: &'static str)
    requires
        d < 10,
    ensures
        r@ == seq![digit_char(d as nat)],
{
    let r = if d == 0 {
        "0"
    } else if d == 1 {
        "1"
    } else if d == 2 {
        "2"
    } else if d == 3 {
        "3"
    } else if d == 4 {
        "4"
    } else if d == 5 {
        "5"
    } else if d == 6 {
        "6"
    } else if d == 7 {
        "7"
    } else if d == 8 {
        "8"
    } else {
        "9"
    };
    proof {
        reveal_strlit("0");
        reveal_strlit("1");
        reveal_strlit("2");
        reveal_strlit("3");
        reveal_strlit("4");
        reveal_strlit("5");
        reveal_strlit("6");
        reveal_strlit("7");
        reveal_strlit("8");
        reveal_strlit("9");
        assert(r@ =~= seq![digit_char(d as nat)]);
    }
    r
}

/// The decimal rendering of `n` as a string.
fn u32_to_dec(n: u32) -> (s: String)
    ensures
        s@ == dec_rep(n as nat),
    decreases n,
{
    if n < 10 {
        String::from_str(digit_str(n))
    } else {
        let mut s = u32_to_dec(n / 10);
        s.append(digit_str(n % 10));
        proof {
            assert(s@ =~= dec_rep(n as nat));
        }
        s
    }
}

/// Whether `name` equals one of the entries.
fn name_taken(existing: &Vec<String>, name: &String) -> (r: bool)
    ensures
        r == taken(name@, existing.deep_view()),
{
    let n = existing.len();
    let mut i: usize = 0;
    while i < n
        invariant
            n == existing@.len(),
            0 <= i <= n,
            forall|k: int| 0 <= k < i ==> existing.deep_view()[k] != name@,
        decreases n - i,
    {
        if existing[i] == *name {
            assert(existing.deep_view()[i as int] == name@);
            return true;
        }
        i = i + 1;
    }
    false
}

/// The suffixed candidate for counter `c` as a string.
fn make_candidate(base: &String, c: u32) -> (r: String)
    ensures
        r@ == candidate_name(base@, c as nat),
{
    let mut s = base.clone();
    s.append("_");
    let digits = u32_to_dec(c);
    s.append(digits.as_str());
    proof {
        reveal_strlit("_");
        assert(s@ =~= candidate_name(base@, c as nat));
    }
    s
}

/// The collision-free name for `base` against the existing entry names:
/// `base` itself when no entry carries it, else the first free name among
/// `base_2`, `base_3`, ...; fails with `NamingExhausted` when every
/// candidate up to the bound is taken, and never silently reuses a taken
/// name.
pub fn find_suitable_name(base: &String, existing: &Vec<String>) -> (r: Result<
    String,
    UnpackError,
>)
    ensures
        match r {
            Ok(name) => resolve(base@, existing.deep_view()) == Some(name@),
            Err(e) => resolve(base@, existing.deep_view()) is None && e is NamingExhausted,
        },
{
    if !name_taken(existing, base) {
        return Ok(base.clone());
    }
    let mut c: u32 = 2;
    loop
        invariant
            2 <= c,
            taken(base@, existing.deep_view()),
            resolve(base@, existing.deep_view()) == resolve_from(
                base@,
                existing.deep_view(),
                c as nat,
            ),
        decreases u32::MAX - c,
    {
        let name = make_candidate(base, c);
        if !name_taken(existing, &name) {
            return Ok(name);
        }
        if c == u32::MAX {
            return Err(UnpackError::NamingExhausted);
        }
        c = c + 1;
    }
}

} // verus!
