//! Splitting text at the first occurrence of a separator, and case-insensitive
//! comparison of scheme tokens, with their spec-level models.

use vstd::prelude::*;
use vstd::string::StrSliceExecFns;

verus! {

/// True when `c` occurs somewhere in `s`.
pub open spec fn occurs(s: Seq<char>, c: char) -> bool {
    exists|i: int| 0 <= i < s.len() && s[i] == c
}

/// Index of the first occurrence of `c` in `s`; `s.len()` when `c` does not occur.
pub open spec fn first_at(s: Seq<char>, c: char) -> int
    decreases s.len(),
{
    if s.len() == 0 {
        0
    } else if s[0] == c {
        0
    } else {
        1 + first_at(s.drop_first(), c)
    }
}

/// What stands before the first occurrence of `c` in `s`.
pub open spec fn before_first(s: Seq<char>, c: char) -> Seq<char> {
    s.take(first_at(s, c))
}

/// What stands after the first occurrence of `c` in `s`.
pub open spec fn after_first(s: Seq<char>, c: char) -> Seq<char> {
    s.skip(first_at(s, c) + 1)
}

pub proof fn lemma_first_at(s: Seq<char>, c: char)
    ensures
        0 <= first_at(s, c) <= s.len(),
        occurs(s, c) ==> first_at(s, c) < s.len() && s[first_at(s, c)] == c,
        !occurs(s, c) ==> first_at(s, c) == s.len(),
        forall|j: int| 0 <= j < first_at(s, c) ==> s[j] != c,
    decreases s.len(),
{
    if s.len() == 0 {
    } else if s[0] == c {
        assert(occurs(s, c));
    } else {
        let rest = s.drop_first();
        lemma_first_at(rest, c);
        assert(occurs(s, c) ==> occurs(rest, c)) by {
            if occurs(s, c) {
                let i = choose|i: int| 0 <= i < s.len() && s[i] == c;
                assert(rest[i - 1] == c);
            }
        }
        assert(occurs(rest, c) ==> occurs(s, c)) by {
            if occurs(rest, c) {
                let i = choose|i: int| 0 <= i < rest.len() && rest[i] == c;
                assert(s[i + 1] == c);
            }
        }
        assert forall|j: int| 0 <= j < first_at(s, c) implies s[j] != c by {
            if j > 0 {
                assert(rest[j - 1] != c);
            }
        }
    }
}

/// The first occurrence of `c` is the one index at which `c` stands with none
/// before it.
pub proof fn lemma_first_at_unique(s: Seq<char>, c: char, i: int)
    requires
        0 <= i < s.len(),
        s[i] == c,
        forall|j: int| 0 <= j < i ==> s[j] != c,
    ensures
        first_at(s, c) == i,
{
    lemma_first_at(s, c);
    assert(occurs(s, c));
}

/// Splitting at the first occurrence undoes joining with the separator, as long
/// as the left part holds no separator: the core of the decode/encode round trip.
pub proof fn lemma_split_of_join(u: Seq<char>, p: Seq<char>, c: char)
    requires
        !occurs(u, c),
    ensures
        occurs(u + seq![c] + p, c),
        before_first(u + seq![c] + p, c) == u,
        after_first(u + seq![c] + p, c) == p,
{
    let s = u + seq![c] + p;
    assert(s[u.len() as int] == c);
    assert forall|j: int| 0 <= j < u.len() implies s[j] != c by {
        assert(s[j] == u[j]);
    }
    lemma_first_at_unique(s, c, u.len() as int);
    assert(before_first(s, c) =~= u);
    assert(after_first(s, c) =~= p);
}

/// Index of the first occurrence of `c` in `s`, when there is one.
pub fn find_first(s: &str, c: char) -> (r: Option<usize>)
    ensures
        r is Some <==> occurs(s@, c),
        (r matches Some(i) ==> i == first_at(s@, c)),
{
    let n = s.unicode_len();
    let mut i: usize = 0;
    while i < n
        invariant
            0 <= i <= n,
            n == s@.len(),
            forall|j: int| 0 <= j < i ==> s@[j] != c,
        decreases n - i,
    {
        if s.get_char(i) == c {
            proof {
                lemma_first_at_unique(s@, c, i as int);
            }
            return Some(i);
        }
        i = i + 1;
    }
    None
}

/// Whether `c` occurs in `s`.
pub fn contains_char(s: &str, c: char) -> (r: bool)
    ensures
        r == occurs(s@, c),
{
    find_first(s, c).is_some()
}

/// ASCII lowercase of one character; characters outside `A`..`Z` stand unchanged.
pub open spec fn ascii_lower(c: char) -> char {
    if 'A' <= c && c <= 'Z' {
        (((c as u8) + 32) as u8) as char
    } else {
        c
    }
}

/// Equality of two characters up to ASCII case.
pub open spec fn ascii_eq_ignore_case(a: char, b: char) -> bool {
    ascii_lower(a) == ascii_lower(b)
}

/// Pointwise equality of two texts up to ASCII case.
pub open spec fn eq_ignore_ascii_case(s: Seq<char>, t: Seq<char>) -> bool {
    s.len() == t.len() && (forall|i: int| 0 <= i < s.len() ==> ascii_eq_ignore_case(s[i], t[i]))
}

/// Whether a scheme token names the Basic scheme, in any ASCII case.
pub open spec fn is_basic_scheme(s: Seq<char>) -> bool {
    eq_ignore_ascii_case(s, seq!['b', 'a', 's', 'i', 'c'])
}

/// Scheme comparison is case-insensitive: two scheme tokens that are ASCII case
/// variants of each other either both name the Basic scheme or neither does.
pub proof fn lemma_scheme_case_insensitive(s: Seq<char>, t: Seq<char>)
    requires
        eq_ignore_ascii_case(s, t),
    ensures
        is_basic_scheme(s) == is_basic_scheme(t),
{
}

/// Whether one character matches `lower`, a lowercase ASCII letter, up to case.
fn char_matches_lower(c: char, lower: char) -> (r: bool)
    requires
        'a' <= lower && lower <= 'z',
    ensures
        r == ascii_eq_ignore_case(c, lower),
{
    let upper_n = (lower as u32) - 32;
    c == lower || (c as u32) == upper_n
}

/// Whether a scheme token names the Basic scheme, compared case-insensitively.
pub fn scheme_is_basic(s: &str) -> (r: bool)
    ensures
        r == is_basic_scheme(s@),
{
    let n = s.unicode_len();
    if n != 5 {
        return false;
    }
    let r = char_matches_lower(s.get_char(0), 'b') && char_matches_lower(s.get_char(1), 'a')
        && char_matches_lower(s.get_char(2), 's') && char_matches_lower(s.get_char(3), 'i')
        && char_matches_lower(s.get_char(4), 'c');
    proof {
        let t = seq!['b', 'a', 's', 'i', 'c'];
        if r {
            assert forall|i: int| 0 <= i < s@.len() implies ascii_eq_ignore_case(
                s@[i],
                t[i],
            ) by {
                assert(ascii_eq_ignore_case(s@[0], 'b'));
                assert(ascii_eq_ignore_case(s@[1], 'a'));
                assert(ascii_eq_ignore_case(s@[2], 's'));
                assert(ascii_eq_ignore_case(s@[3], 'i'));
                assert(ascii_eq_ignore_case(s@[4], 'c'));
            }
        }
    }
    r
}

} // verus!
