//! Character-level text utilities shared by the config patcher and the
//! catalog extractor: whitespace classification, trimming, and first
//! occurrence of a character or substring.

use vstd::prelude::*;

verus! {

/// The white-space characters recognised when trimming a line, the same
/// set of code points that Unicode gives the `White_Space` property.
pub open spec fn is_space(c: char) -> bool {
    let u = c as u32;
    u == 0x09 || u == 0x0A || u == 0x0B || u == 0x0C || u == 0x0D || u == 0x20 || u == 0x85
        || u == 0xA0 || u == 0x1680 || (0x2000 <= u && u <= 0x200A) || u == 0x2028 || u == 0x2029
        || u == 0x202F || u == 0x205F || u == 0x3000
}

/// Runtime test for [`is_space`].
pub fn is_space_char(c: char) -> (r: bool)
    ensures
        r == is_space(c),
{
    let u = c as u32;
    u == 0x09 || u == 0x0A || u == 0x0B || u == 0x0C || u == 0x0D || u == 0x20 || u == 0x85
        || u == 0xA0 || u == 0x1680 || (0x2000 <= u && u <= 0x200A) || u == 0x2028 || u == 0x2029
        || u == 0x202F || u == 0x205F || u == 0x3000
}

/// Index of the first character that is not white space; `s.len()` when
/// every character is white space.
pub open spec fn first_non_space(s: Seq<char>) -> int
    decreases s.len(),
{
    if s.len() == 0 {
        0
    } else if !is_space(s[0]) {
        0
    } else {
        1 + first_non_space(s.subrange(1, s.len() as int))
    }
}

pub proof fn lemma_first_non_space(s: Seq<char>)
    ensures
        0 <= first_non_space(s) <= s.len(),
        forall|j: int| 0 <= j < first_non_space(s) ==> is_space(s[j]),
        first_non_space(s) < s.len() ==> !is_space(s[first_non_space(s)]),
    decreases s.len(),
{
    if s.len() > 0 && is_space(s[0]) {
        let t = s.subrange(1, s.len() as int);
        lemma_first_non_space(t);
        assert forall|j: int| 0 <= j < first_non_space(s) implies is_space(s[j]) by {
            if j >= 1 {
                assert(s[j] == t[j - 1]);
            }
        }
    }
}

/// Index just past the last character that is not white space; `0` when
/// every character is white space.
pub open spec fn end_of_content(s: Seq<char>) -> int
    decreases s.len(),
{
    if s.len() == 0 {
        0
    } else if !is_space(s[s.len() - 1]) {
        s.len() as int
    } else {
        end_of_content(s.subrange(0, s.len() - 1))
    }
}

pub proof fn lemma_end_of_content(s: Seq<char>)
    ensures
        0 <= end_of_content(s) <= s.len(),
        forall|j: int| end_of_content(s) <= j < s.len() ==> is_space(s[j]),
        end_of_content(s) > 0 ==> !is_space(s[end_of_content(s) - 1]),
    decreases s.len(),
{
    if s.len() > 0 && is_space(s[s.len() - 1]) {
        let t = s.subrange(0, s.len() - 1);
        lemma_end_of_content(t);
        assert(forall|j: int| 0 <= j < t.len() ==> s[j] == t[j]);
    }
}

/// `s` with white space removed from both ends.
pub open spec fn trimmed(s: Seq<char>) -> Seq<char> {
    let a = first_non_space(s);
    let b = end_of_content(s);
    if a <= b {
        s.subrange(a, b)
    } else {
        Seq::empty()
    }
}

pub proof fn lemma_trimmed_bounds(s: Seq<char>)
    ensures
        first_non_space(s) <= end_of_content(s) || trimmed(s) == Seq::<char>::empty(),
        first_non_space(s) < s.len() ==> first_non_space(s) < end_of_content(s),
{
    lemma_first_non_space(s);
    lemma_end_of_content(s);
    if first_non_space(s) < s.len() {
        if end_of_content(s) <= first_non_space(s) {
            assert(is_space(s[first_non_space(s)]));
        }
    }
}

/// `s` with white space removed from both ends, computed.
pub fn trim_str(s: &str) -> (r: String)
    ensures
        r@ == trimmed(s@),
{
    proof {
        lemma_first_non_space(s@);
        lemma_end_of_content(s@);
        lemma_trimmed_bounds(s@);
    }
    let n = s.unicode_len();
    let mut a: usize = 0;
    while a < n && is_space_char(s.get_char(a))
        invariant
            0 <= a <= n,
            n == s@.len(),
            forall|j: int| 0 <= j < a ==> is_space(s@[j]),
        decreases n - a,
    {
        a = a + 1;
    }
    proof {
        if a < n {
            if first_non_space(s@) < a {
                assert(is_space(s@[first_non_space(s@)]));
            }
        } else {
            if first_non_space(s@) < s@.len() {
                assert(is_space(s@[first_non_space(s@)]));
            }
        }
        assert(a == first_non_space(s@));
    }
    if a == n {
        let r = String::new();
        proof {
            assert(r@ =~= trimmed(s@));
        }
        return r;
    }
    let mut b: usize = n;
    while b > a && is_space_char(s.get_char(b - 1))
        invariant
            a <= b <= n,
            n == s@.len(),
            a == first_non_space(s@),
            a < n,
            !is_space(s@[a as int]),
            forall|j: int| b <= j < n ==> is_space(s@[j]),
        decreases b,
    {
        b = b - 1;
    }
    proof {
        assert(!is_space(s@[b - 1]));
        if end_of_content(s@) < b {
            assert(is_space(s@[b - 1]));
        }
        if end_of_content(s@) > b {
            assert(is_space(s@[end_of_content(s@) - 1]));
        }
        assert(b == end_of_content(s@));
    }
    let sub = s.substring_char(a, b);
    sub.to_owned()
}

/// First index at or after `from` whose character is not white space, as
/// an absolute index; `s.len()` when only white space follows.
pub fn skip_spaces(s: &str, from: usize) -> (r: usize)
    requires
        from <= s@.len(),
    ensures
        from <= r <= s@.len(),
        r - from == first_non_space(s@.subrange(from as int, s@.len() as int)),
        forall|j: int| from <= j < r ==> is_space(s@[j]),
        r < s@.len() ==> !is_space(s@[r as int]),
{
    let n = s.unicode_len();
    let mut i: usize = from;
    while i < n && is_space_char(s.get_char(i))
        invariant
            from <= i <= n,
            n == s@.len(),
            forall|j: int| from <= j < i ==> is_space(s@[j]),
        decreases n - i,
    {
        i = i + 1;
    }
    proof {
        let t = s@.subrange(from as int, s@.len() as int);
        lemma_first_non_space(t);
        let f = first_non_space(t);
        assert(forall|j: int| 0 <= j < t.len() ==> t[j] == s@[j + from]);
        if f < i - from {
            assert(!is_space(t[f]));
            assert(is_space(s@[f + from]));
        }
        if f > i - from {
            assert(i < n);
            assert(is_space(t[i - from]));
        }
    }
    i
}

/// Index of the first occurrence of `c` in `s`; `s.len()` when `c` does
/// not occur.
pub open spec fn first_occurrence(s: Seq<char>, c: char) -> int
    decreases s.len(),
{
    if s.len() == 0 {
        0
    } else if s[0] == c {
        0
    } else {
        1 + first_occurrence(s.subrange(1, s.len() as int), c)
    }
}

pub proof fn lemma_first_occurrence(s: Seq<char>, c: char)
    ensures
        0 <= first_occurrence(s, c) <= s.len(),
        forall|j: int| 0 <= j < first_occurrence(s, c) ==> s[j] != c,
        first_occurrence(s, c) < s.len() ==> s[first_occurrence(s, c)] == c,
    decreases s.len(),
{
    if s.len() > 0 && s[0] != c {
        let t = s.subrange(1, s.len() as int);
        lemma_first_occurrence(t, c);
        assert forall|j: int| 0 <= j < first_occurrence(s, c) implies s[j] != c by {
            if j >= 1 {
                assert(s[j] == t[j - 1]);
            }
        }
    }
}

/// First occurrence of `c` in `s` at or after `from`, as an absolute
/// index; `s.len()` when `c` does not occur there.
pub fn find_char_from(s: &str, from: usize, c: char) -> (r: usize)
    requires
        from <= s@.len(),
    ensures
        from <= r <= s@.len(),
        r - from == first_occurrence(s@.subrange(from as int, s@.len() as int), c),
        forall|j: int| from <= j < r ==> s@[j] != c,
        r < s@.len() ==> s@[r as int] == c,
{
    let n = s.unicode_len();
    let mut i: usize = from;
    while i < n && s.get_char(i) != c
        invariant
            from <= i <= n,
            n == s@.len(),
            forall|j: int| from <= j < i ==> s@[j] != c,
        decreases n - i,
    {
        i = i + 1;
    }
    proof {
        let t = s@.subrange(from as int, s@.len() as int);
        lemma_first_occurrence(t, c);
        let f = first_occurrence(t, c);
        assert(forall|j: int| 0 <= j < t.len() ==> t[j] == s@[j + from]);
        if f < i - from {
            assert(s@[f + from] == c);
        }
        if f > i - from {
            assert(i < n);
            assert(t[i - from] != c);
        }
    }
    i
}

/// Whether `pat` occurs in `s` starting at index `i`.
pub open spec fn matches_at(s: Seq<char>, pat: Seq<char>, i: int) -> bool {
    0 <= i && i + pat.len() <= s.len() && s.subrange(i, i + pat.len() as int) == pat
}

/// Index of the first occurrence of `pat` as a substring of `s`.
pub open spec fn first_substring(s: Seq<char>, pat: Seq<char>) -> Option<int>
    decreases s.len(),
{
    if pat.len() > s.len() {
        None
    } else if s.subrange(0, pat.len() as int) == pat {
        Some(0int)
    } else if s.len() == 0 {
        None
    } else {
        match first_substring(s.subrange(1, s.len() as int), pat) {
            None => None,
            Some(i) => Some(i + 1),
        }
    }
}

pub proof fn lemma_first_substring(s: Seq<char>, pat: Seq<char>)
    ensures
        match first_substring(s, pat) {
            Some(i) => matches_at(s, pat, i) && forall|j: int| 0 <= j < i ==> !matches_at(s, pat, j),
            None => forall|j: int| !matches_at(s, pat, j),
        },
    decreases s.len(),
{
    if pat.len() > s.len() {
        assert(forall|j: int| !matches_at(s, pat, j));
    } else if s.subrange(0, pat.len() as int) == pat {
        assert(matches_at(s, pat, 0));
    } else if s.len() == 0 {
        assert(s.subrange(0, pat.len() as int) =~= pat);
    } else {
        let t = s.subrange(1, s.len() as int);
        lemma_first_substring(t, pat);
        assert forall|j: int| 1 <= j && matches_at(s, pat, j) implies matches_at(t, pat, j - 1) by {
            assert(t.subrange(j - 1, j - 1 + pat.len() as int) =~= s.subrange(j, j + pat.len() as int));
        }
        assert forall|j: int| 0 <= j && matches_at(t, pat, j) implies matches_at(s, pat, j + 1) by {
            assert(t.subrange(j, j + pat.len() as int) =~= s.subrange(j + 1, j + 1 + pat.len() as int));
        }
        match first_substring(s, pat) {
            Some(i) => {
                assert(matches_at(t, pat, i - 1));
                assert forall|j: int| 0 <= j < i implies !matches_at(s, pat, j) by {
                    if j >= 1 && matches_at(s, pat, j) {
                        assert(matches_at(t, pat, j - 1));
                    }
                }
            },
            None => {
                assert forall|j: int| !matches_at(s, pat, j) by {
                    if j >= 1 && matches_at(s, pat, j) {
                        assert(matches_at(t, pat, j - 1));
                    }
                }
            },
        }
    }
}

/// Whether `pat` occurs in `s` at `i`, computed.
fn matches_at_exec(s: &str, pat: &str, i: usize) -> (r: bool)
    requires
        i + pat@.len() <= s@.len() <= usize::MAX,
    ensures
        r == matches_at(s@, pat@, i as int),
{
    let m = pat.unicode_len();
    let mut k: usize = 0;
    while k < m
        invariant
            0 <= k <= m,
            m == pat@.len(),
            i + m <= s@.len() <= usize::MAX,
            forall|j: int| 0 <= j < k ==> s@[i + j] == pat@[j],
        decreases m - k,
    {
        if s.get_char(i + k) != pat.get_char(k) {
            proof {
                assert(s.view().subrange(i as int, i + m as int)[k as int] != pat@[k as int]);
            }
            return false;
        }
        k = k + 1;
    }
    proof {
        assert(s@.subrange(i as int, i + m as int) =~= pat@);
    }
    true
}

/// Index of the first occurrence of `pat` as a substring of `s`, computed.
pub fn find_substring(s: &str, pat: &str) -> (r: Option<usize>)
    ensures
        match r {
            Some(i) => Some(i as int) == first_substring(s@, pat@),
            None => first_substring(s@, pat@) is None,
        },
{
    proof {
        lemma_first_substring(s@, pat@);
    }
    let n = s.unicode_len();
    let m = pat.unicode_len();
    if m > n {
        return None;
    }
    let bound = n - m;
    let mut i: usize = 0;
    loop
        invariant
            0 <= i <= bound,
            m <= n,
            n == s@.len(),
            m == pat@.len(),
            bound == n - m,
            forall|j: int| 0 <= j < i ==> !matches_at(s@, pat@, j),
        decreases bound - i,
    {
        if matches_at_exec(s, pat, i) {
            proof {
                lemma_first_substring(s@, pat@);
                match first_substring(s@, pat@) {
                    Some(f) => {
                        if f < i {
                            assert(!matches_at(s@, pat@, f));
                        }
                        assert(f == i);
                    },
                    None => {
                        assert(!matches_at(s@, pat@, i as int));
                    },
                }
            }
            return Some(i);
        }
        if i == bound {
            proof {
                lemma_first_substring(s@, pat@);
                if first_substring(s@, pat@) is Some {
                    let f = first_substring(s@, pat@)->Some_0;
                    assert(matches_at(s@, pat@, f));
                    assert(f <= bound);
                    assert(!matches_at(s@, pat@, f));
                }
            }
            return None;
        }
        i = i + 1;
    }
}

} // verus!
