//! Character scanning over string views: first and last occurrence of a
//! character, with the facts the identifier and path logic needs.

use vstd::prelude::*;

verus! {

/// Index of the last occurrence of `c` in `s`, or -1 if `c` does not occur.
pub open spec fn last_occurrence(s: Seq<char>, c: char) -> int
    decreases s.len(),
{
    if s.len() == 0 {
        -1
    } else if s.last() == c {
        s.len() - 1
    } else {
        last_occurrence(s.drop_last(), c)
    }
}

/// Index of the first occurrence of `c` in `s`, or -1 if `c` does not occur.
pub open spec fn first_occurrence(s: Seq<char>, c: char) -> int
    decreases s.len(),
{
    if s.len() == 0 {
        -1
    } else if s[0] == c {
        0
    } else if first_occurrence(s.drop_first(), c) == -1 {
        -1
    } else {
        first_occurrence(s.drop_first(), c) + 1
    }
}

/// What `last_occurrence` returns: a hit is the last one, a miss means none.
pub proof fn lemma_last_occurrence(s: Seq<char>, c: char)
    ensures
        -1 <= last_occurrence(s, c) < s.len(),
        last_occurrence(s, c) >= 0 ==> s[last_occurrence(s, c)] == c,
        forall|j: int| last_occurrence(s, c) < j < s.len() ==> s[j] != c,
    decreases s.len(),
{
    if s.len() > 0 && s.last() != c {
        lemma_last_occurrence(s.drop_last(), c);
        assert forall|j: int| last_occurrence(s, c) < j < s.len() implies s[j] != c by {
            if j < s.len() - 1 {
                assert(s.drop_last()[j] == s[j]);
            }
        }
    }
}

/// If `c` stands at `k` and nowhere later, the last occurrence is `k`.
pub proof fn lemma_last_occurrence_at(s: Seq<char>, c: char, k: int)
    requires
        0 <= k < s.len(),
        s[k] == c,
        forall|j: int| k < j < s.len() ==> s[j] != c,
    ensures
        last_occurrence(s, c) == k,
    decreases s.len(),
{
    if k < s.len() - 1 {
        lemma_last_occurrence_at(s.drop_last(), c, k);
    }
}

/// If `c` occurs nowhere in `s`, the last occurrence is -1.
pub proof fn lemma_last_occurrence_none(s: Seq<char>, c: char)
    requires
        forall|j: int| 0 <= j < s.len() ==> s[j] != c,
    ensures
        last_occurrence(s, c) == -1,
    decreases s.len(),
{
    if s.len() > 0 {
        lemma_last_occurrence_none(s.drop_last(), c);
    }
}

/// What `first_occurrence` returns: a hit is the first one, a miss means none.
pub proof fn lemma_first_occurrence(s: Seq<char>, c: char)
    ensures
        -1 <= first_occurrence(s, c) < s.len(),
        first_occurrence(s, c) >= 0 ==> s[first_occurrence(s, c)] == c,
        forall|j: int| 0 <= j < first_occurrence(s, c) ==> s[j] != c,
        first_occurrence(s, c) == -1 ==> forall|j: int| 0 <= j < s.len() ==> s[j] != c,
    decreases s.len(),
{
    if s.len() > 0 && s[0] != c {
        lemma_first_occurrence(s.drop_first(), c);
        assert forall|j: int| 0 <= j < first_occurrence(s, c) implies s[j] != c by {
            if j > 0 {
                assert(s.drop_first()[j - 1] == s[j]);
            }
        }
        if first_occurrence(s, c) == -1 {
            assert forall|j: int| 0 <= j < s.len() implies s[j] != c by {
                if j > 0 {
                    assert(s.drop_first()[j - 1] == s[j]);
                }
            }
        }
    }
}

/// If `c` stands at `k` and nowhere earlier, the first occurrence is `k`.
pub proof fn lemma_first_occurrence_at(s: Seq<char>, c: char, k: int)
    requires
        0 <= k < s.len(),
        s[k] == c,
        forall|j: int| 0 <= j < k ==> s[j] != c,
    ensures
        first_occurrence(s, c) == k,
    decreases s.len(),
{
    if k > 0 {
        lemma_first_occurrence_at(s.drop_first(), c, k - 1);
    }
}

/// If `c` occurs nowhere in `s`, the first occurrence is -1.
pub proof fn lemma_first_occurrence_none(s: Seq<char>, c: char)
    requires
        forall|j: int| 0 <= j < s.len() ==> s[j] != c,
    ensures
        first_occurrence(s, c) == -1,
    decreases s.len(),
{
    if s.len() > 0 {
        lemma_first_occurrence_none(s.drop_first(), c);
    }
}

/// Find the last occurrence of `c` in `s`, scanning from the end.
pub fn rfind_char(s: &str, c: char) -> (r: Option<usize>)
    ensures
        match r {
            Option::Some(k) => k == last_occurrence(s@, c),
            Option::None => last_occurrence(s@, c) == -1,
        },
{
    let n = s.unicode_len();
    let mut i = n;
    while i > 0
        invariant
            i <= n,
            n == s@.len(),
            forall|j: int| i <= j < s@.len() ==> s@[j] != c,
        decreases i,
    {
        if s.get_char(i - 1) == c {
            proof {
                lemma_last_occurrence_at(s@, c, i - 1);
            }
            return Option::Some(i - 1);
        }
        i = i - 1;
    }
    proof {
        lemma_last_occurrence_none(s@, c);
    }
    Option::None
}

} // verus!
