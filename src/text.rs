//! Character searches over strings, with their mathematical meaning.

use vstd::prelude::*;

verus! {

/// Number of occurrences of `c` in `s`.
pub open spec fn count_char(s: Seq<char>, c: char) -> nat
    decreases s.len(),
{
    if s.len() == 0 {
        0
    } else {
        count_char(s.drop_last(), c) + if s.last() == c { 1nat } else { 0nat }
    }
}

/// Position of the first `c` in `s`, or -1 when `s` holds none.
pub open spec fn first_index(s: Seq<char>, c: char) -> int
    decreases s.len(),
{
    if s.len() == 0 {
        -1
    } else if first_index(s.drop_last(), c) < 0 && s.last() == c {
        s.len() - 1
    } else {
        first_index(s.drop_last(), c)
    }
}

/// Position of the last `c` in `s`, or -1 when `s` holds none.
pub open spec fn last_index(s: Seq<char>, c: char) -> int
    decreases s.len(),
{
    if s.len() == 0 {
        -1
    } else if s.last() == c {
        s.len() - 1
    } else {
        last_index(s.drop_last(), c)
    }
}

/// What `first_index` means: no earlier `c`, and a `c` at the position found.
pub proof fn lemma_first_index(s: Seq<char>, c: char)
    ensures
        -1 <= first_index(s, c) < s.len(),
        first_index(s, c) >= 0 ==> s[first_index(s, c)] == c,
        forall|j: int| 0 <= j < s.len() && (first_index(s, c) < 0 || j < first_index(s, c))
            ==> s[j] != c,
        first_index(s, c) >= 0 <==> count_char(s, c) > 0,
        first_index(s, c) < 0 <==> !s.contains(c),
    decreases s.len(),
{
    if s.len() > 0 {
        lemma_first_index(s.drop_last(), c);
        assert forall|j: int| 0 <= j < s.len() - 1 implies s[j] == s.drop_last()[j] by {}
        if first_index(s, c) < 0 {
            assert forall|j: int| 0 <= j < s.len() implies s[j] != c by {
                if j < s.len() - 1 {
                    assert(s[j] == s.drop_last()[j]);
                }
            }
        }
        if s.contains(c) {
            let j = choose|j: int| 0 <= j < s.len() && s[j] == c;
            if j < s.len() - 1 {
                assert(s.drop_last().contains(c)) by {
                    assert(s.drop_last()[j] == c);
                }
            }
        }
    }
}

/// What `last_index` means: no later `c`, and a `c` at the position found.
pub proof fn lemma_last_index(s: Seq<char>, c: char)
    ensures
        -1 <= last_index(s, c) < s.len(),
        last_index(s, c) >= 0 ==> s[last_index(s, c)] == c,
        forall|j: int| last_index(s, c) < j < s.len() ==> s[j] != c,
        last_index(s, c) < 0 <==> !s.contains(c),
    decreases s.len(),
{
    if s.len() > 0 {
        lemma_last_index(s.drop_last(), c);
        assert forall|j: int| 0 <= j < s.len() - 1 implies s[j] == s.drop_last()[j] by {}
        if s.contains(c) {
            let j = choose|j: int| 0 <= j < s.len() && s[j] == c;
            if j < s.len() - 1 && s.last() != c {
                assert(s.drop_last().contains(c)) by {
                    assert(s.drop_last()[j] == c);
                }
            }
        }
    }
}

/// Scans `s` once and returns how many `c` it holds, with the first and the
/// last position of one.
pub fn scan_char(s: &str, c: char) -> (r: (usize, Option<usize>, Option<usize>))
    ensures
        r.0 == count_char(s@, c),
        match r.1 {
            Some(i) => i == first_index(s@, c),
            None => first_index(s@, c) < 0,
        },
        match r.2 {
            Some(i) => i == last_index(s@, c),
            None => last_index(s@, c) < 0,
        },
{
    let n = s.unicode_len();
    let mut count: usize = 0;
    let mut first: Option<usize> = None;
    let mut last: Option<usize> = None;
    let mut i: usize = 0;
    while i < n
        invariant
            n == s@.len(),
            i <= n,
            count == count_char(s@.take(i as int), c),
            count <= i,
            match first {
                Some(f) => f == first_index(s@.take(i as int), c),
                None => first_index(s@.take(i as int), c) < 0,
            },
            match last {
                Some(l) => l == last_index(s@.take(i as int), c),
                None => last_index(s@.take(i as int), c) < 0,
            },
        decreases n - i,
    {
        let ch = s.get_char(i);
        assert(s@.take(i + 1).drop_last() =~= s@.take(i as int));
        if ch == c {
            count = count + 1;
            if first.is_none() {
                first = Some(i);
            }
            last = Some(i);
        }
        i = i + 1;
    }
    assert(s@.take(n as int) =~= s@);
    (count, first, last)
}

} // verus!
