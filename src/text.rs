//! Character-level helpers shared by the parsers.
use vstd::prelude::*;
use vstd::string::*;

verus! {

/// The index of the first `c` at or after `i`, or the length.
pub open spec fn first_index_from(s: Seq<char>, i: int, c: char) -> int
    decreases s.len() - i,
{
    if i >= s.len() {
        s.len() as int
    } else if s[i] == c {
        i
    } else {
        first_index_from(s, i + 1, c)
    }
}

pub proof fn lemma_first_index_bounds(s: Seq<char>, i: int, c: char)
    requires
        0 <= i <= s.len(),
    ensures
        i <= first_index_from(s, i, c) <= s.len(),
        first_index_from(s, i, c) < s.len() ==> s[first_index_from(s, i, c)] == c,
    decreases s.len() - i,
{
    if i < s.len() {
        lemma_first_index_bounds(s, i + 1, c);
    }
}

pub proof fn lemma_first_index_shift(s: Seq<char>, k: int, i: int, c: char)
    requires
        0 <= k <= s.len(),
        0 <= i <= s.len() - k,
    ensures
        first_index_from(s.skip(k), i, c) == first_index_from(s, i + k, c) - k,
    decreases s.len() - k - i,
{
    if i < s.len() - k {
        lemma_first_index_shift(s, k, i + 1, c);
    }
}

/// The index of the first `c` at or after `from`, or the length.
pub fn find_char_from(s: &str, from: usize, c: char) -> (r: usize)
    requires
        from <= s@.len(),
    ensures
        r == first_index_from(s@, from as int, c),
        from <= r <= s@.len(),
{
    let n = s.unicode_len();
    let mut i = from;
    while i < n
        invariant
            from <= i <= n,
            n == s@.len(),
            first_index_from(s@, i as int, c) == first_index_from(s@, from as int, c),
        decreases n - i,
    {
        proof {
            lemma_first_index_bounds(s@, i as int, c);
        }
        if s.get_char(i) == c {
            return i;
        }
        i = i + 1;
    }
    i
}

/// The view of an optional text.
pub open spec fn opt_view(o: Option<&str>) -> Option<Seq<char>> {
    match o {
        Some(s) => Some(s@),
        None => None,
    }
}

/// Whether two texts hold the same characters.
pub fn same_text(a: &str, b: &str) -> (r: bool)
    ensures
        r == (a@ == b@),
{
    let n = a.unicode_len();
    if n != b.unicode_len() {
        return false;
    }
    let mut i: usize = 0;
    while i < n
        invariant
            i <= n,
            n == a@.len(),
            n == b@.len(),
            a@.subrange(0, i as int) =~= b@.subrange(0, i as int),
        decreases n - i,
    {
        if a.get_char(i) != b.get_char(i) {
            assert(a@[i as int] != b@[i as int]);
            return false;
        }
        i = i + 1;
    }
    assert(a@ =~= a@.subrange(0, n as int));
    assert(b@ =~= b@.subrange(0, n as int));
    true
}

} // verus!
