//! Detection of the pull-request number from CI environment values.
use vstd::prelude::*;
use vstd::string::*;

use crate::decimal::{decimal_i32, parse_i32};
use crate::text::{find_char_from, first_index_from, lemma_first_index_shift};

verus! {

/// The start of a pull-request ref.
pub open spec fn pull_prefix() -> Seq<char> {
    seq!['r', 'e', 'f', 's', '/', 'p', 'u', 'l', 'l', '/']
}

/// The index of the first `/` at or after `i`, or the length.
pub open spec fn segment_end(s: Seq<char>, i: int) -> int {
    first_index_from(s, i, '/')
}

/// The pull-request number named by a ref of the form `refs/pull/<n>/...`:
/// the first path segment after the prefix, read as a positive `i32`.
pub open spec fn pr_number_of_ref(r: Seq<char>) -> Option<i32> {
    if r.len() >= 10 && r.subrange(0, 10) == pull_prefix() {
        let rest = r.skip(10);
        let n = decimal_i32(rest.subrange(0, segment_end(rest, 0)));
        if n is Some && n->0 > 0 {
            n
        } else {
            None
        }
    } else {
        None
    }
}

/// Reads the pull-request number out of a ref such as `refs/pull/123/merge`.
/// Anything that is not a pull-request ref, or whose number is not a positive
/// `i32`, gives `None`.
pub fn parse_pr_from_github_ref(github_ref: &str) -> (r: Option<i32>)
    ensures
        r == pr_number_of_ref(github_ref@),
{
    let prefix = "refs/pull/";
    proof {
        reveal_strlit("refs/pull/");
    }
    assert(prefix@ =~= pull_prefix());
    let n = github_ref.unicode_len();
    if n < 10 {
        return None;
    }
    let mut i: usize = 0;
    while i < 10
        invariant
            i <= 10 <= n,
            n == github_ref@.len(),
            prefix@ == pull_prefix(),
            github_ref@.subrange(0, i as int) =~= pull_prefix().subrange(0, i as int),
        decreases 10 - i,
    {
        if github_ref.get_char(i) != prefix.get_char(i) {
            assert(github_ref@.subrange(0, 10)[i as int] != pull_prefix()[i as int]);
            return None;
        }
        i = i + 1;
    }
    assert(github_ref@.subrange(0, 10) =~= pull_prefix());
    let end = find_char_from(github_ref, 10, '/');
    let ghost rest = github_ref@.skip(10);
    proof {
        lemma_first_index_shift(github_ref@, 10, 0, '/');
    }
    let segment = github_ref.substring_char(10, end);
    assert(segment@ =~= rest.subrange(0, segment_end(rest, 0)));
    match parse_i32(segment) {
        Some(v) => {
            if v > 0 {
                Some(v)
            } else {
                None
            }
        },
        None => None,
    }
}

/// The pull-request number of a CI run: from the ref of the run when that is
/// a pull-request ref, else from an explicitly given number.
pub open spec fn detected_pr_number(
    github_ref: Option<Seq<char>>,
    pr_number: Option<Seq<char>>,
) -> Option<i32> {
    let from_ref = if github_ref is Some {
        pr_number_of_ref(github_ref->0)
    } else {
        None
    };
    if from_ref is Some {
        from_ref
    } else if pr_number is Some {
        decimal_i32(pr_number->0)
    } else {
        None
    }
}

/// Picks the pull-request number from the values of the two CI variables
/// that carry it (the ref of the run, and a number given directly).
pub fn detect_pr_number(github_ref: Option<&str>, pr_number: Option<&str>) -> (r: Option<i32>)
    ensures
        r == detected_pr_number(
            match github_ref {
                Some(s) => Some(s@),
                None => None,
            },
            match pr_number {
                Some(s) => Some(s@),
                None => None,
            },
        ),
{
    let from_ref = match github_ref {
        Some(s) => parse_pr_from_github_ref(s),
        None => None,
    };
    match from_ref {
        Some(v) => Some(v),
        None => match pr_number {
            Some(s) => parse_i32(s),
            None => None,
        },
    }
}

} // verus!
