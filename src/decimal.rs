//! Reading decimal integers as std's `str::parse` reads them.
use vstd::prelude::*;
use vstd::string::*;

verus! {

/// A decimal digit.
pub open spec fn is_digit(c: char) -> bool {
    '0' as u32 <= c as u32 && c as u32 <= '9' as u32
}

pub open spec fn digit_value(c: char) -> int {
    c as u32 - '0' as u32
}

pub open spec fn all_digits(s: Seq<char>) -> bool {
    forall|i: int| 0 <= i < s.len() ==> is_digit(#[trigger] s[i])
}

/// The value of a string of decimal digits, most significant first.
pub open spec fn digits_value(s: Seq<char>) -> int
    decreases s.len(),
{
    if s.len() == 0 {
        0
    } else {
        digits_value(s.drop_last()) * 10 + digit_value(s.last())
    }
}

/// The value of a non-empty string of digits, if it is at most `limit`.
pub open spec fn digits_within(s: Seq<char>, limit: int) -> Option<int> {
    if s.len() > 0 && all_digits(s) && digits_value(s) <= limit {
        Some(digits_value(s))
    } else {
        None
    }
}

/// The text after an optional leading `+`.
pub open spec fn unsigned_text(s: Seq<char>) -> Seq<char> {
    if s.len() > 0 && s[0] == '+' {
        s.skip(1)
    } else {
        s
    }
}

/// The text of a decimal `i32`: an optional `+` or `-`, then at least one
/// digit, and a value in range.
pub open spec fn decimal_i32(s: Seq<char>) -> Option<i32> {
    if s.len() > 0 && s[0] == '-' {
        match digits_within(s.skip(1), 2147483648) {
            Some(v) => Some((-v) as i32),
            None => None,
        }
    } else {
        match digits_within(unsigned_text(s), 2147483647) {
            Some(v) => Some(v as i32),
            None => None,
        }
    }
}

/// The text of a decimal `u16`: an optional `+`, then at least one digit,
/// and a value in range.
pub open spec fn decimal_u16(s: Seq<char>) -> Option<u16> {
    match digits_within(unsigned_text(s), 65535) {
        Some(v) => Some(v as u16),
        None => None,
    }
}

proof fn lemma_digits_value_prefix(s: Seq<char>, k: int)
    requires
        0 <= k <= s.len(),
        all_digits(s),
    ensures
        digits_value(s) >= digits_value(s.subrange(0, k)) >= 0,
    decreases s.len(),
{
    if s.len() > 0 {
        let t = s.drop_last();
        assert(all_digits(t)) by {
            assert forall|i: int| 0 <= i < t.len() implies is_digit(#[trigger] t[i]) by {
                assert(t[i] == s[i]);
            }
        }
        assert(is_digit(s[s.len() - 1]));
        if k == s.len() {
            assert(s.subrange(0, k) =~= s);
            lemma_digits_value_prefix(t, t.len() as int);
            assert(t.subrange(0, t.len() as int) =~= t);
        } else {
            lemma_digits_value_prefix(t, k);
            assert(t.subrange(0, k) =~= s.subrange(0, k));
        }
    } else {
        assert(s.subrange(0, k) =~= s);
    }
}

/// Reads the digits of `s` from `start` on, if they are a non-empty
/// string of digits whose value is at most `limit`.
fn read_digits(s: &str, start: usize, limit: u64) -> (r: Option<u64>)
    requires
        start <= s@.len(),
        limit <= 4294967295,
    ensures
        match r {
            Some(v) => digits_within(s@.skip(start as int), limit as int) == Some(v as int),
            None => digits_within(s@.skip(start as int), limit as int) is None,
        },
{
    let n = s.unicode_len();
    let ghost m = s@.skip(start as int);
    if start >= n {
        return None;
    }
    let mut acc: u64 = 0;
    let mut i: usize = start;
    while i < n
        invariant
            start <= i <= n,
            n == s@.len(),
            m == s@.skip(start as int),
            limit <= 4294967295,
            all_digits(m.subrange(0, i - start)),
            acc == digits_value(m.subrange(0, i - start)),
            acc <= limit,
        decreases n - i,
    {
        let c = s.get_char(i);
        let code = c as u32;
        if code < '0' as u32 || code > '9' as u32 {
            assert(m[i - start] == c);
            assert(!is_digit(m[i - start]));
            assert(!all_digits(m));
            return None;
        }
        let ghost prev = m.subrange(0, i - start);
        let ghost next = m.subrange(0, i + 1 - start);
        assert(next.drop_last() =~= prev);
        assert(next.last() == c);
        acc = acc * 10 + (code - '0' as u32) as u64;
        i = i + 1;
        assert(all_digits(next)) by {
            assert forall|j: int| 0 <= j < next.len() implies is_digit(#[trigger] next[j]) by {
                if j < prev.len() {
                    assert(next[j] == prev[j]);
                }
            }
        }
        if acc > limit {
            proof {
                if all_digits(m) {
                    lemma_digits_value_prefix(m, i - start);
                }
            }
            return None;
        }
    }
    assert(m.subrange(0, n - start) =~= m);
    Some(acc)
}

/// Reads a decimal `i32` as std's `str::parse` does.
pub fn parse_i32(s: &str) -> (r: Option<i32>)
    ensures
        r == decimal_i32(s@),
{
    let n = s.unicode_len();
    if n > 0 && s.get_char(0) == '-' {
        match read_digits(s, 1, 2147483648) {
            Some(v) => Some((0 - (v as i64)) as i32),
            None => None,
        }
    } else {
        let start: usize = if n > 0 && s.get_char(0) == '+' {
            1
        } else {
            0
        };
        assert(s@.skip(start as int) =~= unsigned_text(s@));
        match read_digits(s, start, 2147483647) {
            Some(v) => Some(v as i32),
            None => None,
        }
    }
}

/// Reads a decimal `u16` as std's `str::parse` does.
pub fn parse_u16(s: &str) -> (r: Option<u16>)
    ensures
        r == decimal_u16(s@),
{
    let n = s.unicode_len();
    let start: usize = if n > 0 && s.get_char(0) == '+' {
        1
    } else {
        0
    };
    assert(s@.skip(start as int) =~= unsigned_text(s@));
    match read_digits(s, start, 65535) {
        Some(v) => Some(v as u16),
        None => None,
    }
}

} // verus!
