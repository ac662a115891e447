//! How large a search is, and how likely it is to succeed.

use vstd::prelude::*;

verus! {

/// The number of candidates in row `c`: the author's offsets `lower..=c`.
pub open spec fn row_total(lower: int, c: int) -> nat {
    if c < lower {
        0
    } else {
        (c - lower + 1) as nat
    }
}

/// The number of candidates in the rows `lower..=upper`, row by row.
pub open spec fn rows_total(lower: int, upper: int) -> nat
    decreases upper - lower + 1,
{
    if upper < lower {
        0
    } else {
        rows_total(lower, upper - 1) + row_total(lower, upper)
    }
}

/// The number of candidates of a window: with `bound` the window's width,
/// `(bound + 1) * (bound + 2) / 2`.
pub open spec fn candidate_total(lower: int, upper: int) -> nat {
    if upper < lower {
        0
    } else {
        (((upper - lower) + 1) * ((upper - lower) + 2) / 2) as nat
    }
}

/// The number of hashes that differ in their first `n` hex digits.
pub open spec fn pow16(n: nat) -> nat
    decreases n,
{
    if n == 0 {
        1
    } else {
        16 * pow16((n - 1) as nat)
    }
}

/// The candidates of a window, counted row by row, are as many as the
/// formula says.
pub proof fn rows_total_is_triangular(lower: int, upper: int)
    ensures
        rows_total(lower, upper) == candidate_total(lower, upper),
    decreases upper - lower + 1,
{
    if upper >= lower {
        rows_total_is_triangular(lower, upper - 1);
        let n = upper - lower;
        assert((n + 1) * (n + 2) / 2 == n * (n + 1) / 2 + (n + 1)) by (nonlinear_arith);
        if n == 0 {
            assert(candidate_total(lower, upper - 1) == 0);
        } else {
            assert(candidate_total(lower, upper - 1) == n * (n + 1) / 2);
        }
        assert(n == 0 ==> n * (n + 1) / 2 == 0) by (nonlinear_arith);
    }
}

/// `pow16` never shrinks.
pub proof fn pow16_grows(m: nat, n: nat)
    requires
        m <= n,
    ensures
        1 <= pow16(m) <= pow16(n),
    decreases n,
{
    if m < n {
        pow16_grows(m, (n - 1) as nat);
    } else if n > 0 {
        pow16_grows((m - 1) as nat, (n - 1) as nat);
    }
}

/// A count that stops at the largest value it can hold.
pub open spec fn capped(n: int) -> int {
    if n > u128::MAX {
        u128::MAX as int
    } else {
        n
    }
}

/// How far a search has come: the candidates of the rows that are done.
#[derive(Clone, Copy, Debug, PartialEq, Eq)]
pub struct Progress {
    pub done: u128,
}

impl Progress {
    /// A count of nothing.
    pub fn new() -> (r: Progress)
        ensures
            r.done == 0,
    {
        Progress { done: 0 }
    }

    /// Adds the `n` candidates of a row that is done.
    pub fn advance(&mut self, n: u128)
        ensures
            final(self).done == capped(old(self).done + n),
    {
        if n > u128::MAX - self.done {
            self.done = u128::MAX;
        } else {
            self.done = self.done + n;
        }
    }
}

/// Counts the candidates of row `c`.
pub fn row_count(lower: i64, c: i64) -> (r: u128)
    ensures
        r == row_total(lower as int, c as int),
{
    if c < lower {
        0
    } else {
        (c as i128 - lower as i128 + 1) as u128
    }
}

/// Counts the candidates of a window.
pub fn candidate_count(lower: i64, upper: i64) -> (r: u128)
    ensures
        r == candidate_total(lower as int, upper as int),
{
    if upper < lower {
        return 0;
    }
    let bound: u128 = (upper as i128 - lower as i128) as u128;
    let first: u128 = bound + 1;
    let second: u128 = bound + 2;
    if first % 2 == 0 {
        let half: u128 = first / 2;
        assert(half * second == first * second / 2 && half * second <= 0x8000_0000_0000_0000
            * 0x1_0000_0000_0000_0001) by (nonlinear_arith)
            requires
                first == 2 * half,
                half <= 0x8000_0000_0000_0000,
                second <= 0x1_0000_0000_0000_0001,
        ;
        half * second
    } else {
        let half: u128 = second / 2;
        assert(half * first == first * second / 2 && half * first <= 0x8000_0000_0000_0000
            * 0x1_0000_0000_0000_0000) by (nonlinear_arith)
            requires
                second == 2 * half,
                half <= 0x8000_0000_0000_0000,
                first <= 0x1_0000_0000_0000_0000,
        ;
        half * first
    }
}

/// Counts the hashes that differ in their first `prefix_len` hex digits;
/// `None` where the count does not fit in 128 bits.
pub fn hash_space(prefix_len: usize) -> (r: Option<u128>)
    ensures
        r == (if pow16(prefix_len as nat) <= u128::MAX {
            Some(pow16(prefix_len as nat) as u128)
        } else {
            None
        }),
{
    let mut acc: u128 = 1;
    let mut i: usize = 0;
    while i < prefix_len
        invariant
            i <= prefix_len,
            acc == pow16(i as nat),
        decreases prefix_len - i,
    {
        if acc > u128::MAX / 16 {
            proof {
                pow16_grows((i + 1) as nat, prefix_len as nat);
            }
            return None;
        }
        acc = acc * 16;
        i += 1;
    }
    Some(acc)
}

/// The most candidates that a search is expected to try: all of the window,
/// or as many as there are hashes to tell apart by the prefix, if that is
/// fewer.
pub fn expected_work(lower: i64, upper: i64, prefix_len: usize) -> (r: u128)
    ensures
        r == (if pow16(prefix_len as nat) < candidate_total(lower as int, upper as int) {
            pow16(prefix_len as nat)
        } else {
            candidate_total(lower as int, upper as int)
        }),
{
    let candidates = candidate_count(lower, upper);
    match hash_space(prefix_len) {
        Some(hashes) => if hashes < candidates {
            hashes
        } else {
            candidates
        },
        None => candidates,
    }
}

} // verus!
