//! Powers of two, and the length to which a table is padded.

use vstd::arithmetic::power2::is_pow2;
use vstd::math::max;
use vstd::prelude::*;

verus! {

/// The smallest power of two that is at least `n`. For 0 it is 1, the
/// smallest power of two there is.
pub open spec fn next_power_of_two(n: nat) -> nat
    decreases n,
{
    if n <= 1 {
        1
    } else {
        2 * next_power_of_two(((n + 1) / 2) as nat)
    }
}

/// The number of rows of a table that holds `n` rows before padding: the
/// next power of two, and at least 1.
pub open spec fn padded_len(n: nat) -> nat {
    max(1, next_power_of_two(n) as int) as nat
}

/// Twice a power of two is a power of two.
pub proof fn lemma_double_is_pow2(p: int)
    requires
        is_pow2(p),
    ensures
        is_pow2(2 * p),
{
    reveal(is_pow2);
    assert(p > 0);
    assert((2 * p) / 2 == p);
}

/// Of two powers of two, the larger is at least twice the smaller.
pub proof fn lemma_pow2_gap(a: int, b: int)
    requires
        is_pow2(a),
        is_pow2(b),
        a < b,
    ensures
        2 * a <= b,
    decreases b,
{
    reveal(is_pow2);
    if a > 1 {
        lemma_pow2_gap(a / 2, b / 2);
    }
}

/// `next_power_of_two(n)` is a power of two, and it is at least `n`.
pub proof fn lemma_next_power_of_two_covers(n: nat)
    ensures
        is_pow2(next_power_of_two(n) as int),
        next_power_of_two(n) >= n,
    decreases n,
{
    if n <= 1 {
        reveal(is_pow2);
    } else {
        let half = ((n + 1) / 2) as nat;
        lemma_next_power_of_two_covers(half);
        lemma_double_is_pow2(next_power_of_two(half) as int);
    }
}

/// `next_power_of_two(n)` is the least of the powers of two that are at
/// least `n`.
pub proof fn lemma_next_power_of_two_least(n: nat, q: nat)
    requires
        is_pow2(q as int),
        q >= n,
    ensures
        next_power_of_two(n) <= q,
    decreases n,
{
    reveal(is_pow2);
    if n > 1 {
        let half = ((n + 1) / 2) as nat;
        lemma_next_power_of_two_least(half, q / 2);
    }
}

/// A number that is a power of two is its own next power of two.
pub proof fn lemma_next_power_of_two_fixes_pow2(p: nat)
    requires
        is_pow2(p as int),
    ensures
        next_power_of_two(p) == p,
{
    lemma_next_power_of_two_covers(p);
    lemma_next_power_of_two_least(p, p);
}

/// The padded length is the next power of two as it stands: that is never
/// below 1.
pub proof fn lemma_padded_len_is_next_power_of_two(n: nat)
    ensures
        padded_len(n) == next_power_of_two(n),
        padded_len(n) >= 1,
        padded_len(n) >= n,
        is_pow2(padded_len(n) as int),
{
    lemma_next_power_of_two_covers(n);
    reveal(is_pow2);
}

/// The padded length of `n` rows. The bound on `n` is the one that lets the
/// result fit the machine's word.
pub fn padded_len_of(n: usize) -> (len: usize)
    requires
        n <= usize::MAX / 2 + 1,
    ensures
        len == padded_len(n as nat),
{
    proof {
        lemma_padded_len_is_next_power_of_two(n as nat);
        reveal(is_pow2);
    }
    let mut len: usize = 1;
    while len < n
        invariant
            n <= usize::MAX / 2 + 1,
            len >= 1,
            is_pow2(len as int),
            len <= next_power_of_two(n as nat),
            is_pow2(next_power_of_two(n as nat) as int),
            next_power_of_two(n as nat) >= n,
        decreases next_power_of_two(n as nat) - len,
    {
        proof {
            lemma_pow2_gap(len as int, next_power_of_two(n as nat) as int);
            lemma_double_is_pow2(len as int);
        }
        len = 2 * len;
    }
    proof {
        lemma_next_power_of_two_least(n as nat, len as nat);
    }
    len
}

} // verus!
