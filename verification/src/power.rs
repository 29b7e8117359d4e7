//! Powers of two within the machine word.

use vstd::arithmetic::power::{lemma_pow_positive, pow};
use vstd::arithmetic::power2::{
    is_pow2, is_pow2_equiv, is_pow2_exists, lemma_pow2_strictly_increases, lemma_pow2_unfold, pow2,
};
use vstd::bits::{lemma_usize_pow2_no_overflow, lemma_usize_shl_is_mul};
use vstd::layout::unsigned_int_max_values;
use vstd::prelude::*;

verus! {

/// `p` is the least power of two that is not below `n`.
pub open spec fn is_next_pow2(n: nat, p: nat) -> bool {
    &&& is_pow2(p as int)
    &&& p >= n
    &&& p > 1 ==> p / 2 < n
}

/// A power of two in the machine word is two to an exponent below the word's
/// width, which is returned.
pub proof fn lemma_pow2_exponent(n: usize) -> (e: nat)
    requires
        is_pow2(n as int),
    ensures
        n == pow2(e),
        e < usize::BITS,
{
    is_pow2_equiv(n as int);
    let e = choose|e: nat| pow(2, e) == n as int;
    unsigned_int_max_values();
    let bits = usize::BITS as nat;
    if e > bits {
        lemma_pow2_strictly_increases(bits, e);
    }
    e
}

/// Two to any exponent is a power of two.
pub proof fn lemma_pow2_is_pow2(e: nat)
    ensures
        is_pow2(pow2(e) as int),
{
    lemma_pow_positive(2, e);
    assert(is_pow2_exists(pow2(e) as int));
    is_pow2_equiv(pow2(e) as int);
}

/// The double of a power of two that lies in the lower half of the machine
/// word lies in the word, and is a power of two.
pub proof fn lemma_pow2_double(p: usize)
    requires
        is_pow2(p as int),
        p <= usize::MAX / 2,
    ensures
        2 * p <= usize::MAX / 2 + 1,
        is_pow2(2 * p),
{
    let e = lemma_pow2_exponent(p);
    unsigned_int_max_values();
    let bits = usize::BITS as nat;
    lemma_pow2_unfold(bits);
    lemma_pow2_unfold(e + 1);
    // `p` lies below two to `bits - 1`, so `e + 1` is at most `bits - 1`.
    if e > bits - 1 {
        lemma_pow2_strictly_increases((bits - 1) as nat, e);
    }
    if e + 1 < bits - 1 {
        lemma_pow2_strictly_increases(e + 1, (bits - 1) as nat);
    }
    lemma_pow2_is_pow2(e + 1);
}

/// Of two powers of two the larger is at least the double of the smaller.
pub proof fn lemma_pow2_gap(smaller: nat, larger: nat)
    requires
        is_pow2(smaller as int),
        is_pow2(larger as int),
        smaller < larger,
    ensures
        2 * smaller <= larger,
{
    is_pow2_equiv(smaller as int);
    is_pow2_equiv(larger as int);
    let low = choose|e: nat| pow(2, e) == smaller as int;
    let high = choose|e: nat| pow(2, e) == larger as int;
    if high < low {
        lemma_pow2_strictly_increases(high, low);
    }
    lemma_pow2_unfold(low + 1);
    if low + 1 < high {
        lemma_pow2_strictly_increases(low + 1, high);
    }
}

/// There is one least power of two that is not below `n`.
pub proof fn lemma_next_pow2_unique(n: nat, one: nat, other: nat)
    requires
        is_next_pow2(n, one),
        is_next_pow2(n, other),
    ensures
        one == other,
{
    reveal(is_pow2);
    if one < other {
        lemma_pow2_gap(one, other);
    }
    if other < one {
        lemma_pow2_gap(other, one);
    }
}

/// Tells whether `n` is a power of two.
pub fn is_power_of_two(n: usize) -> (yes: bool)
    ensures
        yes == is_pow2(n as int),
{
    if n == 0 {
        proof {
            reveal(is_pow2);
        }
        return false;
    }
    let mut m: usize = n;
    while m % 2 == 0
        invariant
            m > 0,
            is_pow2(m as int) == is_pow2(n as int),
        decreases m,
    {
        proof {
            reveal(is_pow2);
        }
        m = m / 2;
    }
    proof {
        reveal(is_pow2);
    }
    m == 1
}

/// Finds the least power of two that is not below `n`; `None` when it does
/// not fit the machine word.
pub fn next_power_of_two(n: usize) -> (found: Option<usize>)
    ensures
        found is Some <==> n <= usize::MAX / 2 + 1,
        found matches Some(p) ==> is_next_pow2(n as nat, p as nat),
{
    let mut p: usize = 1;
    proof {
        reveal(is_pow2);
    }
    while p < n
        invariant
            is_pow2(p as int),
            p >= 1,
            p <= usize::MAX / 2 + 1,
            p > 1 ==> p / 2 < n,
        decreases usize::MAX - p,
    {
        if p > usize::MAX / 2 {
            return None;
        }
        proof {
            lemma_pow2_double(p);
        }
        p = 2 * p;
    }
    Some(p)
}

/// Computes two to the `exponent`; `None` when it does not fit the machine
/// word.
pub fn power_of_two(exponent: u8) -> (found: Option<usize>)
    ensures
        found is Some <==> exponent < usize::BITS,
        found matches Some(p) ==> p == pow2(exponent as nat) && is_pow2(p as int),
{
    if exponent as u32 >= usize::BITS {
        return None;
    }
    proof {
        lemma_usize_pow2_no_overflow(exponent as nat);
        lemma_usize_shl_is_mul(1usize, exponent as usize);
        lemma_pow2_is_pow2(exponent as nat);
    }
    Some(1usize << (exponent as usize))
}

} // verus!
