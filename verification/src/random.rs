//! The random numbers of `RND`: uniformly distributed in [0, 1).
//!
//! A random number is `k / 2^53` for a random whole number `k` below
//! `2^53`, which is how the `rand` crate makes a binary64 number from 64
//! random bits: it takes their 53 highest.

use vstd::prelude::*;
use vstd::arithmetic::power2::{
    pow2, lemma2_to64, lemma2_to64_rest, lemma_pow2_strictly_increases, lemma_pow2_unfold,
};
use rand::Rng;
use crate::number::{Number, ONE_BITS, ZERO_BITS};

verus! {

/// `2^52`: the weight of the lowest exponent bit in a bit pattern, and the
/// hidden bit of a normal number's significand.
pub const HIDDEN_BIT: u64 = 0x10_0000_0000_0000;

/// `2^11`: what 64 bits are divided by to leave their 53 highest.
pub const LOW_BITS: u64 = 0x800;

/// The exponent field of a bit pattern.
pub open spec fn exponent_field(n: Number) -> nat {
    (n.magnitude() / HIDDEN_BIT) as nat
}

/// The fraction field of a bit pattern.
pub open spec fn fraction_field(n: Number) -> nat {
    (n.magnitude() % HIDDEN_BIT) as nat
}

/// Whether `n` is the number `k / 2^53`, for `k` below `2^53`. Zero is all
/// bits clear. Otherwise `n` is a normal number with exponent field `e` and
/// fraction field `f`, which stands for `(2^52 + f) * 2^(e - 1075)`; that is
/// `k * 2^-53` exactly if `2^52 + f` is `k * 2^(1022 - e)`.
pub open spec fn is_fraction(n: Number, k: nat) -> bool {
    if k == 0 {
        n.bits == ZERO_BITS
    } else {
        &&& !n.sign()
        &&& 1 <= exponent_field(n) <= 1022
        &&& HIDDEN_BIT + fraction_field(n) == k * pow2((1022 - exponent_field(n)) as nat)
    }
}

/// The number in [0, 1) that 64 random bits stand for: their 53 highest
/// bits as a whole number, divided by `2^53`.
pub fn unit_interval(random: u64) -> (r: Number)
    ensures
        is_fraction(r, (random / LOW_BITS) as nat),
        !r.nan(),
        !r.sign(),
        r.lt(Number { bits: ONE_BITS }),
{
    let k: u64 = random / LOW_BITS;
    if k == 0 {
        return Number { bits: ZERO_BITS };
    }
    let mut m: u64 = k;
    let mut e: u64 = 1022;
    proof {
        lemma2_to64();
        lemma2_to64_rest();
    }
    while m < HIDDEN_BIT
        invariant
            1 <= k < 2 * HIDDEN_BIT,
            k <= m < 2 * HIDDEN_BIT,
            970 <= e <= 1022,
            m == k * pow2((1022 - e) as nat),
            pow2(52) == HIDDEN_BIT,
        decreases e,
    {
        proof {
            let c = (1022 - e) as nat;
            lemma_pow2_unfold(c + 1);
            assert(pow2(c) <= m) by (nonlinear_arith)
                requires
                    m == k * pow2(c),
                    k >= 1,
            ;
            if c >= 52 {
                if c > 52 {
                    lemma_pow2_strictly_increases(52, c);
                }
                assert(false);
            }
            assert(k * (2 * pow2(c)) == 2 * (k * pow2(c))) by (nonlinear_arith);
        }
        m = m * 2;
        e = e - 1;
    }
    let r = Number { bits: e * HIDDEN_BIT + (m - HIDDEN_BIT) };
    proof {
        let f = (m - HIDDEN_BIT) as nat;
        assert(r.bits < ONE_BITS);
        assert(r.magnitude() == r.bits);
        assert(r.bits / HIDDEN_BIT == e);
        assert(r.bits % HIDDEN_BIT == f);
    }
    r
}

/// Draws 64 random bits from the generator that `rand::thread_rng` hands
/// out, with `Rng::gen`. Nothing is claimed of them.
#[verifier::external_body]
fn random_bits() -> u64 {
    rand::thread_rng().gen()
}

/// A random number, uniformly distributed in [0, 1).
pub fn random_number() -> (r: Number)
    ensures
        exists|k: nat| k < 2 * HIDDEN_BIT && is_fraction(r, k),
        !r.nan(),
        !r.sign(),
        r.lt(Number { bits: ONE_BITS }),
{
    let bits = random_bits();
    let r = unit_interval(bits);
    proof {
        assert(is_fraction(r, (bits / LOW_BITS) as nat));
    }
    r
}

} // verus!
