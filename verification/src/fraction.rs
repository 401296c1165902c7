//! Fractional shares of a budget.
//!
//! A fraction reaches the limiter as the 64 bits of a binary floating-point
//! number (IEEE 754, double precision). Its share of a budget is worked out
//! on the integers that those bits encode, so that the result is the exact
//! product rounded once.

use vstd::prelude::*;

verus! {

/// Two to the power `k`.
pub open spec fn power_of_two(k: nat) -> nat
    decreases k,
{
    if k == 0 {
        1
    } else {
        2 * power_of_two((k - 1) as nat)
    }
}

/// The sign field of the encoding: 1 for a number below zero (and for the
/// negative zero).
pub open spec fn sign_field(bits: u64) -> int {
    bits as int / 0x8000_0000_0000_0000
}

/// The biased exponent field of the encoding.
pub open spec fn exponent_field(bits: u64) -> int {
    (bits as int / 0x10_0000_0000_0000) % 2048
}

/// The integer significand: the 52 stored bits, with the implicit leading
/// bit where the exponent field is not zero.
pub open spec fn significand(bits: u64) -> int {
    if exponent_field(bits) == 0 {
        bits as int % 0x10_0000_0000_0000
    } else {
        bits as int % 0x10_0000_0000_0000 + 0x10_0000_0000_0000
    }
}

/// The number of binary places behind the point: the magnitude of the
/// encoded number is `significand / 2^scale`.
pub open spec fn scale(bits: u64) -> int {
    if exponent_field(bits) == 0 {
        1074
    } else {
        1075 - exponent_field(bits)
    }
}

/// The share that the fraction encoded by `bits` takes of `total`: their
/// product, rounded to the nearest integer, a half rounded upward. A
/// fraction below zero takes nothing.
pub open spec fn share_of(bits: u64, total: u64) -> nat {
    let product = significand(bits) * total;
    let places = scale(bits);
    if sign_field(bits) == 1 {
        0
    } else if places <= 0 {
        (product * power_of_two((-places) as nat)) as nat
    } else {
        let half = power_of_two((places - 1) as nat);
        ((product + half) / (2 * half as int)) as nat
    }
}

proof fn lemma_power_of_two_positive(k: nat)
    ensures
        power_of_two(k) >= 1,
    decreases k,
{
    if k > 0 {
        lemma_power_of_two_positive((k - 1) as nat);
    }
}

proof fn lemma_power_of_two_grows(i: nat, j: nat)
    requires
        i <= j,
    ensures
        power_of_two(i) <= power_of_two(j),
    decreases j,
{
    if i < j {
        lemma_power_of_two_grows(i, (j - 1) as nat);
    }
}

/// Computes `share_of(bits, total)` as far as it stays within `total`.
pub fn bounded_share(bits: u64, total: u64) -> (share: Option<u64>)
    ensures
        match share {
            Some(q) => q == share_of(bits, total) && q <= total,
            None => share_of(bits, total) > total,
        },
{
    if bits / 0x8000_0000_0000_0000 == 1 {
        return Some(0);
    }
    let exponent: u64 = (bits / 0x10_0000_0000_0000) % 2048;
    let stored: u64 = bits % 0x10_0000_0000_0000;
    let mantissa: u64 = if exponent == 0 {
        stored
    } else {
        stored + 0x10_0000_0000_0000
    };
    assert(0 <= mantissa * total < 0x20_0000_0000_0000 * 0x1_0000_0000_0000_0000) by (
        nonlinear_arith)
        requires
            0 <= mantissa < 0x20_0000_0000_0000,
            0 <= total < 0x1_0000_0000_0000_0000,
    ;
    let product: u128 = (mantissa as u128) * (total as u128);
    assert(product == significand(bits) * total);
    if exponent >= 1075 {
        proof {
            let lift = power_of_two((exponent - 1075) as nat);
            lemma_power_of_two_positive((exponent - 1075) as nat);
            assert(product * lift >= 2 * total) by (nonlinear_arith)
                requires
                    product == mantissa * total,
                    mantissa >= 2,
                    lift >= 1,
            ;
        }
        return if total == 0 {
            Some(0)
        } else {
            None
        };
    }
    let places: u64 = if exponent == 0 {
        1074
    } else {
        1075 - exponent
    };
    let mut half: u128 = 1;
    let mut done: u64 = 0;
    while done < places - 1 && half <= product
        invariant
            1 <= places <= 1074,
            done <= places - 1,
            half == power_of_two(done as nat),
            product < 0x20_0000_0000_0000 * 0x1_0000_0000_0000_0000,
            done > 0 ==> half <= 2 * product,
        decreases places - 1 - done,
    {
        half = half * 2;
        done = done + 1;
    }
    proof {
        let full = power_of_two((places - 1) as nat);
        lemma_power_of_two_grows(done as nat, (places - 1) as nat);
        lemma_power_of_two_positive((places - 1) as nat);
        if half > product {
            assert((product + full) / (2 * full as int) == 0) by (nonlinear_arith)
                requires
                    0 <= product < full,
            ;
        }
    }
    if half > product {
        return Some(0);
    }
    let rounded: u128 = (product + half) / (2 * half);
    assert(rounded <= product) by (nonlinear_arith)
        requires
            rounded == (product + half) / (2 * half as int),
            1 <= half <= product,
    ;
    if rounded > total as u128 {
        None
    } else {
        Some(rounded as u64)
    }
}

} // verus!
