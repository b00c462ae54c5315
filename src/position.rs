//! Positions of gradient stops.
//!
//! A position is a binary64 floating-point number, carried as its IEEE 754 bit
//! pattern (`f64::to_bits`). `position_key` maps such a pattern to an unsigned
//! key whose order is the numeric order of the numbers: for two non-NaN values
//! `x` and `y`, `x < y` exactly when `position_key(x.to_bits()) <
//! position_key(y.to_bits())`, and `x == y` exactly when the keys are equal
//! (so `-0.0` and `0.0` share a key). NaN patterns order beyond the
//! infinities, on the side of their sign bit.
use vstd::prelude::*;

verus! {

/// The sign bit of a binary64 pattern; alone it is the pattern of `-0.0`.
pub const SIGN_BIT: u64 = 0x8000_0000_0000_0000;

/// The order key of the position whose bit pattern is `bits`.
pub open spec fn key_of(bits: u64) -> u64 {
    if bits == SIGN_BIT {
        SIGN_BIT
    } else if bits > SIGN_BIT {
        (u64::MAX - bits) as u64
    } else {
        (bits + SIGN_BIT) as u64
    }
}

/// Computes the order key of a position given as its bit pattern.
pub fn position_key(bits: u64) -> (r: u64)
    ensures
        r == key_of(bits),
{
    if bits == SIGN_BIT {
        SIGN_BIT
    } else if bits > SIGN_BIT {
        u64::MAX - bits
    } else {
        bits + SIGN_BIT
    }
}

/// Keys follow the sign-magnitude order of binary64 patterns: among patterns
/// with the sign bit clear a larger pattern has a larger key; among patterns
/// with the sign bit set (`-0.0` aside) a larger magnitude has a smaller key;
/// every such negative pattern has a smaller key than every pattern with the
/// sign bit clear; and `-0.0` has the key of `0.0`.
pub proof fn lemma_key_order(a: u64, b: u64)
    ensures
        a < SIGN_BIT && b < SIGN_BIT ==> (key_of(a) < key_of(b) <==> a < b),
        a > SIGN_BIT && b > SIGN_BIT ==> (key_of(a) < key_of(b) <==> a > b),
        a > SIGN_BIT && b < SIGN_BIT ==> key_of(a) < key_of(b),
        key_of(SIGN_BIT) == key_of(0),
        key_of(a) == key_of(b) <==> (a == b || (a == SIGN_BIT && b == 0) || (a == 0 && b == SIGN_BIT)),
{
}

} // verus!
