use vstd::prelude::*;
use crate::signature::FunctionSignature;

verus! {

/// Bit pattern of the score `1.0`, the score of two identical strings.
pub const SCORE_ONE: u64 = 0x3FF0_0000_0000_0000;

/// Bit pattern of the similarity of `a` to `b`.
pub uninterp spec fn jaro_winkler_bits(a: Seq<char>, b: Seq<char>) -> u64;

/// Relies on `strsim::jaro_winkler`: its score depends on the two strings
/// alone, and two equal strings score exactly 1.0. The score is handed over
/// as its IEEE-754 bit pattern.
#[verifier::external_body]
fn jaro_winkler_score(a: &str, b: &str) -> (r: u64)
    ensures
        r == jaro_winkler_bits(a@, b@),
        a@ == b@ ==> r == SCORE_ONE,
{
    strsim::jaro_winkler(a, b).to_bits()
}

/// The score of a candidate against a query.
pub open spec fn match_score(function: FunctionSignature, query: FunctionSignature) -> u64 {
    jaro_winkler_bits(function.canonical_spec(), query.canonical_spec())
}

/// Scores a candidate signature against a query: the Jaro-Winkler
/// similarity of the candidate's canonical form to the query's, in that
/// argument order, as the bit pattern of a number in `[0, 1]`.
/// Signatures with the same canonical form score exactly 1.0.
pub fn fuzzy_match(function: &FunctionSignature, query: &FunctionSignature) -> (r: u64)
    ensures
        r == match_score(*function, *query),
        function.canonical_spec() == query.canonical_spec() ==> r == SCORE_ONE,
{
    let func_sig = function.canonical();
    let query_sig = query.canonical();
    jaro_winkler_score(func_sig.as_str(), query_sig.as_str())
}

/// Bits of the largest finite or infinite positive number; any larger
/// magnitude is a NaN.
pub const INFINITY_BITS: u64 = 0x7FF0_0000_0000_0000;

/// The sign bit.
pub const SIGN_BIT: u64 = 0x8000_0000_0000_0000;

/// Whether a bit pattern is a NaN.
pub open spec fn is_nan_bits(bits: u64) -> bool {
    if bits >= SIGN_BIT {
        bits - SIGN_BIT > INFINITY_BITS
    } else {
        bits > INFINITY_BITS
    }
}

/// An unsigned key that orders scores: a larger number has a larger key,
/// `-0.0` sits just below `+0.0`, and every NaN has key 0, below all
/// numbers.
pub open spec fn order_key(bits: u64) -> u64 {
    if is_nan_bits(bits) {
        0
    } else if bits < SIGN_BIT {
        (bits + SIGN_BIT) as u64
    } else {
        (u64::MAX - bits) as u64
    }
}

/// Computes [`order_key`] of a score's bit pattern.
pub fn score_order_key(bits: u64) -> (r: u64)
    ensures
        r == order_key(bits),
{
    let nan = if bits >= SIGN_BIT {
        bits - SIGN_BIT > INFINITY_BITS
    } else {
        bits > INFINITY_BITS
    };
    if nan {
        0
    } else if bits < SIGN_BIT {
        bits + SIGN_BIT
    } else {
        u64::MAX - bits
    }
}

/// Numbers, and only numbers, have a key above 0; among non-negative
/// numbers the key grows with the bit pattern, which grows with the value.
pub proof fn lemma_order_key(a: u64, b: u64)
    ensures
        order_key(a) > 0 <==> !is_nan_bits(a),
        a <= b <= INFINITY_BITS ==> order_key(a) <= order_key(b),
        a < b <= INFINITY_BITS ==> order_key(a) < order_key(b),
        order_key(SCORE_ONE) > order_key(0),
{
}

} // verus!
