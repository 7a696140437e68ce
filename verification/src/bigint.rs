//! Arbitrary-precision unsigned integers, as the protocol sees them.
//!
//! `num_bigint::BigUint` is opaque to the verifier; `nat_of` names the
//! natural number a `BigUint` holds, and each arithmetic primitive the
//! protocol uses is a trusted wrapper whose contract is stated over
//! `nat_of`. The protocol logic itself is verified against these contracts.

use vstd::prelude::*;

verus! {

#[verifier::external_type_specification]
#[verifier::external_body]
pub struct ExBigUint(num_bigint::BigUint);

/// The natural number held by a `BigUint`.
pub uninterp spec fn nat_of(b: num_bigint::BigUint) -> nat;

/// The natural number written by a big-endian byte string:
/// the first byte is the most significant.
pub open spec fn be_bytes_value(s: Seq<u8>) -> nat
    decreases s.len(),
{
    if s.len() == 0 {
        0
    } else {
        (be_bytes_value(s.drop_last()) * 256 + s.last()) as nat
    }
}

/// Relies on `<BigUint as From<u64>>::from`: the result holds exactly the
/// given value.
#[verifier::external_body]
pub(crate) fn from_u64(n: u64) -> (r: num_bigint::BigUint)
    ensures
        nat_of(r) == n as nat,
{
    num_bigint::BigUint::from(n)
}

/// A big-endian byte string whose first byte is nonzero writes a positive
/// value.
pub proof fn lemma_be_bytes_value_positive(s: Seq<u8>)
    requires
        s.len() > 0,
        s[0] > 0,
    ensures
        be_bytes_value(s) > 0,
    decreases s.len(),
{
    if s.len() == 1 {
        assert(be_bytes_value(s.drop_last()) == 0);
        assert(s.last() == s[0]);
    } else {
        lemma_be_bytes_value_positive(s.drop_last());
    }
}

/// Relies on `<&BigUint as Mul>::mul`: exact product, never overflows.
#[verifier::external_body]
pub(crate) fn mul_biguint(a: &num_bigint::BigUint, b: &num_bigint::BigUint) -> (r: num_bigint::BigUint)
    ensures
        nat_of(r) == nat_of(*a) * nat_of(*b),
{
    a * b
}

/// Relies on `<&BigUint as Sub>::sub`: exact difference. The subtrahend may
/// not exceed the minuend (the library fails on underflow), so that case is
/// excluded here.
#[verifier::external_body]
pub(crate) fn sub_biguint(a: &num_bigint::BigUint, b: &num_bigint::BigUint) -> (r: num_bigint::BigUint)
    requires
        nat_of(*b) <= nat_of(*a),
    ensures
        nat_of(r) == nat_of(*a) - nat_of(*b),
{
    a - b
}

/// Relies on `<BigUint as PartialOrd>::ge`: comparison by numeric value.
#[verifier::external_body]
pub(crate) fn ge_biguint(a: &num_bigint::BigUint, b: &num_bigint::BigUint) -> (r: bool)
    ensures
        r == (nat_of(*a) >= nat_of(*b)),
{
    a >= b
}

/// Relies on `<BigUint as PartialEq>::eq`: the representation is canonical,
/// so equality is equality of the numeric values.
#[verifier::external_body]
pub(crate) fn eq_biguint(a: &num_bigint::BigUint, b: &num_bigint::BigUint) -> (r: bool)
    ensures
        r == (nat_of(*a) == nat_of(*b)),
{
    a == b
}

/// Relies on `BigUint::from_bytes_be`: the bytes are read in big-endian
/// byte order.
#[verifier::external_body]
pub(crate) fn from_bytes_be(bytes: &Vec<u8>) -> (r: num_bigint::BigUint)
    ensures
        nat_of(r) == be_bytes_value(bytes@),
{
    num_bigint::BigUint::from_bytes_be(bytes)
}

} // verus!
