//! Chaum-Pedersen zero-knowledge proof: a sigma protocol by which a prover
//! shows knowledge of a secret exponent `x` with `y1 = alpha^x mod p` and
//! `y2 = beta^x mod p`, without revealing `x`.
//!
//! Big-integer arithmetic comes from `num_bigint`; every operation the
//! protocol relies on is wrapped with a contract over the numeric value of
//! the big integer, and the protocol logic itself is verified against those
//! contracts.

pub mod bigint;
pub mod hexcode;
pub mod laws;
pub mod zkp;
