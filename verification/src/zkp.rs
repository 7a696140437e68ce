//! The Chaum-Pedersen protocol itself: group parameters, commitment and
//! response on the prover's side, and the verification equations on the
//! verifier's side.

use vstd::prelude::*;
use vstd::arithmetic::power::{pow, lemma_pow1};
use vstd::arithmetic::div_mod::{
    lemma_fundamental_div_mod, lemma_mod_division_less_than_divisor, lemma_mod_multiples_vanish,
    lemma_mul_mod_noop,
};
use vstd::arithmetic::mul::lemma_mul_is_distributive_add;
use num_bigint::RandBigInt;
use rand::Rng;
use crate::bigint::{
    be_bytes_value, eq_biguint, from_bytes_be, from_u64, ge_biguint, mul_biguint, nat_of,
    sub_biguint,
};
use crate::bigint::lemma_be_bytes_value_positive;
use crate::hexcode::{hex_bytes, hex_decode, hex_digit_value, lemma_hex_bytes_total};

verus! {

/// The numeric value written by a string of hexadecimal digits.
pub open spec fn hex_value(s: Seq<char>) -> nat
    recommends
        hex_bytes(s) is Some,
{
    be_bytes_value(hex_bytes(s).unwrap())
}

/// Whether the character is an ASCII letter or digit.
pub open spec fn is_ascii_alphanumeric_char(c: char) -> bool {
    ('0' <= c && c <= '9') || ('A' <= c && c <= 'Z') || ('a' <= c && c <= 'z')
}

/// Public description of the group: a prime modulus `p`, a prime subgroup
/// order `q` dividing `p - 1`, and two generators `alpha`, `beta` of the
/// order-`q` subgroup of the units modulo `p`. No validation is performed
/// here; supplying parameters with these properties is the caller's
/// responsibility.
pub struct ZKP {
    pub p: num_bigint::BigUint,
    pub q: num_bigint::BigUint,
    pub alpha: num_bigint::BigUint,
    pub beta: num_bigint::BigUint,
}

/// The modulus of the standard parameter set: a 1024-bit prime.
pub open spec fn standard_modulus() -> nat {
    hex_value(
        "B10B8F96A080E01DDE92DE5EAE5D54EC52C99FBCFB06A3C69A6A9DCA52D23B616073E28675A23D189838EF1E2EE652C013ECB4AEA906112324975C3CD49B83BFACCBDD7D90C4BD7098488E9C219A73724EFFD6FAE5644738FAA31A4FF55BCCC0A151AF5F0DC8B4BD45BF37DF365C1A65E68CFDA76D4DA708DF1FB2BC2E4A4371"@,
    )
}

/// The order of the standard parameter set's subgroup: a 160-bit prime.
pub open spec fn standard_order() -> nat {
    hex_value("F518AA8781A8DF278ABA4E7D64B7CB9D49462353"@)
}

/// The standard parameter set's generator of the order-`q` subgroup.
pub open spec fn standard_generator() -> nat {
    hex_value(
        "A4D1CBD5C3FD34126765A442EFB99905F8104DD258AC507FD6406CFF14266D31266FEA1E5C41564B777E690F5504F213160217B4B01B886A5E91547F9E2749F4D7FBD7D3B9A92EE1909D0D2263F80A76A6A24C087A091F531DBF0A0169B6A28AD662A4D18E73AFA32D779D5918D08BC8858F4DCEF97C2A24855E6EEB22B3B2E5"@,
    )
}

/// The fixed exponent by which the second generator is derived from the
/// first.
pub open spec fn standard_beta_exponent() -> nat {
    hex_value("266FEA1E5C41564B777E69"@)
}

/// `base^exponent mod modulus`, as a mathematical value.
pub open spec fn modexp(base: nat, exponent: nat, modulus: nat) -> int {
    pow(base as int, exponent) % (modulus as int)
}

/// The prover's response to challenge `c`: `(k - c*x) mod q`, computed in
/// the unbounded integers and reduced into `[0, q)`.
pub open spec fn response(k: nat, c: nat, x: nat, q: nat) -> int {
    (k - c * x) % (q as int)
}

/// The verifier's two conditions: `r1 == alpha^s * y1^c (mod p)` and
/// `r2 == beta^s * y2^c (mod p)`.
pub open spec fn verification_equations(
    alpha: nat,
    beta: nat,
    p: nat,
    r1: nat,
    r2: nat,
    y1: nat,
    y2: nat,
    c: nat,
    s: nat,
) -> bool {
    &&& r1 == (pow(alpha as int, s) * pow(y1 as int, c)) % (p as int)
    &&& r2 == (pow(beta as int, s) * pow(y2 as int, c)) % (p as int)
}

impl ZKP {
    /// The numeric value of the modulus.
    pub open spec fn p_val(&self) -> nat {
        nat_of(self.p)
    }

    /// The numeric value of the subgroup order.
    pub open spec fn q_val(&self) -> nat {
        nat_of(self.q)
    }

    /// The numeric value of the first generator.
    pub open spec fn alpha_val(&self) -> nat {
        nat_of(self.alpha)
    }

    /// The numeric value of the second generator.
    pub open spec fn beta_val(&self) -> nat {
        nat_of(self.beta)
    }

    /// Fast modular exponentiation: `n^exponent mod modulus`.
    ///
    /// Relies on `BigUint::modpow`, which computes exactly that and fails
    /// on a zero modulus, so that case is excluded here.
    #[verifier::external_body]
    pub fn exponentiate(
        n: &num_bigint::BigUint,
        exponent: &num_bigint::BigUint,
        modulus: &num_bigint::BigUint,
    ) -> (r: num_bigint::BigUint)
        requires
            nat_of(*modulus) > 0,
        ensures
            nat_of(r) == modexp(nat_of(*n), nat_of(*exponent), nat_of(*modulus)),
    {
        n.modpow(exponent, modulus)
    }

    /// The prover's response: `s = (k - c*x) mod q`, reduced into `[0, q)`.
    ///
    /// The subtraction is carried out on non-negative integers, so the two
    /// branches below split on whether `k` covers the product `c*x`; both
    /// yield the value of `(k - c*x) mod q` over the unbounded integers.
    pub fn solve(
        &self,
        k: &num_bigint::BigUint,
        c: &num_bigint::BigUint,
        x: &num_bigint::BigUint,
    ) -> (s: num_bigint::BigUint)
        requires
            self.q_val() > 0,
        ensures
            nat_of(s) == response(nat_of(*k), nat_of(*c), nat_of(*x), self.q_val()),
            nat_of(s) < self.q_val(),
    {
        let ghost kv = nat_of(*k) as int;
        let ghost cxv = (nat_of(*c) * nat_of(*x)) as int;
        let ghost qv = self.q_val() as int;
        let one = from_u64(1);
        let cx = mul_biguint(c, x);
        if ge_biguint(k, &cx) {
            let d = sub_biguint(k, &cx);
            let s = Self::exponentiate(&d, &one, &self.q);
            proof {
                lemma_pow1(kv - cxv);
                lemma_mod_division_less_than_divisor(kv - cxv, qv);
            }
            s
        } else {
            let d = sub_biguint(&cx, k);
            let t = Self::exponentiate(&d, &one, &self.q);
            proof {
                lemma_pow1(cxv - kv);
                lemma_mod_division_less_than_divisor(cxv - kv, qv);
            }
            let u = sub_biguint(&self.q, &t);
            let s = Self::exponentiate(&u, &one, &self.q);
            proof {
                lemma_pow1(nat_of(u) as int);
                lemma_fundamental_div_mod(cxv - kv, qv);
                lemma_mul_is_distributive_add(qv, (cxv - kv) / qv, 1);
                // u == q*((cx - k)/q + 1) + (k - cx), so u mod q == (k - cx) mod q
                assert(nat_of(u) as int == qv * ((cxv - kv) / qv + 1) + (kv - cxv));
                lemma_mod_multiples_vanish((cxv - kv) / qv + 1, kv - cxv, qv);
                lemma_mod_division_less_than_divisor(kv - cxv, qv);
            }
            s
        }
    }

    /// The verifier's decision: accepts iff `r1 == alpha^s * y1^c (mod p)`
    /// and `r2 == beta^s * y2^c (mod p)`.
    ///
    /// Returning `false` is the normal outcome for an invalid proof, not an
    /// error.
    pub fn verify(
        &self,
        r1: &num_bigint::BigUint,
        r2: &num_bigint::BigUint,
        y1: &num_bigint::BigUint,
        y2: &num_bigint::BigUint,
        c: &num_bigint::BigUint,
        s: &num_bigint::BigUint,
    ) -> (res: bool)
        requires
            self.p_val() > 0,
        ensures
            res == verification_equations(
                self.alpha_val(),
                self.beta_val(),
                self.p_val(),
                nat_of(*r1),
                nat_of(*r2),
                nat_of(*y1),
                nat_of(*y2),
                nat_of(*c),
                nat_of(*s),
            ),
    {
        let ghost pv = self.p_val() as int;
        let one = from_u64(1);
        let alpha_s = Self::exponentiate(&self.alpha, s, &self.p);
        let y1_c = Self::exponentiate(y1, c, &self.p);
        let prod1 = mul_biguint(&alpha_s, &y1_c);
        let lhs1 = Self::exponentiate(&prod1, &one, &self.p);
        let cond1 = eq_biguint(r1, &lhs1);
        proof {
            lemma_pow1(nat_of(prod1) as int);
            lemma_mul_mod_noop(
                pow(self.alpha_val() as int, nat_of(*s)),
                pow(nat_of(*y1) as int, nat_of(*c)),
                pv,
            );
        }
        let beta_s = Self::exponentiate(&self.beta, s, &self.p);
        let y2_c = Self::exponentiate(y2, c, &self.p);
        let prod2 = mul_biguint(&beta_s, &y2_c);
        let lhs2 = Self::exponentiate(&prod2, &one, &self.p);
        let cond2 = eq_biguint(r2, &lhs2);
        proof {
            lemma_pow1(nat_of(prod2) as int);
            lemma_mul_mod_noop(
                pow(self.beta_val() as int, nat_of(*s)),
                pow(nat_of(*y2) as int, nat_of(*c)),
                pv,
            );
        }
        cond1 && cond2
    }

    /// The standard parameter set: a 1024-bit modulus `p` with a 160-bit
    /// prime subgroup order `q`, a generator `alpha` of that subgroup, and
    /// a second generator `beta` derived from `alpha` by a fixed exponent,
    /// which keeps it in the subgroup. Returned as `(alpha, beta, p, q)`.
    pub fn get_constants() -> (r: (
        num_bigint::BigUint,
        num_bigint::BigUint,
        num_bigint::BigUint,
        num_bigint::BigUint,
    ))
        ensures
            nat_of(r.0) == standard_generator(),
            nat_of(r.1) == modexp(
                standard_generator(),
                standard_beta_exponent(),
                standard_modulus(),
            ),
            nat_of(r.2) == standard_modulus(),
            nat_of(r.3) == standard_order(),
    {
        let p_str =
            "B10B8F96A080E01DDE92DE5EAE5D54EC52C99FBCFB06A3C69A6A9DCA52D23B616073E28675A23D189838EF1E2EE652C013ECB4AEA906112324975C3CD49B83BFACCBDD7D90C4BD7098488E9C219A73724EFFD6FAE5644738FAA31A4FF55BCCC0A151AF5F0DC8B4BD45BF37DF365C1A65E68CFDA76D4DA708DF1FB2BC2E4A4371";
        let q_str = "F518AA8781A8DF278ABA4E7D64B7CB9D49462353";
        let alpha_str =
            "A4D1CBD5C3FD34126765A442EFB99905F8104DD258AC507FD6406CFF14266D31266FEA1E5C41564B777E690F5504F213160217B4B01B886A5E91547F9E2749F4D7FBD7D3B9A92EE1909D0D2263F80A76A6A24C087A091F531DBF0A0169B6A28AD662A4D18E73AFA32D779D5918D08BC8858F4DCEF97C2A24855E6EEB22B3B2E5";
        let exp_str = "266FEA1E5C41564B777E69";
        proof {
            reveal_strlit(
                "B10B8F96A080E01DDE92DE5EAE5D54EC52C99FBCFB06A3C69A6A9DCA52D23B616073E28675A23D189838EF1E2EE652C013ECB4AEA906112324975C3CD49B83BFACCBDD7D90C4BD7098488E9C219A73724EFFD6FAE5644738FAA31A4FF55BCCC0A151AF5F0DC8B4BD45BF37DF365C1A65E68CFDA76D4DA708DF1FB2BC2E4A4371",
            );
            reveal_strlit("F518AA8781A8DF278ABA4E7D64B7CB9D49462353");
            reveal_strlit(
                "A4D1CBD5C3FD34126765A442EFB99905F8104DD258AC507FD6406CFF14266D31266FEA1E5C41564B777E690F5504F213160217B4B01B886A5E91547F9E2749F4D7FBD7D3B9A92EE1909D0D2263F80A76A6A24C087A091F531DBF0A0169B6A28AD662A4D18E73AFA32D779D5918D08BC8858F4DCEF97C2A24855E6EEB22B3B2E5",
            );
            reveal_strlit("266FEA1E5C41564B777E69");
            assert(forall|i: int|
                0 <= i < p_str@.len() ==> hex_digit_value(#[trigger] p_str@[i]) is Some);
            lemma_hex_bytes_total(p_str@);
            assert(forall|i: int|
                0 <= i < q_str@.len() ==> hex_digit_value(#[trigger] q_str@[i]) is Some);
            lemma_hex_bytes_total(q_str@);
            assert(forall|i: int|
                0 <= i < alpha_str@.len() ==> hex_digit_value(#[trigger] alpha_str@[i]) is Some);
            lemma_hex_bytes_total(alpha_str@);
            assert(forall|i: int|
                0 <= i < exp_str@.len() ==> hex_digit_value(#[trigger] exp_str@[i]) is Some);
            lemma_hex_bytes_total(exp_str@);
        }
        let p_bytes = hex_decode(p_str).unwrap();
        let p = from_bytes_be(&p_bytes);
        let q_bytes = hex_decode(q_str).unwrap();
        let q = from_bytes_be(&q_bytes);
        let alpha_bytes = hex_decode(alpha_str).unwrap();
        let alpha = from_bytes_be(&alpha_bytes);
        let exp_bytes = hex_decode(exp_str).unwrap();
        let exp = from_bytes_be(&exp_bytes);
        proof {
            // the modulus begins with the digits "B1", so its first byte,
            // and with it the whole value, is positive
            assert(p_bytes@[0] == 177);
            lemma_be_bytes_value_positive(p_bytes@);
        }
        let beta = Self::exponentiate(&alpha, &exp, &p);
        (alpha, beta, p, q)
    }

    /// A random alphanumeric string of the given length.
    ///
    /// Relies on sampling `rand::distributions::Alphanumeric` over the
    /// thread-local generator: every outcome is an ASCII letter or digit,
    /// one character per draw.
    #[verifier::external_body]
    pub fn generate_random_string(size: usize) -> (r: String)
        ensures
            r@.len() == size as int,
            forall|i: int| 0 <= i < r@.len() ==> is_ascii_alphanumeric_char(#[trigger] r@[i]),
    {
        rand::thread_rng()
            .sample_iter(rand::distributions::Alphanumeric)
            .take(size)
            .map(char::from)
            .collect()
    }

    /// A uniformly random value in `[0, bound)`.
    ///
    /// Relies on `RandBigInt::gen_biguint_below` over the thread-local
    /// generator: every outcome is below the bound; the library fails on a
    /// zero bound, so that case is excluded here.
    #[verifier::external_body]
    pub fn generate_random_number_below(bound: &num_bigint::BigUint) -> (r: num_bigint::BigUint)
        requires
            nat_of(*bound) > 0,
        ensures
            nat_of(r) < nat_of(*bound),
    {
        let mut rng = rand::thread_rng();
        rng.gen_biguint_below(bound)
    }
}

} // verus!
