//! The protocol's laws: an honest prover's transcript always satisfies the
//! verification equations, and a response computed from a wrong witness is
//! rejected whenever the two witnesses disagree modulo the group order.

use vstd::prelude::*;
use vstd::arithmetic::power::{
    lemma1_pow, lemma_pow_adds, lemma_pow_mod_noop, lemma_pow_multiplies, pow,
};
use vstd::arithmetic::div_mod::{
    lemma_add_mod_noop_right, lemma_fundamental_div_mod, lemma_mod_division_less_than_divisor,
    lemma_mod_equivalence, lemma_mod_twice, lemma_mul_mod_noop, lemma_small_mod,
};
use vstd::arithmetic::mul::{lemma_mul_is_commutative, lemma_mul_nonnegative};
use crate::zkp::{modexp, response, verification_equations};

verus! {

/// `a` raised to the group order `q` is the unit modulo `p`: what it means
/// for `a` to lie in the order-`q` subgroup.
pub open spec fn qth_power_is_one(a: nat, q: nat, p: nat) -> bool {
    pow(a as int, q) % (p as int) == 1
}

/// The first `q` powers of `a` modulo `p` are pairwise distinct: what it
/// means for `a` to generate a subgroup of order exactly `q`.
pub open spec fn powers_distinct_below(a: nat, q: nat, p: nat) -> bool {
    forall|i: nat, j: nat|
        i < q && j < q && #[trigger] (pow(a as int, i) % (p as int)) == #[trigger] (pow(
            a as int,
            j,
        ) % (p as int)) ==> i == j
}

/// Determinism of `exponentiate`: its contract pins the result by the
/// numeric values of the arguments alone, so two results obtained from
/// identical inputs are identical.
pub proof fn lemma_exponentiate_deterministic(
    first: int,
    second: int,
    base: nat,
    exponent: nat,
    modulus: nat,
)
    requires
        first == modexp(base, exponent, modulus),
        second == modexp(base, exponent, modulus),
    ensures
        first == second,
{
}

/// Determinism of `verify`: its contract pins the decision by the numeric
/// values of the arguments alone, so two decisions obtained from identical
/// inputs are identical.
pub proof fn lemma_verify_deterministic(
    first: bool,
    second: bool,
    alpha: nat,
    beta: nat,
    p: nat,
    r1: nat,
    r2: nat,
    y1: nat,
    y2: nat,
    c: nat,
    s: nat,
)
    requires
        first == verification_equations(alpha, beta, p, r1, r2, y1, y2, c, s),
        second == verification_equations(alpha, beta, p, r1, r2, y1, y2, c, s),
    ensures
        first == second,
{
}

/// When `a^q == 1 (mod p)`, exponents of `a` count modulo `q`.
proof fn lemma_pow_mod_order(a: nat, e: nat, q: nat, p: nat)
    requires
        p > 1,
        q > 0,
        qth_power_is_one(a, q, p),
    ensures
        pow(a as int, e) % (p as int) == pow(a as int, e % q) % (p as int),
{
    let ai = a as int;
    let pi = p as int;
    let j: nat = e / q;
    let r: nat = e % q;
    lemma_fundamental_div_mod(e as int, q as int);
    lemma_mul_nonnegative(q as int, j as int);
    assert(e == q * j + r);
    lemma_pow_adds(ai, q * j, r);
    lemma_pow_multiplies(ai, q, j);
    lemma_pow_mod_noop(pow(ai, q), j, pi);
    lemma1_pow(j);
    lemma_small_mod(1, p);
    assert(pow(ai, q * j) % pi == 1) by {
        assert(pow(pow(ai, q) % pi, j) == pow(1, j));
    }
    lemma_mul_mod_noop(pow(ai, q * j), pow(ai, r), pi);
    lemma_mod_twice(pow(ai, r), pi);
}

/// The honest prover's transcript over a single generator `a` satisfies the
/// verifier's equation: with `y = a^x mod p`, `r = a^k mod p` and
/// `s = (k - c*x) mod q`, `a^s * y^c == r (mod p)`.
proof fn lemma_honest_equation(p: nat, q: nat, a: nat, x: nat, k: nat, c: nat)
    requires
        p > 1,
        q > 0,
        qth_power_is_one(a, q, p),
    ensures
        ({
            let y = modexp(a, x, p);
            let r = modexp(a, k, p);
            let s = response(k, c, x, q) as nat;
            (pow(a as int, s) * pow(y, c)) % (p as int) == r
        }),
{
    let ai = a as int;
    let pi = p as int;
    let qi = q as int;
    let y = modexp(a, x, p);
    lemma_mod_division_less_than_divisor(k - c * x, qi);
    let s = response(k, c, x, q) as nat;
    // y^c and (a^x)^c agree modulo p, and (a^x)^c == a^(x*c)
    lemma_pow_mod_noop(pow(ai, x), c, pi);
    lemma_pow_multiplies(ai, x, c);
    // a^s * y^c == a^s * a^(x*c) == a^(s + x*c) modulo p
    lemma_mul_mod_noop(pow(ai, s), pow(y, c), pi);
    lemma_mul_mod_noop(pow(ai, s), pow(ai, x * c), pi);
    lemma_pow_adds(ai, s, x * c);
    // s + x*c == k modulo q, so the exponents agree modulo the order
    lemma_mul_is_commutative(x as int, c as int);
    lemma_add_mod_noop_right((x * c) as int, k - c * x, qi);
    lemma_pow_mod_order(a, s + x * c, q, p);
    lemma_pow_mod_order(a, k, q, p);
    assert((s + x * c) % q == k % q);
}

/// Completeness: over any group where both generators raised to `q` give
/// the unit modulo `p`, the honest prover always convinces the verifier.
/// With `y1 = alpha^x mod p`, `y2 = beta^x mod p`, `r1 = alpha^k mod p`,
/// `r2 = beta^k mod p` and `s = (k - c*x) mod q`, both verification
/// equations hold, for every witness `x`, nonce `k` and challenge `c`.
pub proof fn lemma_completeness(p: nat, q: nat, alpha: nat, beta: nat, x: nat, k: nat, c: nat)
    requires
        p > 1,
        q > 0,
        qth_power_is_one(alpha, q, p),
        qth_power_is_one(beta, q, p),
    ensures
        verification_equations(
            alpha,
            beta,
            p,
            modexp(alpha, k, p) as nat,
            modexp(beta, k, p) as nat,
            modexp(alpha, x, p) as nat,
            modexp(beta, x, p) as nat,
            c,
            response(k, c, x, q) as nat,
        ),
{
    lemma_mod_division_less_than_divisor(pow(alpha as int, k), p as int);
    lemma_mod_division_less_than_divisor(pow(beta as int, k), p as int);
    lemma_mod_division_less_than_divisor(pow(alpha as int, x), p as int);
    lemma_mod_division_less_than_divisor(pow(beta as int, x), p as int);
    lemma_honest_equation(p, q, alpha, x, k, c);
    lemma_honest_equation(p, q, beta, x, k, c);
}

/// Soundness under a wrong witness: when `alpha` generates a subgroup of
/// order exactly `q` and the products `c*x` and `c*x2` differ modulo `q` —
/// for a prime `q`, every `x2` not congruent to `x` together with a nonzero
/// challenge — the response computed from `x2` fails the first verification
/// equation, so the verifier rejects the transcript.
pub proof fn lemma_soundness(p: nat, q: nat, alpha: nat, beta: nat, x: nat, x2: nat, k: nat, c: nat)
    requires
        p > 1,
        q > 0,
        qth_power_is_one(alpha, q, p),
        powers_distinct_below(alpha, q, p),
        (c * x) % q != (c * x2) % q,
    ensures
        !verification_equations(
            alpha,
            beta,
            p,
            modexp(alpha, k, p) as nat,
            modexp(beta, k, p) as nat,
            modexp(alpha, x, p) as nat,
            modexp(beta, x, p) as nat,
            c,
            response(k, c, x2, q) as nat,
        ),
{
    let ai = alpha as int;
    let pi = p as int;
    let qi = q as int;
    lemma_mod_division_less_than_divisor(k - c * x2, qi);
    let s2 = response(k, c, x2, q) as nat;
    let y1 = modexp(alpha, x, p);
    let r1 = modexp(alpha, k, p);
    lemma_mod_division_less_than_divisor(pow(ai, k), pi);
    lemma_mod_division_less_than_divisor(pow(ai, x), pi);
    if (pow(ai, s2) * pow(y1, c)) % pi == r1 {
        // as in the honest case, the left side is a^(s2 + x*c) modulo p
        lemma_pow_mod_noop(pow(ai, x), c, pi);
        lemma_pow_multiplies(ai, x, c);
        lemma_mul_mod_noop(pow(ai, s2), pow(y1, c), pi);
        lemma_mul_mod_noop(pow(ai, s2), pow(ai, x * c), pi);
        lemma_pow_adds(ai, s2, x * c);
        // reduce both exponents below the order
        lemma_pow_mod_order(alpha, s2 + x * c, q, p);
        lemma_pow_mod_order(alpha, k, q, p);
        let e1 = (s2 + x * c) % q;
        let e2 = k % q;
        lemma_mod_division_less_than_divisor((s2 + x * c) as int, qi);
        lemma_mod_division_less_than_divisor(k as int, qi);
        // distinct powers force the reduced exponents to agree
        assert(e1 == e2);
        // but they differ by (c*x - c*x2) modulo q, which is not zero
        lemma_mul_is_commutative(x as int, c as int);
        lemma_add_mod_noop_right((x * c) as int, k - c * x2, qi);
        lemma_mod_equivalence(k + c * x - c * x2, k as int, qi);
        lemma_mod_equivalence((c * x) as int, (c * x2) as int, qi);
        assert(false);
    }
}

} // verus!
