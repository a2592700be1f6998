//! The mathematical model of one protocol round: the challenged products, the
//! two encodings of an honest commitment, the Verifier's acceptance equation,
//! and the completeness theorem that ties them together.

use vstd::prelude::*;
use vstd::arithmetic::div_mod::lemma_mul_mod_noop_left;
use vstd::arithmetic::div_mod::lemma_mul_mod_noop_right;
use vstd::arithmetic::div_mod::lemma_mul_mod_noop_general;

verus! {

/// Product of `vals[j]` over the positions `j < i` whose challenge bit is 1.
pub open spec fn selected_product(vals: Seq<nat>, bits: Seq<u32>, i: int) -> nat
    decreases i,
{
    if i <= 0 {
        1
    } else {
        selected_product(vals, bits, i - 1) * (if bits[i - 1] == 1 {
            vals[i - 1]
        } else {
            1nat
        })
    }
}

/// The two encodings of an honest commitment: x is the square of the witness
/// reduced modulo n, or that square's complement to n, by the Prover's secret
/// sign choice.
pub open spec fn commitment_branches(n: nat, r: nat, x: nat) -> bool {
    let sq = (r * r) % n;
    x == sq || x == n - sq
}

/// The Verifier's acceptance equation: y² is congruent modulo n to z·x or to
/// z·(n − x), where z is the product of the public keys the challenge selects.
/// Both branches must be admitted, since the Verifier cannot know which sign
/// the Prover chose.
pub open spec fn round_accepted(n: nat, keys: Seq<nat>, challenge: Seq<u32>, x: nat, y: nat) -> bool {
    let z = selected_product(keys, challenge, challenge.len() as int) as int;
    let nn = n as int;
    ||| (y * y) % n == (z * (x as int)) % nn
    ||| (y * y) % n == (z * (nn - x)) % nn
}

/// The product of the selected public keys is congruent modulo n to the square
/// of the product of the selected secrets, because each public key is the
/// square of its secret reduced modulo n.
pub proof fn lemma_selected_product_of_squares(
    secrets: Seq<nat>,
    keys: Seq<nat>,
    bits: Seq<u32>,
    n: nat,
    i: int,
)
    requires
        n >= 1,
        0 <= i <= secrets.len(),
        keys.len() == secrets.len(),
        forall|j: int| 0 <= j < i ==> keys[j] == (secrets[j] * secrets[j]) % n,
    ensures
        selected_product(keys, bits, i) % n == (selected_product(secrets, bits, i)
            * selected_product(secrets, bits, i)) % n,
    decreases i,
{
    if i <= 0 {
        assert(selected_product(keys, bits, i) == 1);
        assert(selected_product(secrets, bits, i) == 1);
    } else {
        lemma_selected_product_of_squares(secrets, keys, bits, n, i - 1);
        let pv = selected_product(keys, bits, i - 1);
        let ps = selected_product(secrets, bits, i - 1);
        if bits[i - 1] == 1 {
            let s = secrets[i - 1];
            assert(selected_product(keys, bits, i) == pv * ((s * s) % n));
            assert(selected_product(secrets, bits, i) == ps * s);
            lemma_mul_mod_noop_right(pv as int, (s * s) as int, n as int);
            assert((pv * ((s * s) % n)) % n == (pv * (s * s)) % n);
            lemma_mul_mod_noop_left(pv as int, (s * s) as int, n as int);
            assert(((pv % n) * (s * s)) % n == (pv * (s * s)) % n);
            lemma_mul_mod_noop_left((ps * ps) as int, (s * s) as int, n as int);
            assert((((ps * ps) % n) * (s * s)) % n == ((ps * ps) * (s * s)) % n);
            assert((ps * ps) * (s * s) == (ps * s) * (ps * s)) by (nonlinear_arith);
        } else {
            assert(selected_product(keys, bits, i) == pv * 1nat);
            assert(selected_product(secrets, bits, i) == ps * 1nat);
            assert(pv * 1nat == pv);
            assert(ps * 1nat == ps);
        }
    }
}

/// Completeness of the protocol: for any key material whose public keys are the
/// squares of the secrets modulo n, any challenge, and an honest commitment of
/// either sign that falls strictly between 0 and n, the honest response makes
/// the Verifier's double-branch acceptance equation true.
pub proof fn lemma_honest_round_accepted(
    n: nat,
    secrets: Seq<nat>,
    keys: Seq<nat>,
    challenge: Seq<u32>,
    r: nat,
    x: nat,
    y: nat,
)
    requires
        n >= 2,
        keys.len() == secrets.len(),
        challenge.len() == secrets.len(),
        forall|j: int| 0 <= j < secrets.len() ==> keys[j] == (secrets[j] * secrets[j]) % n,
        commitment_branches(n, r, x),
        0 < x < n,
        y == (r * selected_product(secrets, challenge, challenge.len() as int)) % n,
    ensures
        round_accepted(n, keys, challenge, x, y),
{
    let len = challenge.len() as int;
    let p = selected_product(secrets, challenge, len);
    let z = selected_product(keys, challenge, len);
    lemma_selected_product_of_squares(secrets, keys, challenge, n, len);

    // y² mod n is (r·p)² mod n, that is (r·r)·(p·p) mod n.
    lemma_mul_mod_noop_general((r * p) as int, (r * p) as int, n as int);
    assert((r * p) * (r * p) == (r * r) * (p * p)) by (nonlinear_arith);
    assert((y * y) % n == ((r * r) * (p * p)) % n);

    // Whichever sign the Prover chose, the matched branch multiplies z by
    // (r·r) mod n, and that too is (r·r)·(p·p) mod n.
    lemma_mul_mod_noop_right(z as int, (r * r) as int, n as int);
    lemma_mul_mod_noop_left(z as int, (r * r) as int, n as int);
    lemma_mul_mod_noop_left((p * p) as int, (r * r) as int, n as int);
    assert((p * p) * (r * r) == (r * r) * (p * p)) by (nonlinear_arith);
    assert((z * (((r * r) % n) as int)) % (n as int) == ((r * r) * (p * p)) % n);

    if x == (r * r) % n {
        assert((z * (x as int)) % (n as int) == ((r * r) * (p * p)) % n);
    } else {
        assert((n as int) - (x as int) == ((r * r) % n) as int);
        assert((z * ((n as int) - (x as int))) % (n as int) == ((r * r) * (p * p)) % n);
    }
}

} // verus!
