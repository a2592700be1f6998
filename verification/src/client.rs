//! The Prover: holds the secrets, derives the public key material, and produces
//! the commitment and the response of each round.

use vstd::prelude::*;
use vstd::arithmetic::div_mod::lemma_mod_division_less_than_divisor;
use vstd::arithmetic::div_mod::lemma_mul_mod_noop_left;
use vstd::arithmetic::power::lemma_square_is_pow2;
use crate::bignum::big_val;
use crate::bignum::big_bits;
use crate::bignum::big_vals;
use crate::bignum::big_from_u64;
use crate::bignum::big_clone;
use crate::bignum::big_mul;
use crate::bignum::big_mod;
use crate::bignum::big_sub;
use crate::bignum::big_modpow;
use crate::bignum::big_random_bits;
use crate::bignum::big_lt;
use crate::bignum::rand_bit01;
use crate::modmath::selected_product;
use crate::modmath::commitment_branches;

verus! {

/// How many times a commitment witness above the modulus is redrawn before the
/// last draw is reduced modulo the modulus instead. Each draw has as many bits
/// as the modulus, so it falls below the modulus with probability at least one
/// half, and the biased fallback is reached with probability at most 2^-128.
pub const WITNESS_RESAMPLE_TRIES: usize = 128;

/// The secret-holding party. Its public keys are the squares of its secrets
/// reduced modulo the composite modulus.
pub struct Client {
    pub modulus: num_bigint::BigUint,
    secrets: Vec<num_bigint::BigUint>,
    pub public_keys: Vec<num_bigint::BigUint>,
}

impl Client {
    /// The modulus as a mathematical value.
    pub closed spec fn modulus_val(&self) -> nat {
        big_val(self.modulus)
    }

    /// The secrets as mathematical values.
    pub closed spec fn secret_vals(&self) -> Seq<nat> {
        big_vals(self.secrets@)
    }

    /// The public keys as mathematical values.
    pub closed spec fn key_vals(&self) -> Seq<nat> {
        big_vals(self.public_keys@)
    }

    /// Well-formed key material: the modulus is at least 2, and there is one
    /// public key per secret, each the square of its secret modulo the modulus.
    pub open spec fn wf(&self) -> bool {
        &&& self.modulus_val() >= 2
        &&& self.key_vals().len() == self.secret_vals().len()
        &&& forall|j: int|
            0 <= j < self.secret_vals().len() ==> self.key_vals()[j] == (self.secret_vals()[j]
                * self.secret_vals()[j]) % self.modulus_val()
    }

    /// Derives the key material: the modulus n = p1·p2, and one public key
    /// v = s² mod n per secret. The secrets themselves are stored unchanged and
    /// never leave the Prover.
    pub fn initialize(
        p1: num_bigint::BigUint,
        p2: num_bigint::BigUint,
        secrets: Vec<num_bigint::BigUint>,
    ) -> (c: Client)
        requires
            big_val(p1) >= 2,
            big_val(p2) >= 2,
        ensures
            c.wf(),
            c.modulus_val() == big_val(p1) * big_val(p2),
            c.secret_vals() == big_vals(secrets@),
    {
        let modulus = big_mul(&p1, &p2);
        proof {
            assert(big_val(p1) * big_val(p2) >= 4) by (nonlinear_arith)
                requires
                    big_val(p1) >= 2,
                    big_val(p2) >= 2,
            ;
        }
        let two = big_from_u64(2);
        let mut public_keys: Vec<num_bigint::BigUint> = Vec::new();
        let mut i: usize = 0;
        while i < secrets.len()
            invariant
                i <= secrets.len(),
                public_keys@.len() == i,
                big_val(modulus) >= 2,
                big_val(two) == 2,
                forall|j: int|
                    0 <= j < i ==> big_val(#[trigger] public_keys@[j]) == (big_val(secrets@[j])
                        * big_val(secrets@[j])) % big_val(modulus),
            decreases secrets.len() - i,
        {
            let v = big_modpow(&secrets[i], &two, &modulus);
            proof {
                lemma_square_is_pow2(big_val(secrets@[i as int]) as int);
            }
            public_keys.push(v);
            i += 1;
        }
        let c = Client { modulus, secrets, public_keys };
        proof {
            assert forall|j: int| 0 <= j < c.secret_vals().len() implies c.key_vals()[j] == (
            c.secret_vals()[j] * c.secret_vals()[j]) % c.modulus_val() by {
                assert(c.key_vals()[j] == big_val(c.public_keys@[j]));
                assert(c.secret_vals()[j] == big_val(c.secrets@[j]));
            }
            assert(c.secret_vals() =~= big_vals(secrets@));
        }
        c
    }

    /// A copy of the modulus, made to hand the public material to a Verifier.
    pub fn export_modulus(&self) -> (m: num_bigint::BigUint)
        ensures
            big_val(m) == self.modulus_val(),
    {
        big_clone(&self.modulus)
    }

    /// A copy of the public key vector, made to hand the public material to a
    /// Verifier. The secrets are not exported by anything.
    pub fn export_public_keys(&self) -> (keys: Vec<num_bigint::BigUint>)
        ensures
            big_vals(keys@) == self.key_vals(),
    {
        let mut keys: Vec<num_bigint::BigUint> = Vec::new();
        let mut i: usize = 0;
        while i < self.public_keys.len()
            invariant
                i <= self.public_keys@.len(),
                keys@.len() == i,
                forall|j: int|
                    0 <= j < i ==> big_val(#[trigger] keys@[j]) == big_val(self.public_keys@[j]),
            decreases self.public_keys@.len() - i,
        {
            keys.push(big_clone(&self.public_keys[i]));
            i += 1;
        }
        proof {
            assert(big_vals(keys@) =~= big_vals(self.public_keys@));
        }
        keys
    }

    /// One fresh commitment: a random witness r in [0, n) and the commitment x,
    /// which by a random sign choice is r² mod n or n − (r² mod n). The witness
    /// is drawn by rejection sampling from a range as large as the modulus —
    /// draws of as many bits as the modulus, redrawn while they are not below
    /// it, up to `WITNESS_RESAMPLE_TRIES` times; the negligible-probability
    /// residue after the last try is reduced modulo n instead. The witness is
    /// returned to the Prover's caller so that the later response can use it;
    /// it is never shown to the Verifier.
    pub fn generate_commitment(&self) -> (rx: (num_bigint::BigUint, num_bigint::BigUint))
        requires
            self.wf(),
        ensures
            commitment_branches(self.modulus_val(), big_val(rx.0), big_val(rx.1)),
            big_val(rx.1) <= self.modulus_val(),
            big_val(rx.0) < self.modulus_val(),
    {
        let modulus_bits = big_bits(&self.modulus);
        let mut draw = big_random_bits(modulus_bits);
        let mut tries: usize = 0;
        while tries < WITNESS_RESAMPLE_TRIES
            invariant
                tries <= WITNESS_RESAMPLE_TRIES,
            decreases WITNESS_RESAMPLE_TRIES - tries,
        {
            if big_lt(&draw, &self.modulus) {
                break ;
            }
            draw = big_random_bits(modulus_bits);
            tries += 1;
        }
        let random_val = if big_lt(&draw, &self.modulus) {
            draw
        } else {
            proof {
                lemma_mod_division_less_than_divisor(
                    big_val(draw) as int,
                    self.modulus_val() as int,
                );
            }
            big_mod(&draw, &self.modulus)
        };
        let two = big_from_u64(2);
        let squared = big_modpow(&random_val, &two, &self.modulus);
        proof {
            lemma_square_is_pow2(big_val(random_val) as int);
            lemma_mod_division_less_than_divisor(
                (big_val(random_val) * big_val(random_val)) as int,
                self.modulus_val() as int,
            );
        }
        let bit = rand_bit01();
        if bit == 1 {
            (random_val, squared)
        } else {
            let commitment = big_sub(&self.modulus, &squared);
            (random_val, commitment)
        }
    }

    /// The response to a challenge: y = r · Π_{c_i = 1} s_i mod n, accumulated
    /// with a reduction modulo n after every multiplication so that no
    /// intermediate value grows beyond n².
    pub fn compute_proof(&self, random_val: &num_bigint::BigUint, challenge: &[u32]) -> (y:
        num_bigint::BigUint)
        requires
            self.wf(),
            challenge@.len() == self.secret_vals().len(),
        ensures
            big_val(y) == (big_val(*random_val) * selected_product(
                self.secret_vals(),
                challenge@,
                challenge@.len() as int,
            )) % self.modulus_val(),
            big_val(y) < self.modulus_val(),
    {
        let ghost n = self.modulus_val();
        let ghost r = big_val(*random_val);
        let mut result = big_mod(random_val, &self.modulus);
        assert(selected_product(self.secret_vals(), challenge@, 0) == 1);
        let mut i: usize = 0;
        while i < challenge.len()
            invariant
                self.wf(),
                n == self.modulus_val(),
                r == big_val(*random_val),
                i <= challenge@.len(),
                challenge@.len() == self.secret_vals().len(),
                big_val(result) == (r * selected_product(
                    self.secret_vals(),
                    challenge@,
                    i as int,
                )) % n,
            decreases challenge@.len() - i,
        {
            let ghost sp = selected_product(self.secret_vals(), challenge@, i as int);
            if challenge[i] == 1 {
                let ghost s = self.secret_vals()[i as int];
                let product = big_mul(&result, &self.secrets[i]);
                result = big_mod(&product, &self.modulus);
                proof {
                    lemma_mul_mod_noop_left((r * sp) as int, s as int, n as int);
                    assert((r * sp) * s == r * (sp * s)) by (nonlinear_arith);
                    assert(selected_product(self.secret_vals(), challenge@, i + 1) == sp * s);
                }
            } else {
                proof {
                    assert(selected_product(self.secret_vals(), challenge@, i + 1) == sp * 1nat);
                }
            }
            i += 1;
        }
        proof {
            lemma_mod_division_less_than_divisor(
                (r * selected_product(self.secret_vals(), challenge@, challenge@.len() as int))
                    as int,
                n as int,
            );
        }
        result
    }
}

} // verus!
