//! The Verifier: holds only the public material, issues challenges, and checks
//! each round's response against the double-branch acceptance equation.

use vstd::prelude::*;
use vstd::arithmetic::div_mod::lemma_mul_mod_noop_left;
use vstd::arithmetic::div_mod::lemma_small_mod;
use vstd::arithmetic::power::lemma_square_is_pow2;
use crate::bignum::big_val;
use crate::bignum::big_vals;
use crate::bignum::big_from_u64;
use crate::bignum::big_mul;
use crate::bignum::big_mod;
use crate::bignum::big_sub;
use crate::bignum::big_modpow;
use crate::bignum::big_eq;
use crate::bignum::big_lt;
use crate::bignum::rand_bit01;
use crate::modmath::selected_product;
use crate::modmath::round_accepted;

verus! {

/// Why a round was refused before (or instead of) being judged: the Verifier
/// reports these as recoverable outcomes, never as a fault, since a malicious
/// Prover is expected to submit such values.
#[derive(Clone, Copy, Debug, PartialEq, Eq, Structural)]
pub enum ValidationError {
    /// The commitment is not strictly between 0 and the modulus.
    InvalidCommitment,
    /// The challenge does not carry exactly one bit per public key.
    MalformedChallenge,
}

/// The challenge-issuing and proof-checking party. It never sees a secret:
/// only the modulus and the public keys.
pub struct Authenticator {
    modulus: num_bigint::BigUint,
    public_keys: Vec<num_bigint::BigUint>,
}

impl Authenticator {
    /// The modulus as a mathematical value.
    pub closed spec fn modulus_val(&self) -> nat {
        big_val(self.modulus)
    }

    /// The public keys as mathematical values.
    pub closed spec fn key_vals(&self) -> Seq<nat> {
        big_vals(self.public_keys@)
    }

    /// Stores the public material shared by the Prover.
    pub fn initialize(
        modulus: num_bigint::BigUint,
        public_keys: Vec<num_bigint::BigUint>,
    ) -> (a: Authenticator)
        ensures
            a.modulus_val() == big_val(modulus),
            a.key_vals() == big_vals(public_keys@),
    {
        Authenticator { modulus, public_keys }
    }

    /// One fresh challenge: an independent uniformly random bit per public key.
    pub fn generate_challenge(&self) -> (challenge: Vec<u32>)
        ensures
            challenge@.len() == self.key_vals().len(),
            forall|j: int| 0 <= j < challenge@.len() ==> challenge@[j] == 0 || challenge@[j] == 1,
    {
        let mut bits: Vec<u32> = Vec::new();
        let mut i: usize = 0;
        while i < self.public_keys.len()
            invariant
                i <= self.public_keys@.len(),
                bits@.len() == i,
                forall|j: int| 0 <= j < i ==> bits@[j] == 0 || bits@[j] == 1,
            decreases self.public_keys@.len() - i,
        {
            bits.push(rand_bit01());
            i += 1;
        }
        bits
    }

    /// Judges one round. A commitment outside (0, n) is refused before any
    /// modular arithmetic is attempted, and a challenge whose length is not the
    /// number of public keys is refused next. Otherwise the round is accepted
    /// exactly when y² mod n equals z·x mod n or z·(n − x) mod n, where z is the
    /// product of the challenged public keys: both encodings of the commitment
    /// must be admitted, since the Prover's sign choice is not known.
    pub fn validate_proof(
        &self,
        commitment: &num_bigint::BigUint,
        response: &num_bigint::BigUint,
        challenge: &[u32],
    ) -> (outcome: Result<bool, ValidationError>)
        ensures
            match outcome {
                Result::Err(ValidationError::InvalidCommitment) => !(0 < big_val(*commitment)
                    < self.modulus_val()),
                Result::Err(ValidationError::MalformedChallenge) => 0 < big_val(*commitment)
                    < self.modulus_val() && challenge@.len() != self.key_vals().len(),
                Result::Ok(accepted) => {
                    &&& 0 < big_val(*commitment) < self.modulus_val()
                    &&& challenge@.len() == self.key_vals().len()
                    &&& accepted == round_accepted(
                        self.modulus_val(),
                        self.key_vals(),
                        challenge@,
                        big_val(*commitment),
                        big_val(*response),
                    )
                },
            },
    {
        let zero = big_from_u64(0);
        if !(big_lt(&zero, commitment) && big_lt(commitment, &self.modulus)) {
            return Result::Err(ValidationError::InvalidCommitment);
        }
        if challenge.len() != self.public_keys.len() {
            return Result::Err(ValidationError::MalformedChallenge);
        }
        let ghost n = self.modulus_val();
        let ghost x = big_val(*commitment);
        let ghost y = big_val(*response);

        let mut computed_value = big_from_u64(1);
        proof {
            lemma_small_mod(1, n);
        }
        let mut i: usize = 0;
        while i < challenge.len()
            invariant
                n == self.modulus_val(),
                n >= 2,
                i <= challenge@.len(),
                challenge@.len() == self.key_vals().len(),
                big_val(computed_value) == selected_product(self.key_vals(), challenge@, i as int)
                    % n,
            decreases challenge@.len() - i,
        {
            let ghost sp = selected_product(self.key_vals(), challenge@, i as int);
            if challenge[i] == 1 {
                let ghost v = self.key_vals()[i as int];
                let product = big_mul(&computed_value, &self.public_keys[i]);
                computed_value = big_mod(&product, &self.modulus);
                proof {
                    lemma_mul_mod_noop_left(sp as int, v as int, n as int);
                    assert(selected_product(self.key_vals(), challenge@, i + 1) == sp * v);
                }
            } else {
                proof {
                    assert(selected_product(self.key_vals(), challenge@, i + 1) == sp * 1nat);
                }
            }
            i += 1;
        }
        let ghost z = selected_product(self.key_vals(), challenge@, challenge@.len() as int);

        let two = big_from_u64(2);
        let squared_response = big_modpow(response, &two, &self.modulus);
        let option1_product = big_mul(&computed_value, commitment);
        let option1 = big_mod(&option1_product, &self.modulus);
        let complement = big_sub(&self.modulus, commitment);
        let option2_product = big_mul(&computed_value, &complement);
        let option2 = big_mod(&option2_product, &self.modulus);
        proof {
            lemma_square_is_pow2(y as int);
            lemma_mul_mod_noop_left(z as int, x as int, n as int);
            lemma_mul_mod_noop_left(z as int, (n - x) as int, n as int);
        }
        let accepted = big_eq(&squared_response, &option1) || big_eq(&squared_response, &option2);
        Result::Ok(accepted)
    }
}

} // verus!
