//! The protocol driver: sequences commit–challenge–respond–validate rounds,
//! stops at the first round that does not validate, and reports overall
//! acceptance. An honest round is proved never to be rejected on its merits:
//! at worst the freshly sampled commitment degenerates to a boundary value,
//! which the Verifier reports as `InvalidCommitment`.

use vstd::prelude::*;
use vstd::arithmetic::power2::pow2;
use crate::authenticator::Authenticator;
use crate::authenticator::ValidationError;
use crate::bignum::big_val;
use crate::client::Client;
use crate::modmath::lemma_honest_round_accepted;

verus! {

/// The bit length of the prime factors and of the secrets of a fresh session.
pub const KEY_BITS: usize = 256;

/// Relies on `num_primes::Generator::new_prime`, which draws candidates of the
/// given bit length until its primality tests accept one — those tests refuse
/// 0, 1 and 2, so the result is at least 3 and below 2^bits — and on
/// `num_traits::Num::from_str_radix`, which re-reads the decimal rendering of
/// that number. The crate's Miller–Rabin step panics when the candidate drawn
/// is exactly 3, so a residual panic of negligible probability remains at
/// every admitted bit length; the floor on `bits` keeps that probability
/// cryptographically small (at very small bit lengths drawing 3 is likely, and
/// at 2 bits it is the only candidate that can pass the other tests).
#[verifier::external_body]
pub fn generate_large_prime(bits: usize) -> (p: num_bigint::BigUint)
    requires
        bits >= 64,
    ensures
        big_val(p) >= 3,
        big_val(p) < pow2(bits as nat),
{
    let prime = num_primes::Generator::new_prime(bits).to_string();
    num_traits::Num::from_str_radix(&prime, 10).expect("prime generation failed")
}

/// One full round between an honest Prover and a Verifier that holds the same
/// public material: commitment, challenge, response, validation. Completeness
/// is part of the contract: the round is never judged false; the only other
/// outcome is the negligible-probability boundary commitment, reported as
/// `InvalidCommitment`, and never a malformed challenge.
pub fn run_round(client: &Client, auth: &Authenticator) -> (outcome: Result<bool, ValidationError>)
    requires
        client.wf(),
        auth.modulus_val() == client.modulus_val(),
        auth.key_vals() == client.key_vals(),
    ensures
        outcome matches Result::Ok(accepted) ==> accepted,
        outcome matches Result::Err(e) ==> e == ValidationError::InvalidCommitment,
{
    let (random_value, commitment) = client.generate_commitment();
    let challenge = auth.generate_challenge();
    let response = client.compute_proof(&random_value, challenge.as_slice());
    let outcome = auth.validate_proof(&commitment, &response, challenge.as_slice());
    proof {
        if outcome matches Result::Ok(accepted) {
            lemma_honest_round_accepted(
                client.modulus_val(),
                client.secret_vals(),
                client.key_vals(),
                challenge@,
                big_val(random_value),
                big_val(commitment),
                big_val(response),
            );
        }
    }
    outcome
}

/// Runs the given number of rounds and stops at the first that does not
/// validate, with no retry, since a retried round would be a cryptographically
/// independent event. Completeness holds at the session level: however many
/// rounds, an honest session is never judged false — the only non-accepting
/// outcome is the `InvalidCommitment` report of some round's degenerate
/// boundary commitment, an event of negligible probability.
pub fn run_session_checked(client: &Client, auth: &Authenticator, rounds: usize) -> (outcome:
    Result<bool, ValidationError>)
    requires
        client.wf(),
        auth.modulus_val() == client.modulus_val(),
        auth.key_vals() == client.key_vals(),
    ensures
        outcome matches Result::Ok(accepted) ==> accepted,
        outcome matches Result::Err(e) ==> e == ValidationError::InvalidCommitment,
        rounds == 0 ==> outcome == Result::<bool, ValidationError>::Ok(true),
{
    let mut i: usize = 0;
    while i < rounds
        invariant
            client.wf(),
            auth.modulus_val() == client.modulus_val(),
            auth.key_vals() == client.key_vals(),
            i <= rounds,
        decreases rounds - i,
    {
        match run_round(client, auth) {
            Result::Ok(round_accepted) => {
                if !round_accepted {
                    return Result::Ok(false);
                }
            },
            Result::Err(reason) => {
                return Result::Err(reason);
            },
        }
        i += 1;
    }
    Result::Ok(true)
}

/// Runs the given number of rounds and accepts only if every round validates,
/// folding `run_session_checked`'s outcome into the single boolean the caller
/// is owed: a degenerate-commitment round rejects the session like any other
/// non-validating round.
pub fn run_session(client: &Client, auth: &Authenticator, rounds: usize) -> (accepted: bool)
    requires
        client.wf(),
        auth.modulus_val() == client.modulus_val(),
        auth.key_vals() == client.key_vals(),
    ensures
        rounds == 0 ==> accepted,
{
    match run_session_checked(client, auth, rounds) {
        Result::Ok(accepted) => accepted,
        Result::Err(_) => false,
    }
}

/// The whole protocol on fresh key material: two large primes, one fresh secret
/// per iteration, a Prover holding them, a Verifier holding only the derived
/// public material, and one round per iteration. True only if every round
/// validated.
pub fn authentication_protocol(iterations: usize) -> (accepted: bool)
    ensures
        iterations == 0 ==> accepted,
{
    let prime1 = generate_large_prime(KEY_BITS);
    let prime2 = generate_large_prime(KEY_BITS);

    let mut secrets: Vec<num_bigint::BigUint> = Vec::new();
    let mut i: usize = 0;
    while i < iterations
        decreases iterations - i,
    {
        secrets.push(generate_large_prime(KEY_BITS));
        i += 1;
    }

    let client = Client::initialize(prime1, prime2, secrets);
    let modulus_copy = client.export_modulus();
    let keys_copy = client.export_public_keys();
    let auth = Authenticator::initialize(modulus_copy, keys_copy);

    run_session(&client, &auth, iterations)
}

} // verus!
