use num_bigint::BigUint;
use zk_auth::authenticator::Authenticator;
use zk_auth::authenticator::ValidationError;
use zk_auth::client::Client;

fn big(x: u64) -> BigUint {
    BigUint::from(x)
}

fn toy_client() -> Client {
    // n = 61 * 53 = 3233, one secret s = 15, public key v = 15^2 mod 3233 = 225.
    Client::initialize(big(61), big(53), vec![big(15)])
}

fn toy_authenticator() -> Authenticator {
    Authenticator::initialize(big(3233), vec![big(225)])
}

#[test]
fn end_to_end_toy_scenario() {
    let client = toy_client();
    assert_eq!(client.modulus, big(3233));
    assert_eq!(client.public_keys, vec![big(225)]);

    // Honest commitment with witness r = 20 and the "+" sign: x = 400.
    let response = client.compute_proof(&big(20), &[1]);
    assert_eq!(response, big(300));

    let auth = toy_authenticator();
    let outcome = auth.validate_proof(&big(400), &response, &[1]);
    assert_eq!(outcome, Ok(true));
}

#[test]
fn exported_material_matches() {
    let client = toy_client();
    assert_eq!(client.export_modulus(), big(3233));
    assert_eq!(client.export_public_keys(), vec![big(225)]);
}

#[test]
fn double_branch_commitment_accepted() {
    // The "-" branch of the same round: x = n - (r^2 mod n) = 3233 - 400 = 2833.
    // A verifier that checks only one branch of the acceptance equation fails here.
    let auth = toy_authenticator();
    let outcome = auth.validate_proof(&big(2833), &big(300), &[1]);
    assert_eq!(outcome, Ok(true));
}

#[test]
fn boundary_commitments_rejected() {
    let auth = toy_authenticator();
    assert_eq!(
        auth.validate_proof(&big(0), &big(300), &[1]),
        Err(ValidationError::InvalidCommitment)
    );
    assert_eq!(
        auth.validate_proof(&big(3233), &big(300), &[1]),
        Err(ValidationError::InvalidCommitment)
    );
    assert_eq!(
        auth.validate_proof(&big(5000), &big(300), &[1]),
        Err(ValidationError::InvalidCommitment)
    );
}

#[test]
fn malformed_challenge_rejected() {
    let auth = toy_authenticator();
    assert_eq!(
        auth.validate_proof(&big(400), &big(300), &[1, 0]),
        Err(ValidationError::MalformedChallenge)
    );
    assert_eq!(
        auth.validate_proof(&big(400), &big(300), &[]),
        Err(ValidationError::MalformedChallenge)
    );
    // The boundary check comes first even when the challenge is malformed too.
    assert_eq!(
        auth.validate_proof(&big(0), &big(300), &[1, 0]),
        Err(ValidationError::InvalidCommitment)
    );
}

#[test]
fn reused_response_rejected_for_other_challenge() {
    // The pair (x, y) = (400, 300) is valid for the challenge [1]; replaying the
    // same response against the challenge [0] of another round must fail.
    let auth = toy_authenticator();
    assert_eq!(auth.validate_proof(&big(400), &big(300), &[0]), Ok(false));
}

#[test]
fn cheating_prover_succeeds_only_for_guessed_challenge() {
    // Two sub-secrets: v1 = 15^2 mod n = 225, v2 = 23^2 mod n = 529.
    let n = big(3233);
    let auth = Authenticator::initialize(n.clone(), vec![big(225), big(529)]);

    // A cheater without any secret guesses the challenge [1, 0], picks y = 7
    // arbitrarily, and forges x = y^2 * v1^-1 mod n so that the acceptance
    // equation holds for the guess.
    let v1_inv = big(225).modinv(&n).unwrap();
    let forged = big(7) * big(7) * v1_inv % &n;
    let y = big(7);

    assert_eq!(auth.validate_proof(&forged, &y, &[1, 0]), Ok(true));
    assert_eq!(auth.validate_proof(&forged, &y, &[0, 0]), Ok(false));
    assert_eq!(auth.validate_proof(&forged, &y, &[0, 1]), Ok(false));
    assert_eq!(auth.validate_proof(&forged, &y, &[1, 1]), Ok(false));
}

#[test]
fn cheating_prover_with_zero_guess() {
    // Guessing the all-zero challenge needs no inverse: x = y^2 mod n.
    let auth = toy_authenticator();
    let forged = big(7) * big(7) % big(3233);
    assert_eq!(auth.validate_proof(&forged, &big(7), &[0]), Ok(true));
    assert_eq!(auth.validate_proof(&forged, &big(7), &[1]), Ok(false));
}

#[test]
fn challenge_has_one_bit_per_key() {
    let auth = Authenticator::initialize(
        big(3233),
        vec![big(225), big(529), big(100), big(7), big(64), big(121), big(2), big(999)],
    );
    let mut seen_zero = false;
    let mut seen_one = false;
    for _ in 0..100 {
        let challenge = auth.generate_challenge();
        assert_eq!(challenge.len(), 8);
        for bit in challenge {
            assert!(bit == 0 || bit == 1);
            if bit == 0 {
                seen_zero = true;
            } else {
                seen_one = true;
            }
        }
    }
    assert!(seen_zero && seen_one);
}

#[test]
fn commitment_uses_both_encodings() {
    let client = toy_client();
    let n = big(3233);
    let mut plus_branch = false;
    let mut minus_branch = false;
    for _ in 0..200 {
        let (witness, commitment) = client.generate_commitment();
        assert!(witness < n);
        let squared = &witness * &witness % &n;
        assert!(commitment == squared || commitment == &n - &squared);
        if commitment == squared {
            plus_branch = true;
        } else {
            minus_branch = true;
        }
    }
    assert!(plus_branch && minus_branch);
}

#[test]
fn response_stays_below_modulus() {
    let client = toy_client();
    // Even a witness far above n yields a reduced response: y = r * s mod n.
    let response = client.compute_proof(&big(1_000_000_007), &[1]);
    assert!(response < big(3233));
    assert_eq!(response, big(1_000_000_007) * big(15) % big(3233));
    // A zero challenge bit leaves the secret out: y = r mod n.
    let response = client.compute_proof(&big(1_000_000_007), &[0]);
    assert_eq!(response, big(1_000_000_007) % big(3233));
}
