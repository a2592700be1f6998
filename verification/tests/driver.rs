use num_bigint::BigUint;
use zk_auth::authenticator::Authenticator;
use zk_auth::client::Client;
use zk_auth::protocol::authentication_protocol;
use zk_auth::protocol::generate_large_prime;
use zk_auth::protocol::run_round;
use zk_auth::protocol::run_session;
use zk_auth::protocol::run_session_checked;

fn big(x: u64) -> BigUint {
    BigUint::from(x)
}

fn session_parties() -> (Client, Authenticator) {
    // Key material large enough that a degenerate boundary commitment has
    // negligible probability: n = 104729 * 1299709.
    let client = Client::initialize(big(104_729), big(1_299_709), vec![big(12_345), big(67_890)]);
    let auth = Authenticator::initialize(client.export_modulus(), client.export_public_keys());
    (client, auth)
}

#[test]
fn honest_rounds_always_accept() {
    let (client, auth) = session_parties();
    for _ in 0..1000 {
        let (witness, commitment) = client.generate_commitment();
        let challenge = auth.generate_challenge();
        let response = client.compute_proof(&witness, &challenge);
        assert_eq!(auth.validate_proof(&commitment, &response, &challenge), Ok(true));
    }
}

#[test]
fn honest_run_round_accepts() {
    let (client, auth) = session_parties();
    for _ in 0..200 {
        assert_eq!(run_round(&client, &auth), Ok(true));
    }
}

#[test]
fn honest_session_accepts() {
    let (client, auth) = session_parties();
    assert!(run_session(&client, &auth, 50));
    assert!(run_session(&client, &auth, 0));
}

#[test]
fn honest_session_checked_accepts() {
    let (client, auth) = session_parties();
    assert_eq!(run_session_checked(&client, &auth, 50), Ok(true));
    assert_eq!(run_session_checked(&client, &auth, 0), Ok(true));
}

#[test]
fn session_fails_with_wrong_keys() {
    // A verifier holding a public key that is no secret's square rejects the
    // honest prover almost surely; across 20 one-round sessions at least one
    // must reject (each accepts only by a negligible-probability coincidence).
    let client = Client::initialize(big(104_729), big(1_299_709), vec![big(12_345)]);
    let auth = Authenticator::initialize(client.export_modulus(), vec![big(999_983)]);
    let mut all_accepted = true;
    for _ in 0..20 {
        if !run_session(&client, &auth, 1) {
            all_accepted = false;
        }
    }
    assert!(!all_accepted);
}

#[test]
fn generated_primes_are_usable() {
    let p = generate_large_prime(64);
    assert!(p >= big(3));
    assert!(p.bits() <= 64);
    let q = generate_large_prime(64);
    let client = Client::initialize(p.clone(), q.clone(), vec![big(424_242)]);
    assert_eq!(client.modulus, p * q);
}

#[test]
fn full_protocol_accepts() {
    assert!(authentication_protocol(1));
}
