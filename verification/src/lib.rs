//! An interactive zero-knowledge identification protocol of the
//! Feige–Fiat–Shamir family: a Prover holds secret square roots modulo a
//! composite, and convinces a Verifier over rounds of commit–challenge–respond
//! that it knows them, without revealing them.

pub mod bignum;
pub mod modmath;
pub mod client;
pub mod authenticator;
pub mod protocol;
