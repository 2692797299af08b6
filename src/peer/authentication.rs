//! The challenge that proves a peer holds the private key of its uid.
//!
//! Each side sends a random 256-bit nonce encrypted under the peer's public
//! key, answers the peer's challenge with what its own private key decrypts,
//! and accepts the peer when the answer to its own challenge is its nonce.
use vstd::prelude::*;

use crate::config::AetherConfig;
use crate::error::AetherError;
use crate::identity::{Id, PublicId, MAX_RSA_INPUT};
use crate::peer::retry_delay;
use crate::util::{gen_nonce, same_bytes};

verus! {

/// The length of a challenge nonce.
pub const NONCE_SIZE: usize = 32;

/// A challenge for a peer: the nonce kept, and its encryption to send.
pub struct Challenge {
    pub nonce: Vec<u8>,
    pub encrypted: Vec<u8>,
}

/// A fresh challenge for the holder of `peer`'s private key.
pub fn make_challenge(peer: &PublicId) -> (r: Result<Challenge, AetherError>)
    ensures
        r is Err ==> r == Err::<Challenge, AetherError>(AetherError::Crypto),
        r matches Ok(c) ==> c.nonce@.len() == NONCE_SIZE,
{
    let nonce = gen_nonce(NONCE_SIZE);
    let encrypted = peer.public_encrypt(nonce.as_slice())?;
    Ok(Challenge { nonce, encrypted })
}

/// The answer to a peer's challenge: what our private key decrypts, or nothing
/// where it cannot decrypt it, which the peer then refuses.
pub fn answer_challenge(id: &Id, challenge: &Vec<u8>) -> (r: Vec<u8>)
    ensures
        challenge@.len() > MAX_RSA_INPUT ==> r@.len() == 0,
{
    if challenge.len() > MAX_RSA_INPUT {
        return Vec::new();
    }
    match id.private_decrypt(challenge.as_slice()) {
        Ok(plain) => plain,
        Err(_) => Vec::new(),
    }
}

/// Accept the peer whose answer is our nonce; any other answer gives
/// `AuthenticationInvalid` with the peer's uid.
pub fn check_response(nonce: &Vec<u8>, response: &Vec<u8>, peer_uid: String) -> (r: Result<
    (),
    AetherError,
>)
    ensures
        r is Ok <==> nonce@ == response@,
        r is Err ==> r == Err::<(), AetherError>(AetherError::AuthenticationInvalid(peer_uid)),
{
    if same_bytes(nonce, response) {
        Ok(())
    } else {
        Err(AetherError::AuthenticationInvalid(peer_uid))
    }
}

/// The error of a challenge that got no answer: a receive that timed out means
/// the peer is unreachable (`AuthenticationFailed` with its uid); other errors
/// pass through.
pub fn unanswered(err: AetherError, peer_uid: String) -> (r: AetherError)
    ensures
        err == AetherError::RecvTimeout ==> r == AetherError::AuthenticationFailed(peer_uid),
        err != AetherError::RecvTimeout ==> r == err,
{
    match err {
        AetherError::RecvTimeout => AetherError::AuthenticationFailed(peer_uid),
        other => other,
    }
}

/// How long to wait for each answer: the retry delay plus a random jitter below
/// `delta_time`, so that both sides do not retry in lockstep.
pub fn challenge_timeout(config: &AetherConfig) -> (r: u64)
    ensures
        r >= config.handshake_retry_delay,
        config.delta_time == 0 ==> r == config.handshake_retry_delay,
        config.delta_time > 0 ==> r < config.handshake_retry_delay + config.delta_time,
{
    retry_delay(config)
}

} // verus!
