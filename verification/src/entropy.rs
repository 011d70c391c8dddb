//! Randomness and the clock: values that differ from call to call.

use rand::RngCore;
use vstd::prelude::*;

verus! {

/// A lower-case hexadecimal digit or a hyphen.
pub open spec fn is_uuid_char(c: char) -> bool {
    ('0' <= c <= '9') || ('a' <= c <= 'f') || c == '-'
}

/// Calls `rand::thread_rng().fill_bytes` on twelve bytes. Nothing is
/// promised of the bytes: they are random.
#[verifier::external_body]
pub(crate) fn random_nonce() -> (nonce: [u8; 12]) {
    let mut nonce = [0u8; 12];
    rand::thread_rng().fill_bytes(&mut nonce);
    nonce
}

/// Calls `x25519_dalek::StaticSecret::random_from_rng` with the operating
/// system's generator and returns the secret's bytes. Nothing is promised
/// of them: they are random.
#[verifier::external_body]
pub(crate) fn random_secret() -> (secret: [u8; 32]) {
    x25519_dalek::StaticSecret::random_from_rng(aes_gcm::aead::OsRng).to_bytes()
}

/// Calls `uuid::Uuid::new_v4` and renders it with `to_string`. Trusted: the
/// rendering is the hyphenated form, 36 characters of lower-case hex digits
/// and hyphens (as the crate documents); which UUID comes out is random.
#[verifier::external_body]
pub(crate) fn new_uuid() -> (id: String)
    ensures
        id@.len() == 36,
        forall|i: int| 0 <= i < 36 ==> is_uuid_char(#[trigger] id@[i]),
{
    uuid::Uuid::new_v4().to_string()
}

/// Calls `SystemTime::elapsed` on `UNIX_EPOCH` and returns the whole
/// milliseconds (zero for a clock set before the epoch, as
/// `unwrap_or_default` gives). Nothing is promised of the value: it is the
/// time.
#[verifier::external_body]
pub(crate) fn unix_time_millis() -> (ms: u128) {
    match std::time::UNIX_EPOCH.elapsed() {
        Ok(d) => d.as_millis(),
        Err(_) => 0,
    }
}

} // verus!
