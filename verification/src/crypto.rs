//! End-to-end encryption of a room: X25519 key agreement, HKDF-SHA256 key
//! derivation bound to the room, AES-256-GCM with `room:seq` as associated data.

use aes_gcm::aead::{Aead, KeyInit};
use vstd::prelude::*;
use vstd::slice::slice_to_vec;
use vstd::utf8::encode_utf8;

use crate::digits::{decimal_ascii, push_decimal_ascii};
use crate::entropy::{random_nonce, random_secret};

verus! {

/// The X25519 public key (`PublicKey::from(&StaticSecret)`) of a secret.
pub uninterp spec fn x25519_public(secret: Seq<u8>) -> Seq<u8>;

/// The X25519 shared secret (`StaticSecret::diffie_hellman`) of a secret
/// and a peer's public key.
pub uninterp spec fn x25519_agree(secret: Seq<u8>, public: Seq<u8>) -> Seq<u8>;

/// HKDF-SHA256 (RFC 5869, as `hkdf::Hkdf::<Sha256>::new` then `expand`
/// compute it): `len` bytes of output keying material.
pub uninterp spec fn hkdf_sha256(salt: Seq<u8>, ikm: Seq<u8>, info: Seq<u8>, len: nat) -> Seq<u8>;

/// The AES-256-GCM ciphertext with its 16-byte tag appended, as
/// `aes_gcm::Aes256Gcm::encrypt` produces it.
pub uninterp spec fn aes256gcm_seal(key: Seq<u8>, nonce: Seq<u8>, aad: Seq<u8>, plain: Seq<u8>) -> Seq<u8>;

/// What `aes_gcm::Aes256Gcm::decrypt` gives back: the plaintext, or `None`
/// where the tag does not authenticate the input.
pub uninterp spec fn aes256gcm_open(key: Seq<u8>, nonce: Seq<u8>, aad: Seq<u8>, ct: Seq<u8>) -> Option<Seq<u8>>;

/// The largest plaintext and associated data AES-GCM accepts: 2^36 bytes.
pub open spec fn aead_len_limit() -> nat {
    0x10_0000_0000
}

/// The HKDF salt, the bytes of `relay-chat`.
pub open spec fn salt_bytes() -> Seq<u8> {
    seq![114u8, 101u8, 108u8, 97u8, 121u8, 45u8, 99u8, 104u8, 97u8, 116u8]
}

/// The AES key of a room, for one side's secret and the other side's public key.
pub open spec fn session_key(room: Seq<char>, secret: Seq<u8>, peer_public: Seq<u8>) -> Seq<u8> {
    hkdf_sha256(salt_bytes(), x25519_agree(secret, peer_public), encode_utf8(room), 32)
}

/// The associated data of message `seq` in `room`: the UTF-8 bytes of `room:seq`.
pub open spec fn message_aad(room: Seq<char>, seq: nat) -> Seq<u8> {
    encode_utf8(room) + seq![58u8] + decimal_ascii(seq)
}

/// Plaintext and associated data both within what AES-GCM accepts.
pub open spec fn within_aead_limits(plain: Seq<u8>, aad: Seq<u8>) -> bool {
    plain.len() <= aead_len_limit() && aad.len() <= aead_len_limit()
}

/// `ct` is the sealing of `plain` under `key`, `nonce` and `aad`: the
/// plaintext's length plus a 16-byte tag, opening back to it.
pub open spec fn sealed_as(key: Seq<u8>, nonce: Seq<u8>, aad: Seq<u8>, plain: Seq<u8>, ct: Seq<u8>) -> bool {
    &&& ct == aes256gcm_seal(key, nonce, aad, plain)
    &&& ct.len() == plain.len() + 16
    &&& aes256gcm_open(key, nonce, aad, ct) == Some(plain)
}

/// `shared` is also what the owner of `their_public` computes with our public key.
pub open spec fn agreed_by_owner(secret: Seq<u8>, their_public: Seq<u8>, shared: Seq<u8>) -> bool {
    forall|theirs: Seq<u8>|
        theirs.len() == 32 && their_public == #[trigger] x25519_public(theirs) ==> shared
            == x25519_agree(theirs, x25519_public(secret))
}

/// Calls `PublicKey::from(&StaticSecret::from(secret))`. Trusted: the
/// result is `x25519_public(secret)`.
#[verifier::external_body]
fn x25519_public_key(secret: &[u8; 32]) -> (public: [u8; 32])
    ensures
        public@ == x25519_public(secret@),
{
    x25519_dalek::PublicKey::from(&x25519_dalek::StaticSecret::from(*secret)).to_bytes()
}

/// Calls `StaticSecret::diffie_hellman`. Trusted: the result is
/// `x25519_agree(secret, their_public)`, and both sides of an exchange
/// compute the same secret (the crate's documented guarantee): if
/// `their_public` belongs to secret `theirs`, then `theirs` with our public
/// key agrees on the same bytes.
#[verifier::external_body]
fn x25519_diffie_hellman(secret: &[u8; 32], their_public: &[u8; 32]) -> (shared: [u8; 32])
    ensures
        shared@ == x25519_agree(secret@, their_public@),
        agreed_by_owner(secret@, their_public@, shared@),
{
    x25519_dalek::StaticSecret::from(*secret).diffie_hellman(
        &x25519_dalek::PublicKey::from(*their_public),
    ).to_bytes()
}

/// Calls `hkdf::Hkdf::<Sha256>::new(Some(salt), ikm)` and `expand(info, ..)`
/// into 32 bytes. Trusted: the output is `hkdf_sha256(salt, ikm, info, 32)`;
/// `expand` fails only for more than 255 * 32 bytes, so this never is `None`.
#[verifier::external_body]
fn hkdf_sha256_32(salt: &[u8], ikm: &[u8], info: &[u8]) -> (out: Option<[u8; 32]>)
    ensures
        out is Some,
        out matches Some(k) ==> k@ == hkdf_sha256(salt@, ikm@, info@, 32),
{
    let mut okm = [0u8; 32];
    match hkdf::Hkdf::<sha2::Sha256>::new(Some(salt), ikm).expand(info, &mut okm) {
        Ok(()) => Some(okm),
        Err(_) => None,
    }
}

/// Calls `Aes256Gcm::new(key).encrypt(nonce, Payload { msg: plain, aad })`.
/// Trusted: it fails exactly when the plaintext or the associated data is
/// longer than 2^36 bytes; otherwise the ciphertext is
/// `aes256gcm_seal(..)`, the plaintext's length plus the 16-byte tag that
/// `encrypt_in_place` appends, and decrypting it with the same key, nonce and
/// associated data gives `plain` back.
#[verifier::external_body]
fn aes256gcm_encrypt(key: &[u8; 32], nonce: &[u8; 12], aad: &[u8], plain: &[u8]) -> (ct: Option<Vec<u8>>)
    ensures
        ct is Some <==> within_aead_limits(plain@, aad@),
        ct matches Some(c) ==> c@ == aes256gcm_seal(key@, nonce@, aad@, plain@),
        ct matches Some(c) ==> c@.len() == plain@.len() + 16,
        ct matches Some(c) ==> aes256gcm_open(key@, nonce@, aad@, c@) == Some(plain@),
{
    aes_gcm::Aes256Gcm::new(key.into()).encrypt(
        aes_gcm::Nonce::from_slice(nonce),
        aes_gcm::aead::Payload { msg: plain, aad },
    ).ok()
}

/// Calls `Aes256Gcm::new(key).decrypt(nonce, Payload { msg: ct, aad })`.
/// Trusted: the result is `aes256gcm_open(..)`, the crate's error turned into `None`.
#[verifier::external_body]
fn aes256gcm_decrypt(key: &[u8; 32], nonce: &[u8; 12], aad: &[u8], ct: &[u8]) -> (plain: Option<Vec<u8>>)
    ensures
        match plain {
            Some(p) => aes256gcm_open(key@, nonce@, aad@, ct@) == Some(p@),
            None => aes256gcm_open(key@, nonce@, aad@, ct@) is None,
        },
{
    aes_gcm::Aes256Gcm::new(key.into()).decrypt(
        aes_gcm::Nonce::from_slice(nonce),
        aes_gcm::aead::Payload { msg: ct, aad },
    ).ok()
}

fn salt() -> (s: [u8; 10])
    ensures
        s@ == salt_bytes(),
{
    let s: [u8; 10] = [114, 101, 108, 97, 121, 45, 99, 104, 97, 116];
    assert(s@ =~= salt_bytes());
    s
}

/// The associated data of message `seq` in `room`.
pub fn build_aad(room: &str, seq: u64) -> (aad: Vec<u8>)
    ensures
        aad@ == message_aad(room@, seq as nat),
{
    let mut aad = slice_to_vec(room.as_bytes());
    aad.push(58u8);
    push_decimal_ascii(seq, &mut aad);
    aad
}

/// The bytes of a 32-byte vector as an array.
pub(crate) fn bytes_to_array32(v: &Vec<u8>) -> (a: [u8; 32])
    requires
        v@.len() == 32,
    ensures
        a@ == v@,
{
    let mut a = [0u8; 32];
    let mut i: usize = 0;
    while i < 32
        invariant
            i <= 32,
            v@.len() == 32,
            forall|j: int| 0 <= j < i ==> a@[j] == v@[j],
        decreases 32 - i,
    {
        a[i] = v[i];
        i = i + 1;
    }
    assert(a@ =~= v@);
    a
}

/// The bytes of a 12-byte vector as an array.
pub(crate) fn bytes_to_array12(v: &Vec<u8>) -> (a: [u8; 12])
    requires
        v@.len() == 12,
    ensures
        a@ == v@,
{
    let mut a = [0u8; 12];
    let mut i: usize = 0;
    while i < 12
        invariant
            i <= 12,
            v@.len() == 12,
            forall|j: int| 0 <= j < i ==> a@[j] == v@[j],
        decreases 12 - i,
    {
        a[i] = v[i];
        i = i + 1;
    }
    assert(a@ =~= v@);
    a
}

/// A long-term X25519 identity: the secret and its public key.
pub struct KeyPair {
    pub pk: [u8; 32],
    pub sk: [u8; 32],
}

impl KeyPair {
    /// The public key belongs to the secret.
    pub open spec fn wf(&self) -> bool {
        self.pk@ == x25519_public(self.sk@)
    }

    /// A fresh identity from the operating system's random generator.
    pub fn generate() -> (kp: Self)
        ensures
            kp.wf(),
    {
        let sk = random_secret();
        Self::from_bytes(&sk)
    }

    /// The secret's bytes, for storage.
    pub fn to_bytes(&self) -> (bytes: [u8; 32])
        ensures
            bytes@ == self.sk@,
    {
        self.sk
    }

    /// The identity with the given secret.
    pub fn from_bytes(bytes: &[u8; 32]) -> (kp: Self)
        ensures
            kp.sk@ == bytes@,
            kp.wf(),
    {
        let pk = x25519_public_key(bytes);
        KeyPair { pk, sk: *bytes }
    }

    /// The identity to use given what the key file held (`None` where there
    /// was none): its 32 bytes if it held exactly 32, else a fresh identity.
    /// The flag says whether the identity is fresh and must be written back.
    pub fn from_stored(stored: Option<Vec<u8>>) -> (r: (KeyPair, bool))
        ensures
            r.0.wf(),
            match stored {
                Some(b) => if b@.len() == 32 {
                    r.0.sk@ == b@ && !r.1
                } else {
                    r.1
                },
                None => r.1,
            },
    {
        match stored {
            Some(bytes) => {
                if bytes.len() == 32 {
                    let arr = bytes_to_array32(&bytes);
                    (Self::from_bytes(&arr), false)
                } else {
                    (Self::generate(), true)
                }
            },
            None => (Self::generate(), true),
        }
    }
}

/// A ciphertext with the nonce it was sealed under.
#[derive(Debug, Clone)]
pub struct Encrypted {
    pub ct: Vec<u8>,
    pub nonce: [u8; 12],
}

/// Why an encryption operation failed.
#[derive(Debug, Clone, Copy, PartialEq, Eq, Structural)]
pub enum CryptoError {
    NotReady,
    KeyDerivation,
    Encryption,
    Decryption,
}

impl CryptoError {
    /// The error's message.
    pub open spec fn message(self) -> Seq<char> {
        match self {
            CryptoError::NotReady => "session not ready"@,
            CryptoError::KeyDerivation => "key derivation failed"@,
            CryptoError::Encryption => "encryption failed"@,
            CryptoError::Decryption => "decryption failed"@,
        }
    }

    /// The error's message, as its `Display` gives it.
    pub fn to_string(&self) -> (s: String)
        ensures
            s@ == self.message(),
    {
        match self {
            CryptoError::NotReady => String::from_str("session not ready"),
            CryptoError::KeyDerivation => String::from_str("key derivation failed"),
            CryptoError::Encryption => String::from_str("encryption failed"),
            CryptoError::Decryption => String::from_str("decryption failed"),
        }
    }
}

/// The encryption state of one room: its id and, once started, its AES key.
pub struct CryptoSession {
    key: Option<[u8; 32]>,
    room_id: String,
}

impl CryptoSession {
    /// The AES key, once the session has started.
    pub closed spec fn key(&self) -> Option<Seq<u8>> {
        match self.key {
            Some(k) => Some(k@),
            None => None,
        }
    }

    /// The room the session belongs to.
    pub closed spec fn room(&self) -> Seq<char> {
        self.room_id@
    }

    /// A session for `room_id` that has not started.
    pub fn new(room_id: String) -> (s: Self)
        ensures
            s.key() is None,
            s.room() == room_id@,
    {
        CryptoSession { key: None, room_id }
    }

    /// Derives the room's key from our secret and the peer's public key.
    /// Both sides of an exchange derive the same key.
    pub fn start(&mut self, my_sk: &[u8; 32], peer_pk: &[u8; 32]) -> (r: Result<(), CryptoError>)
        ensures
            r is Ok,
            final(self).room() == old(self).room(),
            final(self).key() == Some(session_key(old(self).room(), my_sk@, peer_pk@)),
            forall|peer_sk: Seq<u8>|
                peer_sk.len() == 32 && peer_pk@ == #[trigger] x25519_public(peer_sk) ==> session_key(
                    old(self).room(),
                    peer_sk,
                    x25519_public(my_sk@),
                ) == session_key(old(self).room(), my_sk@, peer_pk@),
    {
        let shared = x25519_diffie_hellman(my_sk, peer_pk);
        let s = salt();
        let okm = hkdf_sha256_32(&s, &shared, self.room_id.as_str().as_bytes());
        match okm {
            Some(k) => {
                self.key = Some(k);
                Ok(())
            },
            None => Err(CryptoError::KeyDerivation),
        }
    }

    /// Seals `plain` as message `seq` under the given nonce.
    pub fn encrypt_with_nonce(&self, plain: &[u8], seq: u64, nonce: [u8; 12]) -> (r: Result<Encrypted, CryptoError>)
        ensures
            match self.key() {
                None => r matches Err(CryptoError::NotReady),
                Some(k) => if within_aead_limits(plain@, message_aad(self.room(), seq as nat)) {
                    r matches Ok(e) && e.nonce@ == nonce@ && sealed_as(
                        k,
                        nonce@,
                        message_aad(self.room(), seq as nat),
                        plain@,
                        e.ct@,
                    )
                } else {
                    r matches Err(CryptoError::Encryption)
                },
            },
    {
        match &self.key {
            None => Err(CryptoError::NotReady),
            Some(k) => {
                let aad = build_aad(self.room_id.as_str(), seq);
                match aes256gcm_encrypt(k, &nonce, aad.as_slice(), plain) {
                    Some(ct) => Ok(Encrypted { ct, nonce }),
                    None => Err(CryptoError::Encryption),
                }
            },
        }
    }

    /// Seals `plain` as message `seq` under a fresh random nonce.
    pub fn encrypt(&self, plain: &[u8], seq: u64) -> (r: Result<Encrypted, CryptoError>)
        ensures
            match self.key() {
                None => r matches Err(CryptoError::NotReady),
                Some(k) => if within_aead_limits(plain@, message_aad(self.room(), seq as nat)) {
                    r matches Ok(e) && sealed_as(
                        k,
                        e.nonce@,
                        message_aad(self.room(), seq as nat),
                        plain@,
                        e.ct@,
                    )
                } else {
                    r matches Err(CryptoError::Encryption)
                },
            },
    {
        if self.key.is_none() {
            return Err(CryptoError::NotReady);
        }
        let nonce = random_nonce();
        self.encrypt_with_nonce(plain, seq, nonce)
    }

    /// Opens message `seq`.
    pub fn decrypt(&self, ct: &[u8], nonce: &[u8; 12], seq: u64) -> (r: Result<Vec<u8>, CryptoError>)
        ensures
            match self.key() {
                None => r matches Err(CryptoError::NotReady),
                Some(k) => match aes256gcm_open(k, nonce@, message_aad(self.room(), seq as nat), ct@) {
                    Some(p) => r matches Ok(v) && v@ == p,
                    None => r matches Err(CryptoError::Decryption),
                },
            },
    {
        match &self.key {
            None => Err(CryptoError::NotReady),
            Some(k) => {
                let aad = build_aad(self.room_id.as_str(), seq);
                match aes256gcm_decrypt(k, nonce, aad.as_slice(), ct) {
                    Some(p) => Ok(p),
                    None => Err(CryptoError::Decryption),
                }
            },
        }
    }

    /// Whether the session has a key.
    pub fn is_ready(&self) -> (b: bool)
        ensures
            b == self.key() is Some,
    {
        self.key.is_some()
    }
}

} // verus!
