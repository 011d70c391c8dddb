use rmsg::crypto::{build_aad, CryptoError, CryptoSession, KeyPair};

#[test]
fn test_roundtrip() {
    let alice = KeyPair::generate();
    let bob = KeyPair::generate();

    let mut alice_sess = CryptoSession::new("test-room".into());
    let mut bob_sess = CryptoSession::new("test-room".into());

    alice_sess.start(&alice.sk, &bob.pk).unwrap();
    bob_sess.start(&bob.sk, &alice.pk).unwrap();

    let plain = b"hello rmsg!";
    let enc = alice_sess.encrypt(plain, 1).unwrap();
    let dec = bob_sess.decrypt(&enc.ct, &enc.nonce, 1).unwrap();
    assert_eq!(dec, plain);
}

#[test]
fn test_different_rooms_no_cross_decrypt() {
    let alice = KeyPair::generate();
    let bob = KeyPair::generate();

    let mut alice_sess = CryptoSession::new("room-a".into());
    let bob_sess = CryptoSession::new("room-b".into());
    let mut bob_sess_a = CryptoSession::new("room-a".into());

    alice_sess.start(&alice.sk, &bob.pk).unwrap();
    bob_sess_a.start(&bob.sk, &alice.pk).unwrap();

    let enc = alice_sess.encrypt(b"secret", 1).unwrap();
    assert!(bob_sess.decrypt(&enc.ct, &enc.nonce, 1).is_err());
    assert!(bob_sess_a.decrypt(&enc.ct, &enc.nonce, 1).is_ok());
}

#[test]
fn test_not_ready_error() {
    let sess = CryptoSession::new("room".into());
    assert!(sess.encrypt(b"hi", 1).is_err());
    assert!(sess.decrypt(b"x", &[0u8; 12], 1).is_err());
}

#[test]
fn not_ready_errors_are_not_ready() {
    let sess = CryptoSession::new("room".into());
    assert_eq!(sess.encrypt(b"hi", 1).unwrap_err(), CryptoError::NotReady);
    assert_eq!(sess.decrypt(b"x", &[0u8; 12], 1).unwrap_err(), CryptoError::NotReady);
    assert!(!sess.is_ready());
}

#[test]
fn started_session_is_ready() {
    let a = KeyPair::generate();
    let b = KeyPair::generate();
    let mut s = CryptoSession::new("r".into());
    s.start(&a.sk, &b.pk).unwrap();
    assert!(s.is_ready());
}

#[test]
fn wrong_sequence_number_fails_to_decrypt() {
    let a = KeyPair::generate();
    let b = KeyPair::generate();
    let mut sa = CryptoSession::new("room".into());
    let mut sb = CryptoSession::new("room".into());
    sa.start(&a.sk, &b.pk).unwrap();
    sb.start(&b.sk, &a.pk).unwrap();
    let enc = sa.encrypt(b"payload", 7).unwrap();
    assert_eq!(sb.decrypt(&enc.ct, &enc.nonce, 8).unwrap_err(), CryptoError::Decryption);
    assert_eq!(sb.decrypt(&enc.ct, &enc.nonce, 7).unwrap(), b"payload".to_vec());
}

#[test]
fn tampered_ciphertext_fails_to_decrypt() {
    let a = KeyPair::generate();
    let b = KeyPair::generate();
    let mut sa = CryptoSession::new("room".into());
    let mut sb = CryptoSession::new("room".into());
    sa.start(&a.sk, &b.pk).unwrap();
    sb.start(&b.sk, &a.pk).unwrap();
    let mut enc = sa.encrypt(b"payload", 1).unwrap();
    enc.ct[0] ^= 1;
    assert_eq!(sb.decrypt(&enc.ct, &enc.nonce, 1).unwrap_err(), CryptoError::Decryption);
}

#[test]
fn ciphertext_is_plaintext_plus_tag() {
    let a = KeyPair::generate();
    let b = KeyPair::generate();
    let mut sa = CryptoSession::new("room".into());
    sa.start(&a.sk, &b.pk).unwrap();
    let enc = sa.encrypt_with_nonce(b"abc", 1, [7u8; 12]).unwrap();
    assert_eq!(enc.ct.len(), 3 + 16);
    assert_eq!(enc.nonce, [7u8; 12]);
    assert_ne!(&enc.ct[..3], b"abc");
    // deterministic under a fixed nonce
    let again = sa.encrypt_with_nonce(b"abc", 1, [7u8; 12]).unwrap();
    assert_eq!(enc.ct, again.ct);
}

#[test]
fn keypair_from_bytes_keeps_secret_and_derives_public() {
    let kp = KeyPair::from_bytes(&[9u8; 32]);
    assert_eq!(kp.to_bytes(), [9u8; 32]);
    assert_eq!(kp.sk, [9u8; 32]);
    // the public key is not the secret
    assert_ne!(kp.pk, kp.sk);
    let again = KeyPair::from_bytes(&[9u8; 32]);
    assert_eq!(kp.pk, again.pk);
    // X25519 public key of the scalar 9 repeated (RFC 7748 style vector check by agreement)
    let other = KeyPair::from_bytes(&[1u8; 32]);
    let mut s1 = CryptoSession::new("x".into());
    let mut s2 = CryptoSession::new("x".into());
    s1.start(&kp.sk, &other.pk).unwrap();
    s2.start(&other.sk, &kp.pk).unwrap();
    let e = s1.encrypt(b"m", 0).unwrap();
    assert_eq!(s2.decrypt(&e.ct, &e.nonce, 0).unwrap(), b"m".to_vec());
}

#[test]
fn keypair_from_stored() {
    let (kp, fresh) = KeyPair::from_stored(Some(vec![5u8; 32]));
    assert!(!fresh);
    assert_eq!(kp.sk, [5u8; 32]);
    let (_, fresh) = KeyPair::from_stored(Some(vec![5u8; 31]));
    assert!(fresh);
    let (_, fresh) = KeyPair::from_stored(None);
    assert!(fresh);
}

#[test]
fn aad_is_room_colon_seq() {
    assert_eq!(build_aad("room-a", 0), b"room-a:0".to_vec());
    assert_eq!(build_aad("r", 1234567890), b"r:1234567890".to_vec());
    assert_eq!(build_aad("", u64::MAX), format!(":{}", u64::MAX).into_bytes());
}

#[test]
fn crypto_error_messages() {
    assert_eq!(CryptoError::NotReady.to_string(), "session not ready");
    assert_eq!(CryptoError::KeyDerivation.to_string(), "key derivation failed");
    assert_eq!(CryptoError::Encryption.to_string(), "encryption failed");
    assert_eq!(CryptoError::Decryption.to_string(), "decryption failed");
}

#[test]
fn both_sides_open_a_sealed_message() {
    let x = KeyPair::generate();
    let y = KeyPair::generate();
    let mut a = CryptoSession::new("room".into());
    a.start(&x.sk, &y.pk).unwrap();
    let mut b = CryptoSession::new("room".into());
    b.start(&y.sk, &x.pk).unwrap();
    let enc = a.encrypt(b"twelve bytes", 3).unwrap();
    assert_eq!(enc.ct.len(), 12 + 16);
    assert_eq!(b.decrypt(&enc.ct, &enc.nonce, 3).unwrap(), b"twelve bytes".to_vec());
    assert_eq!(a.decrypt(&enc.ct, &enc.nonce, 3).unwrap(), b"twelve bytes".to_vec());
}
