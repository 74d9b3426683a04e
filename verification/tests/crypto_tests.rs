use remotedesk::crypto::{init, session_cipher_for, CryptoError, KeyExchange, Role, SessionCipher, NONCE_BYTES};

#[test]
fn key_exchange_agrees() {
    init();
    let host = KeyExchange::generate();
    let client = KeyExchange::generate();
    assert_ne!(host.public_key_bytes(), client.public_key_bytes());
    let k1 = host.compute_shared_secret(&client.public_key_bytes()).derive_symmetric_key();
    let k2 = client.compute_shared_secret(&host.public_key_bytes()).derive_symmetric_key();
    assert_eq!(k1, k2);
    // The symmetric key is the crypto_box precomputation itself.
    assert_eq!(k1, host.compute_shared_secret(&client.public_key_bytes()).derive_symmetric_key());
    assert_ne!(k1, host.public_key_bytes());
    assert_ne!(k1, client.public_key_bytes());
}

#[test]
fn session_ciphers_interoperate() {
    init();
    let host = KeyExchange::generate();
    let client = KeyExchange::generate();
    let mut c = session_cipher_for(&client, &host.public_key_bytes(), Role::Client);
    let mut h = session_cipher_for(&host, &client.public_key_bytes(), Role::Host);
    let (nonce, ct) = c.encrypt(b"secret frame");
    assert_eq!(nonce.len(), NONCE_BYTES);
    assert_eq!(&nonce[..9], &[0, 0, 0, 0, 0, 0, 0, 0, 0]);
    assert_eq!(ct.len(), 12 + 16);
    assert_ne!(&ct[..12], b"secret frame");
    assert_eq!(h.decrypt(&nonce, &ct).unwrap(), b"secret frame".to_vec());
    let (nonce2, _) = c.encrypt(b"second");
    assert_eq!(&nonce2[..9], &[1, 0, 0, 0, 0, 0, 0, 0, 0]);
    // The host's first nonce differs from the client's: the direction byte is 1.
    let (hn, hct) = h.encrypt(b"reply");
    assert_eq!(&hn[..9], &[0, 0, 0, 0, 0, 0, 0, 0, 1]);
    assert_ne!(hn, nonce);
    assert_eq!(c.decrypt(&hn, &hct).unwrap(), b"reply".to_vec());
}

#[test]
fn message_cannot_be_replayed_to_its_sender() {
    let mut c = SessionCipher::new(&[5u8; 32], Role::Client);
    let mut h = SessionCipher::new(&[5u8; 32], Role::Host);
    let (nonce, ct) = c.encrypt(b"hello");
    assert_eq!(c.decrypt(&nonce, &ct), Err(CryptoError::DecryptionFailed));
    assert_eq!(c.recv_counter(), 0);
    assert_eq!(h.decrypt(&nonce, &ct), Ok(b"hello".to_vec()));
    let sealed = h.seal_message(b"back");
    assert_eq!(h.open_message(&sealed), Err(CryptoError::DecryptionFailed));
    assert_eq!(c.open_message(&sealed), Ok(b"back".to_vec()));
}

#[test]
fn decrypt_errors() {
    let mut a = SessionCipher::new(&[7u8; 32], Role::Client);
    let mut b = SessionCipher::new(&[8u8; 32], Role::Host);
    let mut a2 = SessionCipher::new(&[7u8; 32], Role::Host);
    let (nonce, ct) = a.encrypt(b"x");
    assert_eq!(b.decrypt(&nonce, &ct), Err(CryptoError::DecryptionFailed));
    assert_eq!(b.decrypt(&nonce[..10], &ct), Err(CryptoError::InvalidNonce));
    let mut tampered = ct.clone();
    tampered[0] ^= 1;
    assert_eq!(a2.decrypt(&nonce, &tampered), Err(CryptoError::DecryptionFailed));
    assert_eq!(a2.decrypt(&nonce, &ct[..15]), Err(CryptoError::DecryptionFailed));
    assert_eq!(a2.decrypt(&nonce, &ct), Ok(b"x".to_vec()));
}

#[test]
fn sealed_messages_open() {
    let mut a = SessionCipher::new(&[3u8; 32], Role::Host);
    let mut b = SessionCipher::new(&[3u8; 32], Role::Client);
    let sealed = a.seal_message(b"payload");
    assert_eq!(sealed.len(), NONCE_BYTES + 7 + 16);
    assert_eq!(a.send_counter(), 1);
    assert_eq!(b.open_message(&sealed), Ok(b"payload".to_vec()));
    assert_eq!(b.recv_counter(), 1);
    assert_eq!(b.open_message(&sealed[..5]), Err(CryptoError::InvalidNonce));
}

#[test]
fn crypto_error_display_text() {
    assert_eq!(CryptoError::InvalidNonce.to_string(), "Invalid nonce length");
    assert_eq!(CryptoError::DecryptionFailed.to_string(), "Decryption failed \u{2014} wrong key or corrupted data");
    assert_eq!(CryptoError::InvalidKey.to_string(), "Invalid key length");
}

#[test]
fn a_run_of_messages_all_open_at_the_peer() {
    let mut c = SessionCipher::new(&[9u8; 32], Role::Client);
    let mut h = SessionCipher::new(&[9u8; 32], Role::Host);
    let mut nonces = Vec::new();
    for i in 0..10u8 {
        let (n, ct) = c.encrypt(&[i; 3]);
        assert!(!nonces.contains(&n));
        nonces.push(n.clone());
        assert_eq!(h.decrypt(&n, &ct), Ok(vec![i; 3]));
    }
    assert_eq!(h.recv_counter(), 10);
}
