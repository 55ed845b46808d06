use neochat_core::crypto::{
    decrypt_from_peer, encrypt_for_peer, encrypt_for_peer_with, message_key, split_envelope, CryptoError,
    IdentityKeys, PeerIdentity,
};
use std::collections::HashSet;

fn peer_of(keys: &IdentityKeys) -> PeerIdentity {
    PeerIdentity::from_strings(&keys.id_string(), &keys.encryption_pub_string()).unwrap()
}

#[test]
fn envelope_round_trip() {
    let a = IdentityKeys::generate();
    let b = IdentityKeys::generate();
    for m in [&b""[..], &b"hello"[..], &[0xffu8; 1000][..]] {
        let env = encrypt_for_peer(&a, &peer_of(&b), m).unwrap();
        assert_eq!(env.len(), 96 + m.len() + 16);
        let out = decrypt_from_peer(&b, &a.signing_public(), &env).unwrap();
        assert_eq!(out, m.to_vec());
    }
}

#[test]
fn envelope_tampering_fails() {
    let a = IdentityKeys::generate();
    let b = IdentityKeys::generate();
    let env = encrypt_for_peer(&a, &peer_of(&b), b"tamper").unwrap();
    for byte in 32..env.len() {
        for bit in 0..8 {
            let mut bad = env.clone();
            bad[byte] ^= 1 << bit;
            let r = decrypt_from_peer(&b, &a.signing_public(), &bad);
            assert_eq!(r, Err(CryptoError::BadSignature));
        }
    }
}

#[test]
fn envelope_wrong_sender_or_receiver_fails() {
    let a = IdentityKeys::generate();
    let b = IdentityKeys::generate();
    let c = IdentityKeys::generate();
    let env = encrypt_for_peer(&a, &peer_of(&b), b"secret").unwrap();
    assert_eq!(decrypt_from_peer(&b, &c.signing_public(), &env), Err(CryptoError::BadSignature));
    assert_eq!(decrypt_from_peer(&c, &a.signing_public(), &env), Err(CryptoError::DecryptionFailed));
}

#[test]
fn envelope_too_short() {
    let a = IdentityKeys::generate();
    let b = IdentityKeys::generate();
    assert_eq!(
        decrypt_from_peer(&b, &a.signing_public(), &[0u8; 95]),
        Err(CryptoError::EnvelopeTooShort)
    );
    assert_eq!(decrypt_from_peer(&b, &a.signing_public(), &[0u8; 96]), Err(CryptoError::BadSignature));
}

#[test]
fn ephemeral_keys_are_unique() {
    let a = IdentityKeys::generate();
    let b = IdentityKeys::generate();
    let peer = peer_of(&b);
    let mut publics = HashSet::new();
    let mut keys = HashSet::new();
    let n = 10_000;
    for _ in 0..n {
        let env = encrypt_for_peer(&a, &peer, b"x").unwrap();
        let mut ephemeral = [0u8; 32];
        ephemeral.copy_from_slice(&env[..32]);
        publics.insert(ephemeral);
        keys.insert(message_key(&b.encryption_key, &ephemeral).unwrap());
    }
    assert_eq!(publics.len(), n);
    assert_eq!(keys.len(), n);
}

#[test]
fn fixed_ephemeral_is_deterministic() {
    let a = IdentityKeys::generate();
    let b = IdentityKeys::generate();
    let e = [42u8; 32];
    let one = encrypt_for_peer_with(&a, &peer_of(&b), &e, b"same").unwrap();
    let two = encrypt_for_peer_with(&a, &peer_of(&b), &e, b"same").unwrap();
    assert_eq!(one, two);
    assert_eq!(decrypt_from_peer(&b, &a.signing_public(), &one).unwrap(), b"same".to_vec());
}

#[test]
fn message_key_agrees_on_both_sides() {
    let a = IdentityKeys::generate();
    let b = IdentityKeys::generate();
    let ka = message_key(&a.encryption_key, &b.encryption_public()).unwrap();
    let kb = message_key(&b.encryption_key, &a.encryption_public()).unwrap();
    assert_eq!(ka, kb);
    assert_ne!(ka, a.encryption_public());
}

#[test]
fn identity_strings() {
    let a = IdentityKeys::generate();
    let id = a.id_string();
    assert_eq!(id.len(), 52);
    assert!(id.chars().all(|c| c.is_ascii_uppercase() || ('2'..='7').contains(&c)));
    assert_ne!(a.id_string(), a.encryption_pub_string());
    let p = peer_of(&a);
    assert_eq!(p.signing_key, a.signing_public());
    assert_eq!(p.encryption_key, a.encryption_public());
}

#[test]
fn peer_from_bad_strings() {
    let a = IdentityKeys::generate();
    let enc = a.encryption_pub_string();
    assert_eq!(PeerIdentity::from_strings("not base32!", &enc).unwrap_err(), CryptoError::InvalidIdEncoding);
    assert_eq!(
        PeerIdentity::from_strings(&a.id_string(), "!!").unwrap_err(),
        CryptoError::InvalidEncryptionKeyEncoding
    );
    assert_eq!(PeerIdentity::from_strings("MZXW6YTBOI", &enc).unwrap_err(), CryptoError::InvalidIdLength);
    assert_eq!(
        PeerIdentity::from_strings(&a.id_string(), "MZXW6YTBOI").unwrap_err(),
        CryptoError::InvalidEncryptionKeyLength
    );
}

#[test]
fn peer_from_invalid_curve_point() {
    // y = 2 is not the y-coordinate of a point on the curve.
    let mut bytes = [0u8; 32];
    bytes[0] = 2;
    let text = base32::encode(base32::Alphabet::RFC4648 { padding: false }, &bytes);
    let a = IdentityKeys::generate();
    assert_eq!(
        PeerIdentity::from_strings(&text, &a.encryption_pub_string()).unwrap_err(),
        CryptoError::InvalidSigningKey
    );
}

#[test]
fn envelope_split() {
    assert!(split_envelope(&[1u8; 95]).is_none());
    let mut env = vec![1u8; 32];
    env.extend_from_slice(&[2u8; 64]);
    env.extend_from_slice(&[3u8; 5]);
    let (e, s, c) = split_envelope(&env).unwrap();
    assert_eq!(e, [1u8; 32]);
    assert_eq!(s, &[2u8; 64][..]);
    assert_eq!(c, &[3u8; 5][..]);
    let (_, _, empty) = split_envelope(&env[..96]).unwrap();
    assert!(empty.is_empty());
}

#[test]
fn derivation_labels() {
    assert_eq!(&neochat_core::crypto::ENCRYPTION_SALT, b"NeoChat_P2P_Encryption_Salt_v1");
    assert_eq!(&neochat_core::crypto::MESSAGE_KEY_INFO, b"NeoChat_Message_Key");
}

#[test]
fn ciphertext_hides_plaintext() {
    let a = IdentityKeys::generate();
    let b = IdentityKeys::generate();
    let m = b"a plaintext of some length";
    let env = encrypt_for_peer(&a, &peer_of(&b), m).unwrap();
    assert_ne!(&env[96..96 + m.len()], &m[..]);
}
