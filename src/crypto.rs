//! Identities and end-to-end envelopes.
//!
//! An identity is an Ed25519 signing key and an X25519 key-agreement key. An
//! envelope for a peer is `ephemeral public key (32) ‖ signature (64) ‖
//! ciphertext`: the key of the ChaCha20-Poly1305 ciphertext is derived with
//! HKDF-SHA-256 from the X25519 agreement of a fresh ephemeral key with the
//! peer's key, and the sender signs the ephemeral key and the ciphertext.
//!
//! The nonce is all zero. That is safe only because every envelope is sealed
//! under a key derived from a fresh, random ephemeral secret: no code path may
//! reuse an ephemeral secret.
use crate::encoding::{base32_decode, base32_decoding, base32_encode, base32_encoding, opt_bytes};
use chacha20poly1305::aead::Aead;
use chacha20poly1305::KeyInit;
use ed25519_dalek::{Signer, Verifier};
use vstd::prelude::*;
use vstd::slice::slice_subrange;

verus! {

/// Salt of the message-key derivation: the ASCII text `NeoChat_P2P_Encryption_Salt_v1`.
pub const ENCRYPTION_SALT: [u8; 30] = [78, 101, 111, 67, 104, 97, 116, 95, 80, 50, 80, 95, 69, 110, 99, 114, 121, 112, 116, 105, 111, 110, 95, 83, 97, 108, 116, 95, 118, 49];

/// Info label of the message-key derivation, used by no other derivation: the
/// ASCII text `NeoChat_Message_Key`.
pub const MESSAGE_KEY_INFO: [u8; 19] = [78, 101, 111, 67, 104, 97, 116, 95, 77, 101, 115, 115, 97, 103, 101, 95, 75, 101, 121];

/// Smallest envelope: ephemeral public key and signature.
pub const ENVELOPE_HEADER_LEN: usize = 96;

/// Length of the authentication tag at the end of an envelope's ciphertext.
pub const ENVELOPE_TAG_LEN: usize = 16;

/// Why an identity could not be read or an envelope sealed or opened.
#[derive(Debug, Clone, Copy, PartialEq, Eq, Structural)]
pub enum CryptoError {
    /// The identity text is not base-32.
    InvalidIdEncoding,
    /// The encryption-key text is not base-32.
    InvalidEncryptionKeyEncoding,
    /// The identity is not 32 bytes.
    InvalidIdLength,
    /// The identity is not an Ed25519 public key.
    InvalidSigningKey,
    /// The encryption key is not 32 bytes.
    InvalidEncryptionKeyLength,
    /// The envelope is shorter than its header.
    EnvelopeTooShort,
    /// The signature does not verify under the sender's key.
    BadSignature,
    /// The ciphertext does not authenticate under the derived key.
    DecryptionFailed,
    /// The plaintext is too long for the cipher.
    EncryptionFailed,
    /// The message key could not be derived.
    KeyDerivationFailed,
}

/// The Ed25519 public key of a secret key.
pub uninterp spec fn ed25519_public_of(secret: Seq<u8>) -> [u8; 32];

/// The Ed25519 signature of `msg` under a secret key.
pub uninterp spec fn ed25519_signature_of(secret: Seq<u8>, msg: Seq<u8>) -> [u8; 64];

/// Whether `sig` verifies for `msg` under a public key.
pub uninterp spec fn ed25519_accepts(public: Seq<u8>, msg: Seq<u8>, sig: Seq<u8>) -> bool;

/// Whether 32 bytes are the encoding of an Ed25519 public key.
pub uninterp spec fn ed25519_key_valid(public: Seq<u8>) -> bool;

/// The X25519 public key of a secret key.
pub uninterp spec fn x25519_public_of(secret: Seq<u8>) -> [u8; 32];

/// The X25519 shared secret of a secret key and a public key.
pub uninterp spec fn x25519_shared_of(secret: Seq<u8>, public: Seq<u8>) -> [u8; 32];

/// 32 bytes of HKDF-SHA-256 output.
pub uninterp spec fn hkdf_sha256_of(salt: Seq<u8>, ikm: Seq<u8>, info: Seq<u8>) -> [u8; 32];

/// ChaCha20-Poly1305 ciphertext with its tag.
pub uninterp spec fn chacha20poly1305_seal_of(key: Seq<u8>, nonce: Seq<u8>, plaintext: Seq<u8>) -> Seq<u8>;

/// ChaCha20-Poly1305 decryption: the plaintext, or nothing if the tag fails.
pub uninterp spec fn chacha20poly1305_open_of(key: Seq<u8>, nonce: Seq<u8>, ciphertext: Seq<u8>) -> Option<Seq<u8>>;

/// Relies on `ed25519_dalek::SigningKey::generate` over the operating
/// system's random source: a fresh secret key.
#[verifier::external_body]
fn fresh_signing_secret() -> (r: [u8; 32]) {
    ed25519_dalek::SigningKey::generate(&mut rand::rngs::OsRng).to_bytes()
}

/// Relies on `x25519_dalek::StaticSecret::random_from_rng` over the operating
/// system's random source: a fresh secret key.
#[verifier::external_body]
fn fresh_dh_secret() -> (r: [u8; 32]) {
    x25519_dalek::StaticSecret::random_from_rng(rand::rngs::OsRng).to_bytes()
}

/// Relies on `ed25519_dalek::SigningKey::verifying_key`: the public key
/// depends on the secret key alone.
#[verifier::external_body]
fn ed25519_public(secret: &[u8; 32]) -> (r: [u8; 32])
    ensures
        r == ed25519_public_of(secret@),
{
    ed25519_dalek::SigningKey::from_bytes(secret).verifying_key().to_bytes()
}

/// Relies on `ed25519_dalek::SigningKey::sign`: Ed25519 signatures are
/// deterministic.
#[verifier::external_body]
fn ed25519_sign(secret: &[u8; 32], msg: &[u8]) -> (r: [u8; 64])
    ensures
        r == ed25519_signature_of(secret@, msg@),
{
    ed25519_dalek::SigningKey::from_bytes(secret).sign(msg).to_bytes()
}

/// Relies on `ed25519_dalek::VerifyingKey::from_bytes`: the public key of a
/// secret key is a valid key.
#[verifier::external_body]
fn ed25519_check_key(public: &[u8; 32]) -> (r: bool)
    ensures
        r == ed25519_key_valid(public@),
        forall|secret: Seq<u8>| public@ == #[trigger] ed25519_public_of(secret)@ ==> r,
{
    ed25519_dalek::VerifyingKey::from_bytes(public).is_ok()
}

/// Relies on `ed25519_dalek::VerifyingKey::verify` (after
/// `VerifyingKey::from_bytes`, a key that does not decode verifies nothing):
/// a signature made with a secret key verifies under its public key.
#[verifier::external_body]
fn ed25519_verify(public: &[u8; 32], msg: &[u8], sig: &[u8]) -> (r: bool)
    requires
        sig@.len() == 64,
    ensures
        r == ed25519_accepts(public@, msg@, sig@),
        forall|secret: Seq<u8>|
            public@ == #[trigger] ed25519_public_of(secret)@ && sig@ == ed25519_signature_of(
                secret,
                msg@,
            )@ ==> r,
{
    match ed25519_dalek::VerifyingKey::from_bytes(public) {
        Ok(key) => {
            let sig: [u8; 64] = sig.try_into().unwrap();
            key.verify(msg, &ed25519_dalek::Signature::from_bytes(&sig)).is_ok()
        },
        Err(_) => false,
    }
}

/// Relies on `x25519_dalek::PublicKey::from(&StaticSecret)`: the public key
/// depends on the secret key alone.
#[verifier::external_body]
fn x25519_public(secret: &[u8; 32]) -> (r: [u8; 32])
    ensures
        r == x25519_public_of(secret@),
{
    x25519_dalek::PublicKey::from(&x25519_dalek::StaticSecret::from(*secret)).to_bytes()
}

/// Relies on `x25519_dalek::StaticSecret::diffie_hellman`: both sides of an
/// exchange compute the same shared secret.
#[verifier::external_body]
fn x25519_shared(secret: &[u8; 32], public: &[u8; 32]) -> (r: [u8; 32])
    ensures
        r == x25519_shared_of(secret@, public@),
        forall|other: Seq<u8>|
            public@ == #[trigger] x25519_public_of(other)@ ==> r == x25519_shared_of(
                other,
                x25519_public_of(secret@)@,
            ),
{
    x25519_dalek::StaticSecret::from(*secret).diffie_hellman(
        &x25519_dalek::PublicKey::from(*public),
    ).to_bytes()
}

/// Relies on `hkdf::Hkdf::<Sha256>::new` and `expand`: expansion fails only
/// for outputs longer than 255 hash lengths, and 32 bytes is one.
#[verifier::external_body]
fn hkdf_sha256(salt: &[u8], ikm: &[u8; 32], info: &[u8]) -> (r: Result<[u8; 32], ()>)
    ensures
        r is Ok,
        r matches Ok(k) ==> k == hkdf_sha256_of(salt@, ikm@, info@),
{
    let mut okm = [0u8; 32];
    hkdf::Hkdf::<sha2::Sha256>::new(Some(salt), ikm).expand(info, &mut okm).map(|_| okm).map_err(
        |_| (),
    )
}

/// Relies on `ChaCha20Poly1305::encrypt`, which refuses only a plaintext of
/// `u32::MAX` blocks of 64 bytes or more and appends a 16-byte tag to the
/// ciphertext.
#[verifier::external_body]
fn chacha20poly1305_seal(key: &[u8; 32], nonce: &[u8; 12], plaintext: &[u8]) -> (r: Result<
    Vec<u8>,
    (),
>)
    ensures
        r matches Ok(c) ==> c@ == chacha20poly1305_seal_of(key@, nonce@, plaintext@),
        r matches Ok(c) ==> c@.len() == plaintext@.len() + ENVELOPE_TAG_LEN,
        plaintext@.len() / 64 < 0xffff_ffff ==> r is Ok,
{
    chacha20poly1305::ChaCha20Poly1305::new(chacha20poly1305::Key::from_slice(key)).encrypt(
        chacha20poly1305::Nonce::from_slice(nonce),
        plaintext,
    ).map_err(|_| ())
}

/// Relies on `ChaCha20Poly1305::decrypt`: a ciphertext sealed under a key and
/// nonce opens under them to its plaintext.
#[verifier::external_body]
fn chacha20poly1305_open(key: &[u8; 32], nonce: &[u8; 12], ciphertext: &[u8]) -> (r: Option<
    Vec<u8>,
>)
    ensures
        opt_bytes(r) == chacha20poly1305_open_of(key@, nonce@, ciphertext@),
        forall|p: Seq<u8>|
            ciphertext@ == #[trigger] chacha20poly1305_seal_of(key@, nonce@, p) ==> opt_bytes(r)
                == Some(p),
{
    chacha20poly1305::ChaCha20Poly1305::new(chacha20poly1305::Key::from_slice(key)).decrypt(
        chacha20poly1305::Nonce::from_slice(nonce),
        ciphertext,
    ).ok()
}

/// The all-zero nonce of envelopes.
pub open spec fn zero_nonce() -> Seq<u8> {
    Seq::new(12, |i: int| 0u8)
}

/// The message key of a shared secret.
pub open spec fn message_key_of(shared: Seq<u8>) -> [u8; 32] {
    hkdf_sha256_of(ENCRYPTION_SALT@, shared, MESSAGE_KEY_INFO@)
}

/// The envelope that the holder of `sender_secret` seals for the holder of
/// the key-agreement key `recipient_public`, with the ephemeral secret
/// `ephemeral`.
pub open spec fn sealed_envelope(
    sender_secret: Seq<u8>,
    recipient_public: Seq<u8>,
    ephemeral: Seq<u8>,
    plaintext: Seq<u8>,
) -> Seq<u8> {
    let ephemeral_public = x25519_public_of(ephemeral)@;
    let key = message_key_of(x25519_shared_of(ephemeral, recipient_public)@);
    let ciphertext = chacha20poly1305_seal_of(key@, zero_nonce(), plaintext);
    ephemeral_public + ed25519_signature_of(sender_secret, ephemeral_public + ciphertext)@
        + ciphertext
}

/// What opening `envelope` with the key-agreement secret `receiver_secret`
/// gives, for a sender with public key `sender_public`: the signature over
/// ephemeral key and ciphertext is checked before anything is decrypted.
pub open spec fn opened_envelope(
    receiver_secret: Seq<u8>,
    sender_public: Seq<u8>,
    envelope: Seq<u8>,
) -> Result<Seq<u8>, CryptoError> {
    if envelope.len() < ENVELOPE_HEADER_LEN {
        Err(CryptoError::EnvelopeTooShort)
    } else {
        let ephemeral_public = envelope.subrange(0, 32);
        let signature = envelope.subrange(32, 96);
        let ciphertext = envelope.subrange(96, envelope.len() as int);
        if !ed25519_accepts(sender_public, ephemeral_public + ciphertext, signature) {
            Err(CryptoError::BadSignature)
        } else {
            let key = message_key_of(x25519_shared_of(receiver_secret, ephemeral_public)@);
            match chacha20poly1305_open_of(key@, zero_nonce(), ciphertext) {
                Some(p) => Ok(p),
                None => Err(CryptoError::DecryptionFailed),
            }
        }
    }
}

/// The view of a byte result.
pub open spec fn result_bytes(r: Result<Vec<u8>, CryptoError>) -> Result<Seq<u8>, CryptoError> {
    match r {
        Ok(v) => Ok(v@),
        Err(e) => Err(e),
    }
}

/// The three parts of an envelope: ephemeral public key, signature and
/// ciphertext; nothing when it is shorter than its header.
pub fn split_envelope(envelope: &[u8]) -> (r: Option<([u8; 32], &[u8], &[u8])>)
    ensures
        envelope@.len() < ENVELOPE_HEADER_LEN ==> r is None,
        envelope@.len() >= ENVELOPE_HEADER_LEN ==> (r matches Some((e, s, c)) && e@
            == envelope@.subrange(0, 32) && s@ == envelope@.subrange(32, 96) && c@
            == envelope@.subrange(96, envelope@.len() as int)),
{
    if envelope.len() < ENVELOPE_HEADER_LEN {
        return None;
    }
    let ephemeral_public = take_array32(envelope);
    let signature = slice_subrange(envelope, 32, 96);
    let ciphertext = slice_subrange(envelope, 96, envelope.len());
    Some((ephemeral_public, signature, ciphertext))
}

/// The first 32 bytes of a slice, as an array.
fn take_array32(src: &[u8]) -> (r: [u8; 32])
    requires
        src@.len() >= 32,
    ensures
        r@ == src@.subrange(0, 32),
{
    let mut out = [0u8; 32];
    let mut i: usize = 0;
    while i < 32
        invariant
            i <= 32,
            src@.len() >= 32,
            forall|j: int| 0 <= j < i ==> out@[j] == src@[j],
        decreases 32 - i,
    {
        out[i] = src[i];
        i += 1;
    }
    assert(out@ =~= src@.subrange(0, 32));
    out
}

/// The concatenation of two byte slices.
fn concat_bytes(a: &[u8], b: &[u8]) -> (r: Vec<u8>)
    ensures
        r@ == a@ + b@,
{
    let mut out: Vec<u8> = Vec::new();
    out.extend_from_slice(a);
    out.extend_from_slice(b);
    out
}

/// The local node's long-term keys: an Ed25519 signing key, which is its
/// identity, and an X25519 key used only for key agreement.
pub struct IdentityKeys {
    /// Ed25519 secret key.
    pub signing_key: [u8; 32],
    /// X25519 secret key.
    pub encryption_key: [u8; 32],
}

/// A remote peer's public keys.
#[derive(Debug, Clone, Copy)]
pub struct PeerIdentity {
    /// Ed25519 public key that the peer's envelopes verify under.
    pub signing_key: [u8; 32],
    /// X25519 public key that envelopes for the peer are sealed to.
    pub encryption_key: [u8; 32],
}

/// What reading a peer from its two base-32 texts gives: the identity's and
/// the encryption key's bytes.
pub open spec fn peer_from_text(id: Seq<char>, enc: Seq<char>) -> Result<(Seq<u8>, Seq<u8>), CryptoError> {
    match base32_decoding(id) {
        None => Err(CryptoError::InvalidIdEncoding),
        Some(id_bytes) => match base32_decoding(enc) {
            None => Err(CryptoError::InvalidEncryptionKeyEncoding),
            Some(enc_bytes) => if id_bytes.len() != 32 {
                Err(CryptoError::InvalidIdLength)
            } else if !ed25519_key_valid(id_bytes) {
                Err(CryptoError::InvalidSigningKey)
            } else if enc_bytes.len() != 32 {
                Err(CryptoError::InvalidEncryptionKeyLength)
            } else {
                Ok((id_bytes, enc_bytes))
            },
        },
    }
}

impl IdentityKeys {
    /// A fresh signing key and a fresh key-agreement key, from the operating
    /// system's random source.
    pub fn generate() -> (r: IdentityKeys) {
        let signing_key = fresh_signing_secret();
        let encryption_key = fresh_dh_secret();
        IdentityKeys { signing_key, encryption_key }
    }

    pub fn signing_public(&self) -> (r: [u8; 32])
        ensures
            r == ed25519_public_of(self.signing_key@),
    {
        ed25519_public(&self.signing_key)
    }

    pub fn encryption_public(&self) -> (r: [u8; 32])
        ensures
            r == x25519_public_of(self.encryption_key@),
    {
        x25519_public(&self.encryption_key)
    }

    /// The identity as peers exchange it: the signing public key in unpadded
    /// base-32.
    pub fn id_string(&self) -> (r: String)
        ensures
            r@ == base32_encoding(false, ed25519_public_of(self.signing_key@)@),
    {
        let public = self.signing_public();
        base32_encode(false, public.as_slice())
    }

    /// The key-agreement public key in unpadded base-32.
    pub fn encryption_pub_string(&self) -> (r: String)
        ensures
            r@ == base32_encoding(false, x25519_public_of(self.encryption_key@)@),
    {
        let public = self.encryption_public();
        base32_encode(false, public.as_slice())
    }
}

impl PeerIdentity {
    /// Reads a peer from its identity and encryption-key texts (unpadded
    /// base-32 of 32 bytes each); the identity must be an Ed25519 public key.
    /// The texts that an identity hands out read back to its public keys.
    pub fn from_strings(id_str: &str, enc_key_str: &str) -> (r: Result<PeerIdentity, CryptoError>)
        ensures
            match r {
                Ok(p) => peer_from_text(id_str@, enc_key_str@) == Ok::<(Seq<u8>, Seq<u8>), CryptoError>(
                    (p.signing_key@, p.encryption_key@),
                ),
                Err(e) => peer_from_text(id_str@, enc_key_str@) == Err::<(Seq<u8>, Seq<u8>), CryptoError>(e),
            },
            forall|secret: Seq<u8>, enc: Seq<u8>|
                enc.len() == 32 && id_str@ == #[trigger] base32_encoding(
                    false,
                    ed25519_public_of(secret)@,
                ) && enc_key_str@ == #[trigger] base32_encoding(false, enc) ==> (r matches Ok(p)
                    && p.signing_key@ == ed25519_public_of(secret)@ && p.encryption_key@ == enc),
    {
        let id_bytes = match base32_decode(false, id_str) {
            Some(b) => b,
            None => return Err(CryptoError::InvalidIdEncoding),
        };
        let enc_bytes = match base32_decode(false, enc_key_str) {
            Some(b) => b,
            None => return Err(CryptoError::InvalidEncryptionKeyEncoding),
        };
        if id_bytes.len() != 32 {
            return Err(CryptoError::InvalidIdLength);
        }
        let signing_key = take_array32(id_bytes.as_slice());
        assert(signing_key@ =~= id_bytes@);
        if !ed25519_check_key(&signing_key) {
            return Err(CryptoError::InvalidSigningKey);
        }
        if enc_bytes.len() != 32 {
            return Err(CryptoError::InvalidEncryptionKeyLength);
        }
        let encryption_key = take_array32(enc_bytes.as_slice());
        assert(encryption_key@ =~= enc_bytes@);
        Ok(PeerIdentity { signing_key, encryption_key })
    }
}

/// The message key for an exchange between the secret key `my_secret` and the
/// public key `their_public`: HKDF-SHA-256 of their X25519 shared secret.
pub fn message_key(my_secret: &[u8; 32], their_public: &[u8; 32]) -> (r: Result<[u8; 32], CryptoError>)
    ensures
        r == Ok::<[u8; 32], CryptoError>(message_key_of(x25519_shared_of(my_secret@, their_public@)@)),
        forall|other: Seq<u8>|
            their_public@ == #[trigger] x25519_public_of(other)@ ==> r == Ok::<[u8; 32], CryptoError>(
                message_key_of(x25519_shared_of(other, x25519_public_of(my_secret@)@)@),
            ),
{
    let shared = x25519_shared(my_secret, their_public);
    let salt = ENCRYPTION_SALT;
    let info = MESSAGE_KEY_INFO;
    match hkdf_sha256(salt.as_slice(), &shared, info.as_slice()) {
        Ok(key) => Ok(key),
        Err(_) => Err(CryptoError::KeyDerivationFailed),
    }
}

/// Seals `plaintext` for `peer` with the given ephemeral secret. Each call
/// must have a fresh ephemeral secret: the nonce is fixed.
pub fn encrypt_for_peer_with(
    my_identity: &IdentityKeys,
    peer: &PeerIdentity,
    ephemeral_secret: &[u8; 32],
    plaintext: &[u8],
) -> (r: Result<Vec<u8>, CryptoError>)
    ensures
        r matches Ok(v) ==> v@ == sealed_envelope(
            my_identity.signing_key@,
            peer.encryption_key@,
            ephemeral_secret@,
            plaintext@,
        ),
        r matches Ok(v) ==> v@.len() == ENVELOPE_HEADER_LEN + plaintext@.len() + ENVELOPE_TAG_LEN,
        r is Ok || r == Err::<Vec<u8>, CryptoError>(CryptoError::EncryptionFailed),
        plaintext@.len() / 64 < 0xffff_ffff ==> r is Ok,
{
    let ephemeral_public = x25519_public(ephemeral_secret);
    let key = match message_key(ephemeral_secret, &peer.encryption_key) {
        Ok(k) => k,
        Err(e) => return Err(e),
    };
    let nonce = [0u8; 12];
    assert(nonce@ =~= zero_nonce());
    let ciphertext = match chacha20poly1305_seal(&key, &nonce, plaintext) {
        Ok(c) => c,
        Err(_) => return Err(CryptoError::EncryptionFailed),
    };
    let signed = concat_bytes(ephemeral_public.as_slice(), ciphertext.as_slice());
    let signature = ed25519_sign(&my_identity.signing_key, signed.as_slice());
    let mut envelope = concat_bytes(ephemeral_public.as_slice(), signature.as_slice());
    envelope.extend_from_slice(ciphertext.as_slice());
    Ok(envelope)
}

/// Seals `plaintext` for `peer` under a fresh ephemeral key:
/// `ephemeral public key ‖ signature ‖ ciphertext`.
pub fn encrypt_for_peer(my_identity: &IdentityKeys, peer: &PeerIdentity, plaintext: &[u8]) -> (r:
    Result<Vec<u8>, CryptoError>)
    ensures
        r matches Ok(v) ==> exists|e: [u8; 32]|
            v@ == sealed_envelope(
                my_identity.signing_key@,
                peer.encryption_key@,
                e@,
                plaintext@,
            ),
        r matches Ok(v) ==> v@.len() == ENVELOPE_HEADER_LEN + plaintext@.len() + ENVELOPE_TAG_LEN,
        r is Ok || r == Err::<Vec<u8>, CryptoError>(CryptoError::EncryptionFailed),
        plaintext@.len() / 64 < 0xffff_ffff ==> r is Ok,
{
    let ephemeral_secret = fresh_dh_secret();
    encrypt_for_peer_with(my_identity, peer, &ephemeral_secret, plaintext)
}

/// Opens an envelope from the sender whose Ed25519 public key is
/// `sender_id_pub`: checks the length, then the signature, and only then
/// decrypts. Every failure is an error; no plaintext comes out of one.
///
/// An envelope that the sender sealed for this identity opens to its
/// plaintext.
pub fn decrypt_from_peer(my_identity: &IdentityKeys, sender_id_pub: &[u8; 32], envelope: &[u8]) -> (r:
    Result<Vec<u8>, CryptoError>)
    ensures
        result_bytes(r) == opened_envelope(my_identity.encryption_key@, sender_id_pub@, envelope@),
        forall|sender: Seq<u8>, ephemeral: Seq<u8>, m: Seq<u8>|
            sender_id_pub@ == #[trigger] ed25519_public_of(sender)@ && envelope@
                == #[trigger] sealed_envelope(
                sender,
                x25519_public_of(my_identity.encryption_key@)@,
                ephemeral,
                m,
            ) ==> result_bytes(r) == Ok::<Seq<u8>, CryptoError>(m),
{
    let ghost env = envelope@;
    let (ephemeral_public, signature, ciphertext) = match split_envelope(envelope) {
        Some(parts) => parts,
        None => return Err(CryptoError::EnvelopeTooShort),
    };
    let signed = concat_bytes(ephemeral_public.as_slice(), ciphertext);
    let verified = ed25519_verify(sender_id_pub, signed.as_slice(), signature);
    proof {
        assert forall|sender: Seq<u8>, ephemeral: Seq<u8>, m: Seq<u8>|
            sender_id_pub@ == #[trigger] ed25519_public_of(sender)@ && env
                == #[trigger] sealed_envelope(
                sender,
                x25519_public_of(my_identity.encryption_key@)@,
                ephemeral,
                m,
            ) implies verified by {
            let epub = x25519_public_of(ephemeral)@;
            let key = message_key_of(
                x25519_shared_of(ephemeral, x25519_public_of(my_identity.encryption_key@)@)@,
            );
            let ct = chacha20poly1305_seal_of(key@, zero_nonce(), m);
            let sig = ed25519_signature_of(sender, epub + ct)@;
            assert(env.subrange(0, 32) =~= epub);
            assert(env.subrange(32, 96) =~= sig);
            assert(env.subrange(96, env.len() as int) =~= ct);
        }
    }
    if !verified {
        return Err(CryptoError::BadSignature);
    }
    let key = match message_key(&my_identity.encryption_key, &ephemeral_public) {
        Ok(k) => k,
        Err(e) => return Err(e),
    };
    let nonce = [0u8; 12];
    assert(nonce@ =~= zero_nonce());
    let opened = chacha20poly1305_open(&key, &nonce, ciphertext);
    proof {
        assert forall|sender: Seq<u8>, ephemeral: Seq<u8>, m: Seq<u8>|
            sender_id_pub@ == #[trigger] ed25519_public_of(sender)@ && env
                == #[trigger] sealed_envelope(
                sender,
                x25519_public_of(my_identity.encryption_key@)@,
                ephemeral,
                m,
            ) implies opt_bytes(opened) == Some(m) by {
            let epub = x25519_public_of(ephemeral)@;
            let shared = x25519_shared_of(ephemeral, x25519_public_of(my_identity.encryption_key@)@);
            let key2 = message_key_of(shared@);
            let ct = chacha20poly1305_seal_of(key2@, zero_nonce(), m);
            let sig = ed25519_signature_of(sender, epub + ct)@;
            assert(env.subrange(0, 32) =~= epub);
            assert(env.subrange(96, env.len() as int) =~= ct);
            assert(ephemeral_public@ == x25519_public_of(ephemeral)@);
        }
    }
    match opened {
        Some(p) => Ok(p),
        None => Err(CryptoError::DecryptionFailed),
    }
}

} // verus!
