//! At-rest codec of the node's state.
//!
//! The file holds the RFC 4648 base-32 text (padded) of `nonce (12) ‖
//! AES-256-GCM ciphertext with its tag`, under a 32-byte local storage key;
//! the plaintext is the encoded state, which this module treats as bytes.
use crate::encoding::{base32_decode, base32_decoding, base32_encode, base32_encoding, opt_bytes};
use aes_gcm::aead::{Aead, AeadCore, KeyInit};
use vstd::prelude::*;
use vstd::slice::slice_subrange;
use vstd::string::*;
use vstd::utf8::*;

verus! {

/// Length of the nonce in front of the ciphertext.
pub const STORAGE_NONCE_LEN: usize = 12;

/// Length of the authentication tag at the end of the ciphertext.
pub const STORAGE_TAG_LEN: usize = 16;

/// Why a state file could not be written or read.
#[derive(Debug, Clone, Copy, PartialEq, Eq, Structural)]
pub enum StorageError {
    /// The state is too long for the cipher.
    EncryptionFailed,
    /// The file is not UTF-8 text.
    InvalidText,
    /// The text is not base-32.
    InvalidBase32,
    /// The decoded bytes are shorter than a nonce.
    TooShort,
    /// The ciphertext does not authenticate under the key.
    DecryptionFailed,
}

/// AES-256-GCM ciphertext with its tag.
pub uninterp spec fn aes256gcm_seal_of(key: Seq<u8>, nonce: Seq<u8>, plaintext: Seq<u8>) -> Seq<u8>;

/// AES-256-GCM decryption: the plaintext, or nothing if the tag fails.
pub uninterp spec fn aes256gcm_open_of(key: Seq<u8>, nonce: Seq<u8>, ciphertext: Seq<u8>) -> Option<Seq<u8>>;

/// Relies on `Aes256Gcm::generate_nonce` over the operating system's random
/// source: a fresh nonce.
#[verifier::external_body]
fn fresh_storage_nonce() -> (r: [u8; 12]) {
    let nonce = aes_gcm::Aes256Gcm::generate_nonce(&mut rand::rngs::OsRng);
    let mut out = [0u8; 12];
    out.copy_from_slice(&nonce);
    out
}

/// Relies on `Aes256Gcm::encrypt`, which refuses only a plaintext longer than
/// 2^36 bytes and appends a 16-byte tag to the ciphertext.
#[verifier::external_body]
fn aes256gcm_seal(key: &[u8; 32], nonce: &[u8; 12], plaintext: &[u8]) -> (r: Result<Vec<u8>, ()>)
    ensures
        r matches Ok(c) ==> c@ == aes256gcm_seal_of(key@, nonce@, plaintext@),
        r matches Ok(c) ==> c@.len() == plaintext@.len() + STORAGE_TAG_LEN,
        plaintext@.len() <= 0x10_0000_0000 ==> r is Ok,
{
    aes_gcm::Aes256Gcm::new(key.into()).encrypt(aes_gcm::Nonce::from_slice(nonce), plaintext).map_err(
        |_| (),
    )
}

/// Relies on `Aes256Gcm::decrypt`: a ciphertext sealed under a key and nonce
/// opens under them to its plaintext.
#[verifier::external_body]
fn aes256gcm_open(key: &[u8; 32], nonce: &[u8], ciphertext: &[u8]) -> (r: Option<Vec<u8>>)
    requires
        nonce@.len() == 12,
    ensures
        opt_bytes(r) == aes256gcm_open_of(key@, nonce@, ciphertext@),
        forall|p: Seq<u8>|
            ciphertext@ == #[trigger] aes256gcm_seal_of(key@, nonce@, p) ==> opt_bytes(r) == Some(
                p,
            ),
{
    aes_gcm::Aes256Gcm::new(key.into()).decrypt(aes_gcm::Nonce::from_slice(nonce), ciphertext).ok()
}

/// Relies on `std::str::from_utf8`: the text that valid UTF-8 encodes, and
/// nothing for other bytes.
#[verifier::external_body]
fn utf8_text<'a>(bytes: &'a [u8]) -> (r: Option<&'a str>)
    ensures
        r is Some <==> valid_utf8(bytes@),
        r matches Some(s) ==> s@ == decode_utf8(bytes@),
{
    std::str::from_utf8(bytes).ok()
}

/// The bytes that the file's text encodes: nonce, then ciphertext.
pub open spec fn storage_payload(key: Seq<u8>, nonce: Seq<u8>, state: Seq<u8>) -> Seq<u8> {
    nonce + aes256gcm_seal_of(key, nonce, state)
}

/// The file's bytes: UTF-8 of the padded base-32 text of the payload.
pub open spec fn storage_file(key: Seq<u8>, nonce: Seq<u8>, state: Seq<u8>) -> Seq<u8> {
    encode_utf8(base32_encoding(true, storage_payload(key, nonce, state)))
}

/// What reading a file under `key` gives.
pub open spec fn loaded_state(key: Seq<u8>, file: Seq<u8>) -> Result<Seq<u8>, StorageError> {
    if !valid_utf8(file) {
        Err(StorageError::InvalidText)
    } else {
        match base32_decoding(decode_utf8(file)) {
            None => Err(StorageError::InvalidBase32),
            Some(payload) => if payload.len() < STORAGE_NONCE_LEN {
                Err(StorageError::TooShort)
            } else {
                match aes256gcm_open_of(
                    key,
                    payload.subrange(0, 12),
                    payload.subrange(12, payload.len() as int),
                ) {
                    Some(state) => Ok(state),
                    None => Err(StorageError::DecryptionFailed),
                }
            },
        }
    }
}

pub open spec fn storage_result(r: Result<Vec<u8>, StorageError>) -> Result<Seq<u8>, StorageError> {
    match r {
        Ok(v) => Ok(v@),
        Err(e) => Err(e),
    }
}

/// Encrypts the encoded state under `key` with the given nonce and returns the
/// file's bytes. Each call must have a fresh nonce.
pub fn encode_storage_blob_with_nonce(key: &[u8; 32], nonce: &[u8; 12], state: &[u8]) -> (r: Result<
    Vec<u8>,
    StorageError,
>)
    ensures
        r matches Ok(v) ==> v@ == storage_file(key@, nonce@, state@),
        r matches Ok(v) ==> aes256gcm_seal_of(key@, nonce@, state@).len() == state@.len()
            + STORAGE_TAG_LEN,
        r is Ok || r == Err::<Vec<u8>, StorageError>(StorageError::EncryptionFailed),
        state@.len() <= 0x10_0000_0000 ==> r is Ok,
{
    let ciphertext = match aes256gcm_seal(key, nonce, state) {
        Ok(c) => c,
        Err(_) => return Err(StorageError::EncryptionFailed),
    };
    let mut payload: Vec<u8> = Vec::new();
    payload.extend_from_slice(nonce.as_slice());
    payload.extend_from_slice(ciphertext.as_slice());
    assert(payload@ =~= storage_payload(key@, nonce@, state@));
    let text = base32_encode(true, payload.as_slice());
    let bytes = text.as_str().as_bytes_vec();
    assert(bytes@ == encode_utf8(text@));
    Ok(bytes)
}

/// Encrypts the encoded state under `key` with a fresh random nonce and
/// returns the file's bytes.
pub fn encode_storage_blob(key: &[u8; 32], state: &[u8]) -> (r: Result<Vec<u8>, StorageError>)
    ensures
        r matches Ok(v) ==> exists|nonce: [u8; 12]|
            v@ == storage_file(key@, nonce@, state@) && aes256gcm_seal_of(key@, nonce@, state@).len()
                == state@.len() + STORAGE_TAG_LEN,
        r is Ok || r == Err::<Vec<u8>, StorageError>(StorageError::EncryptionFailed),
        state@.len() <= 0x10_0000_0000 ==> r is Ok,
{
    let nonce = fresh_storage_nonce();
    encode_storage_blob_with_nonce(key, &nonce, state)
}

/// Reads the encoded state back from the file's bytes under `key`. A file
/// written under the same key reads back to the state it was written from.
pub fn decode_storage_blob(key: &[u8; 32], file: &[u8]) -> (r: Result<Vec<u8>, StorageError>)
    ensures
        storage_result(r) == loaded_state(key@, file@),
        forall|nonce: Seq<u8>, state: Seq<u8>|
            nonce.len() == STORAGE_NONCE_LEN && file@ == #[trigger] storage_file(key@, nonce, state)
                ==> storage_result(r) == Ok::<Seq<u8>, StorageError>(state),
{
    let text = match utf8_text(file) {
        Some(t) => t,
        None => {
            proof {
                assert forall|nonce: Seq<u8>, state: Seq<u8>|
                    nonce.len() == STORAGE_NONCE_LEN && file@ == #[trigger] storage_file(
                        key@,
                        nonce,
                        state,
                    ) implies false by {
                    encode_utf8_valid_utf8(base32_encoding(true, storage_payload(key@, nonce, state)));
                }
            }
            return Err(StorageError::InvalidText);
        },
    };
    let decoded = base32_decode(true, text);
    proof {
        assert forall|nonce: Seq<u8>, state: Seq<u8>|
            nonce.len() == STORAGE_NONCE_LEN && file@ == #[trigger] storage_file(key@, nonce, state)
                implies opt_bytes(decoded) == Some(storage_payload(key@, nonce, state)) by {
            let t = base32_encoding(true, storage_payload(key@, nonce, state));
            encode_utf8_decode_utf8(t);
            assert(text@ == t);
        }
    }
    let payload = match decoded {
        Some(p) => p,
        None => return Err(StorageError::InvalidBase32),
    };
    if payload.len() < STORAGE_NONCE_LEN {
        return Err(StorageError::TooShort);
    }
    let nonce = slice_subrange(payload.as_slice(), 0, STORAGE_NONCE_LEN);
    let ciphertext = slice_subrange(payload.as_slice(), STORAGE_NONCE_LEN, payload.len());
    let opened = aes256gcm_open(key, nonce, ciphertext);
    proof {
        assert forall|n: Seq<u8>, state: Seq<u8>|
            n.len() == STORAGE_NONCE_LEN && file@ == #[trigger] storage_file(key@, n, state)
                implies opt_bytes(opened) == Some(state) by {
            let p = storage_payload(key@, n, state);
            assert(payload@ == p);
            assert(p.subrange(0, 12) =~= n);
            assert(p.subrange(12, p.len() as int) =~= aes256gcm_seal_of(key@, n, state));
        }
    }
    match opened {
        Some(state) => Ok(state),
        None => Err(StorageError::DecryptionFailed),
    }
}

} // verus!
