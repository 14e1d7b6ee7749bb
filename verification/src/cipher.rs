//! Authenticated encryption of content chunks.
//!
//! A chunk is sealed under a 256-bit key with AES-256-GCM and a fresh random
//! 96-bit nonce, and framed as `nonce ‖ ciphertext ‖ tag`. What the cipher
//! itself computes is named, not restated: `aes_gcm_seal` and `aes_gcm_open`
//! stand for sealing and opening under a key and nonce, and the contracts
//! here say exactly how every output relates to them, including that a sealed
//! chunk opens back to its plaintext under the same key and nonce.

use vstd::prelude::*;

verus! {

/// Length of a cipher key, in bytes (256 bits).
pub const KEY_LEN: usize = 32;

/// Length of a nonce, in bytes (96 bits).
pub const NONCE_LEN: usize = 12;

/// Length of the authentication tag, in bytes.
pub const TAG_LEN: usize = 16;

/// Longest plaintext AES-GCM seals: 2^36 bytes.
pub const CHUNK_MAX: u64 = 0x10_0000_0000;

/// Why a cipher operation was refused.
#[derive(Debug, Clone, Copy, PartialEq, Eq)]
pub enum CryptoError {
    /// The key is not exactly 32 bytes.
    InvalidKeyLength,
    /// The input is too short to even hold a nonce.
    InputTooShort,
    /// The tag did not verify: the key is wrong or the data was tampered
    /// with. The two causes are indistinguishable by design.
    AuthenticationFailure,
}

/// What AES-256-GCM sealing returns for a key, nonce and plaintext:
/// the ciphertext with the 16-byte tag appended.
pub uninterp spec fn aes_gcm_seal(key: Seq<u8>, nonce: Seq<u8>, plaintext: Seq<u8>) -> Seq<u8>;

/// What AES-256-GCM opening returns for a key, nonce and ciphertext-with-tag:
/// the plaintext when the tag verifies, nothing otherwise.
pub uninterp spec fn aes_gcm_open(key: Seq<u8>, nonce: Seq<u8>, ciphertext: Seq<u8>) -> Option<
    Seq<u8>,
>;

/// Relies on rand::Rng::fill over rand::thread_rng: fills the buffer from
/// the thread-local cryptographically secure generator. Random, so nothing
/// is promised of the contents, only the length.
#[verifier::external_body]
fn random_key_bytes() -> (r: Vec<u8>)
    ensures
        r@.len() == KEY_LEN,
{
    let mut key = [0u8; 32];
    rand::Rng::fill(&mut rand::thread_rng(), &mut key);
    key.to_vec()
}

/// Relies on aes_gcm::aead::AeadCore::generate_nonce over rand::thread_rng:
/// fills a fresh 96-bit nonce from the secure generator. Random, so nothing
/// is promised of the contents, only the length.
#[verifier::external_body]
fn fresh_nonce() -> (r: Vec<u8>)
    ensures
        r@.len() == NONCE_LEN,
{
    let nonce = <aes_gcm::Aes256Gcm as aes_gcm::AeadCore>::generate_nonce(&mut rand::thread_rng());
    nonce.to_vec()
}

/// Relies on aes_gcm::aead::Aead::encrypt for aes_gcm::Aes256Gcm (the cipher
/// built with aes_gcm::KeyInit::new_from_slice): seals the plaintext under
/// key and nonce, appending the 16-byte tag; a pure function of its three
/// arguments, which aes_gcm::aead::Aead::decrypt inverts under the same key
/// and nonce. Encryption fails only on a plaintext over the GCM length
/// bound, which the caller rules out.
#[verifier::external_body]
fn aead_seal(key_bytes: &Vec<u8>, nonce: &Vec<u8>, plaintext: &Vec<u8>) -> (r: Vec<u8>)
    requires
        key_bytes@.len() == KEY_LEN,
        nonce@.len() == NONCE_LEN,
        plaintext@.len() <= CHUNK_MAX,
    ensures
        r@ == aes_gcm_seal(key_bytes@, nonce@, plaintext@),
        r@.len() == plaintext@.len() + TAG_LEN,
        aes_gcm_open(key_bytes@, nonce@, r@) == Some(plaintext@),
{
    let cipher = <aes_gcm::Aes256Gcm as aes_gcm::KeyInit>::new_from_slice(
        key_bytes.as_slice(),
    ).unwrap();
    let nonce_arr = aes_gcm::Nonce::from_slice(nonce.as_slice());
    aes_gcm::aead::Aead::encrypt(&cipher, nonce_arr, plaintext.as_slice()).unwrap()
}

/// Relies on aes_gcm::aead::Aead::decrypt for aes_gcm::Aes256Gcm (the cipher
/// built with aes_gcm::KeyInit::new_from_slice): verifies the trailing
/// 16-byte tag and returns the plaintext; a pure function of its three
/// arguments, failing exactly when the input is no message sealed under this
/// key and nonce.
#[verifier::external_body]
fn aead_open(key_bytes: &Vec<u8>, nonce: &Vec<u8>, ciphertext: &Vec<u8>) -> (r: Option<Vec<u8>>)
    requires
        key_bytes@.len() == KEY_LEN,
        nonce@.len() == NONCE_LEN,
    ensures
        match r {
            Some(p) => aes_gcm_open(key_bytes@, nonce@, ciphertext@) == Some(p@),
            None => aes_gcm_open(key_bytes@, nonce@, ciphertext@) is None,
        },
{
    let cipher = <aes_gcm::Aes256Gcm as aes_gcm::KeyInit>::new_from_slice(
        key_bytes.as_slice(),
    ).unwrap();
    let nonce_arr = aes_gcm::Nonce::from_slice(nonce.as_slice());
    match aes_gcm::aead::Aead::decrypt(&cipher, nonce_arr, ciphertext.as_slice()) {
        Ok(p) => Some(p),
        Err(_) => None,
    }
}

/// Copy `src[start..end]` into a fresh vector.
fn copy_range(src: &Vec<u8>, start: usize, end: usize) -> (r: Vec<u8>)
    requires
        start <= end <= src@.len(),
    ensures
        r@ == src@.subrange(start as int, end as int),
{
    let mut r: Vec<u8> = Vec::new();
    let mut i: usize = start;
    while i < end
        invariant
            start <= i <= end <= src@.len(),
            r@ == src@.subrange(start as int, i as int),
        decreases end - i,
    {
        r.push(src[i]);
        proof {
            assert(src@.subrange(start as int, i as int) + seq![src@[i as int]] =~= src@.subrange(
                start as int,
                i as int + 1,
            ));
        }
        i = i + 1;
    }
    r
}

/// A fresh 256-bit key from the secure random generator.
pub fn generate_key() -> (r: Vec<u8>)
    ensures
        r@.len() == KEY_LEN,
{
    random_key_bytes()
}

/// Seal one content chunk under a 256-bit key.
///
/// A fresh random nonce is drawn inside on every call — a caller can neither
/// supply nor fix it — and the output is `nonce ‖ ciphertext ‖ tag`, 28 bytes
/// longer than the chunk. The contract states the round trip: opening the
/// ciphertext part under the same key and the embedded nonce yields exactly
/// the chunk, which is what `decrypt_chunk_session_bound` does.
pub fn encrypt_chunk(chunk: &Vec<u8>, key_bytes: &Vec<u8>) -> (r: Result<Vec<u8>, CryptoError>)
    requires
        chunk@.len() <= CHUNK_MAX,
    ensures
        r is Ok <==> key_bytes@.len() == KEY_LEN,
        r is Err ==> r == Err::<Vec<u8>, CryptoError>(CryptoError::InvalidKeyLength),
        r matches Ok(c) ==> ({
            let nonce = c@.subrange(0, NONCE_LEN as int);
            let sealed = c@.subrange(NONCE_LEN as int, c@.len() as int);
            &&& c@.len() == chunk@.len() + NONCE_LEN + TAG_LEN
            &&& sealed == aes_gcm_seal(key_bytes@, nonce, chunk@)
            &&& aes_gcm_open(key_bytes@, nonce, sealed) == Some(chunk@)
        }),
{
    if key_bytes.len() != KEY_LEN {
        return Err(CryptoError::InvalidKeyLength);
    }
    let mut out = fresh_nonce();
    let ghost nonce_s = out@;
    let mut sealed = aead_seal(key_bytes, &out, chunk);
    let ghost sealed_s = sealed@;
    out.append(&mut sealed);
    proof {
        assert(out@.subrange(0, NONCE_LEN as int) =~= nonce_s);
        assert(out@.subrange(NONCE_LEN as int, out@.len() as int) =~= sealed_s);
    }
    Ok(out)
}

/// Open one sealed chunk under a 256-bit key.
///
/// The leading 12 bytes are taken as the nonce and the remainder as
/// ciphertext-with-tag. The contract is exact: on a well-formed key and a
/// long-enough input, the call returns the plaintext precisely when opening
/// succeeds, and `AuthenticationFailure` precisely when it does not — a
/// wrong key and tampered data are indistinguishable by design. No partial
/// plaintext is ever released.
///
/// Possession of the key is the sole authorization here, a deliberate
/// decision: the cipher never consults the ledger, so a caller that wants
/// decryption tied to a purchase must check the access grant before handing
/// over the key.
pub fn decrypt_chunk_session_bound(encrypted_chunk: &Vec<u8>, key_bytes: &Vec<u8>) -> (r: Result<
    Vec<u8>,
    CryptoError,
>)
    ensures
        key_bytes@.len() != KEY_LEN ==> r == Err::<Vec<u8>, CryptoError>(
            CryptoError::InvalidKeyLength,
        ),
        key_bytes@.len() == KEY_LEN && encrypted_chunk@.len() < NONCE_LEN ==> r == Err::<
            Vec<u8>,
            CryptoError,
        >(CryptoError::InputTooShort),
        key_bytes@.len() == KEY_LEN && encrypted_chunk@.len() >= NONCE_LEN ==> ({
            let nonce = encrypted_chunk@.subrange(0, NONCE_LEN as int);
            let sealed = encrypted_chunk@.subrange(NONCE_LEN as int, encrypted_chunk@.len() as int);
            match r {
                Ok(p) => aes_gcm_open(key_bytes@, nonce, sealed) == Some(p@),
                Err(e) => e == CryptoError::AuthenticationFailure && aes_gcm_open(
                    key_bytes@,
                    nonce,
                    sealed,
                ) is None,
            }
        }),
{
    if key_bytes.len() != KEY_LEN {
        return Err(CryptoError::InvalidKeyLength);
    }
    if encrypted_chunk.len() < NONCE_LEN {
        return Err(CryptoError::InputTooShort);
    }
    let nonce = copy_range(encrypted_chunk, 0, NONCE_LEN);
    let sealed = copy_range(encrypted_chunk, NONCE_LEN, encrypted_chunk.len());
    match aead_open(key_bytes, &nonce, &sealed) {
        Some(p) => Ok(p),
        None => Err(CryptoError::AuthenticationFailure),
    }
}

} // verus!
