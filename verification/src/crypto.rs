//! Key derivation, random generation, and AES-256-CBC encryption.
//!
//! The outside calls stand behind small trusted wrappers; everything above
//! them is verified against the wrappers' contracts.

use vstd::prelude::*;
use aes::Aes256;
use block_modes::block_padding::Pkcs7;
use block_modes::{BlockMode, Cbc};
use rand::Rng;
use tiny_keccak::Hasher;
use crate::{BLOCK_SIZE, IV_LEN, KEY_LEN};

verus! {

/// The Keccak-256 digest of a byte sequence.
pub uninterp spec fn keccak256_of(data: Seq<u8>) -> Seq<u8>;

/// The AES-256-CBC encryption, under PKCS7 padding, of a plaintext for a
/// given 32-byte key and 16-byte initialization vector.
pub uninterp spec fn aes256_cbc_encrypt_of(key: Seq<u8>, iv: Seq<u8>, plaintext: Seq<u8>) -> Seq<
    u8,
>;

/// The AES-256-CBC decryption, under PKCS7 padding, of a ciphertext for a
/// given 32-byte key and 16-byte initialization vector; `None` when the
/// ciphertext's length is no multiple of the block size or the decrypted
/// padding is malformed.
pub uninterp spec fn aes256_cbc_decrypt_of(key: Seq<u8>, iv: Seq<u8>, ciphertext: Seq<u8>) -> Option<
    Seq<u8>,
>;

/// Relies on tiny_keccak's `Keccak::v256`: `update` then `finalize` writes
/// the 32-byte Keccak-256 digest, a function of the input bytes alone.
#[verifier::external_body]
fn keccak256(data: &Vec<u8>) -> (r: Vec<u8>)
    ensures
        r@ == keccak256_of(data@),
        r@.len() == KEY_LEN,
{
    let mut hasher = tiny_keccak::Keccak::v256();
    let mut out = [0u8; 32];
    hasher.update(data.as_slice());
    hasher.finalize(&mut out);
    out.to_vec()
}

/// Relies on rand's `thread_rng` and `Fill for [u8]`: fills the vector from
/// the thread-local CSPRNG. Nothing is promised of the bytes but their count.
#[verifier::external_body]
fn random_bytes(n: usize) -> (r: Vec<u8>)
    ensures
        r@.len() == n,
{
    let mut v = vec![0u8; n];
    rand::thread_rng().fill(v.as_mut_slice());
    v
}

/// Relies on block_modes' `Cbc::<Aes256, Pkcs7>`: `new_from_slices` accepts
/// exactly a 32-byte key and a 16-byte IV, and `encrypt_vec` pads the
/// plaintext with PKCS7 to the 16-byte block size and encrypts it; the result
/// depends on key, IV and plaintext alone, its length is the plaintext's
/// rounded up to the next multiple of the block size, and `decrypt_vec` on it
/// under the same key and IV recovers the plaintext exactly.
#[verifier::external_body]
fn aes256_cbc_encrypt(key: &Vec<u8>, iv: &Vec<u8>, plaintext: &Vec<u8>) -> (r: Vec<u8>)
    requires
        key@.len() == KEY_LEN,
        iv@.len() == IV_LEN,
    ensures
        r@ == aes256_cbc_encrypt_of(key@, iv@, plaintext@),
        r@.len() == plaintext@.len() + BLOCK_SIZE - (plaintext@.len() as int % (BLOCK_SIZE as int)),
        aes256_cbc_decrypt_of(key@, iv@, r@) == Some(plaintext@),
{
    let cipher = Cbc::<Aes256, Pkcs7>::new_from_slices(key.as_slice(), iv.as_slice()).unwrap();
    cipher.encrypt_vec(plaintext.as_slice())
}

/// Relies on block_modes' `Cbc::<Aes256, Pkcs7>`: `decrypt_vec` decrypts and
/// strips the PKCS7 padding, failing on a length that is no multiple of the
/// block size or on malformed padding; the outcome depends on key, IV and
/// ciphertext alone.
#[verifier::external_body]
fn aes256_cbc_decrypt(key: &Vec<u8>, iv: &Vec<u8>, ciphertext: &Vec<u8>) -> (r: Option<Vec<u8>>)
    requires
        key@.len() == KEY_LEN,
        iv@.len() == IV_LEN,
    ensures
        match r {
            Some(p) => aes256_cbc_decrypt_of(key@, iv@, ciphertext@) == Some(p@),
            None => aes256_cbc_decrypt_of(key@, iv@, ciphertext@) is None,
        },
{
    let cipher = Cbc::<Aes256, Pkcs7>::new_from_slices(key.as_slice(), iv.as_slice()).unwrap();
    cipher.decrypt_vec(ciphertext.as_slice()).ok()
}

/// Derives the symmetric key from the passphrase bytes: the Keccak-256
/// digest, unsalted, so the same passphrase always yields the same key.
pub fn derive_key(passphrase: &Vec<u8>) -> (r: Vec<u8>)
    ensures
        r@ == keccak256_of(passphrase@),
        r@.len() == KEY_LEN,
{
    keccak256(passphrase)
}

/// Law: key derivation is a pure function of the passphrase bytes — equal
/// passphrases derive equal keys, in this run and in any other.
pub proof fn lemma_key_derivation_deterministic(a: Seq<u8>, b: Seq<u8>)
    requires
        a == b,
    ensures
        keccak256_of(a) == keccak256_of(b),
{
}

/// Draws a fresh initialization vector from the CSPRNG.
pub fn generate_iv() -> (r: Vec<u8>)
    ensures
        r@.len() == IV_LEN,
{
    random_bytes(IV_LEN)
}

/// Draws `n` filler bytes from the CSPRNG.
pub fn random_filler(n: usize) -> (r: Vec<u8>)
    ensures
        r@.len() == n,
{
    random_bytes(n)
}

/// Encrypts a plaintext under AES-256-CBC with PKCS7 padding.
///
/// The ciphertext is one padding block longer than the plaintext rounded
/// down to a block boundary, always a non-empty multiple of the block size
/// and strictly longer than the plaintext, and decrypting it under the same
/// key and IV recovers the plaintext exactly.
pub fn encrypt_buffer(key: &Vec<u8>, iv: &Vec<u8>, plaintext: &Vec<u8>) -> (r: Vec<u8>)
    requires
        key@.len() == KEY_LEN,
        iv@.len() == IV_LEN,
    ensures
        r@ == aes256_cbc_encrypt_of(key@, iv@, plaintext@),
        r@.len() == plaintext@.len() + BLOCK_SIZE - (plaintext@.len() as int % (BLOCK_SIZE as int)),
        r@.len() as int % (BLOCK_SIZE as int) == 0,
        r@.len() > plaintext@.len(),
        aes256_cbc_decrypt_of(key@, iv@, r@) == Some(plaintext@),
{
    let r = aes256_cbc_encrypt(key, iv, plaintext);
    proof {
        let n = plaintext@.len() as int;
        vstd::arithmetic::div_mod::lemma_fundamental_div_mod(n, BLOCK_SIZE as int);
        assert(r@.len() == (n / BLOCK_SIZE as int + 1) * BLOCK_SIZE as int) by {
            assert(n == BLOCK_SIZE * (n / BLOCK_SIZE as int) + n % BLOCK_SIZE as int);
        }
        vstd::arithmetic::div_mod::lemma_mod_multiples_basic(
            n / BLOCK_SIZE as int + 1,
            BLOCK_SIZE as int,
        );
    }
    r
}

/// Decrypts a ciphertext produced by `encrypt_buffer` under the same key and
/// IV; `None` exactly when the ciphertext is no valid AES-256-CBC/PKCS7
/// ciphertext for that key and IV.
pub fn decrypt_buffer(key: &Vec<u8>, iv: &Vec<u8>, ciphertext: &Vec<u8>) -> (r: Option<Vec<u8>>)
    requires
        key@.len() == KEY_LEN,
        iv@.len() == IV_LEN,
    ensures
        match r {
            Some(p) => aes256_cbc_decrypt_of(key@, iv@, ciphertext@) == Some(p@),
            None => aes256_cbc_decrypt_of(key@, iv@, ciphertext@) is None,
        },
{
    aes256_cbc_decrypt(key, iv, ciphertext)
}

} // verus!
