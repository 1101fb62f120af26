//! Offline secret-provisioning encoder.
//!
//! Parses a registry of `(hex secret, offset)` pairs, packs the secrets into a
//! fixed-size buffer padded with random filler, derives a symmetric key from a
//! passphrase, encrypts the buffer under AES-256-CBC, and renders the result
//! as C-style constant initializers.

use vstd::prelude::*;

pub mod buffer;
pub mod bytesutil;
pub mod hexcode;
pub mod crypto;
pub mod emit;
pub mod records;

verus! {

/// Number of bytes in the plaintext buffer that carries the secrets.
pub const BUFFER_LEN: usize = 256;

/// Exact byte length of every embedded secret.
pub const SECRET_LEN: usize = 32;

/// Byte length of the cipher's initialization vector.
pub const IV_LEN: usize = 16;

/// Block size of the cipher; the ciphertext length is a multiple of it.
pub const BLOCK_SIZE: usize = 16;

/// Byte length of the symmetric key derived from the passphrase.
pub const KEY_LEN: usize = 32;

/// The output of one provisioning run: the fresh initialization vector, the
/// ciphertext of the assembled buffer, and the plaintext length.
#[derive(Debug)]
pub struct EncryptedArtifact {
    pub iv: Vec<u8>,
    pub ciphertext: Vec<u8>,
    pub plaintext_len: usize,
}

/// Runs the whole pipeline: parses the registry, assembles the plaintext
/// buffer with fresh random filler, derives the key from the passphrase,
/// draws a fresh IV, and encrypts.
///
/// On success the ciphertext decrypts, under the key derived from the same
/// passphrase and the artifact's own IV, to a `BUFFER_LEN`-byte buffer that
/// carries every parsed secret at its declared offset (a later record winning
/// where two overlap) over some random filler. A rejected registry returns
/// the error of its first offending entry and nothing is encrypted.
pub fn provision(registry: &Vec<u8>, passphrase: &Vec<u8>) -> (r: Result<
    EncryptedArtifact,
    records::ConfigError,
>)
    ensures
        match r {
            Ok(a) => records::registry_outcome(registry@)
                matches records::RegistryOutcome::Accepted(models) && {
                let key = crypto::keccak256_of(passphrase@);
                &&& a.plaintext_len == BUFFER_LEN
                &&& a.iv@.len() == IV_LEN
                &&& a.ciphertext@.len() == BUFFER_LEN + BLOCK_SIZE
                &&& crypto::aes256_cbc_decrypt_of(key, a.iv@, a.ciphertext@) matches Some(pt) && {
                    &&& pt.len() == BUFFER_LEN
                    &&& a.ciphertext@ == crypto::aes256_cbc_encrypt_of(key, a.iv@, pt)
                    &&& buffer::placed(pt, models)
                    &&& exists|filler: Seq<u8>|
                        filler.len() == BUFFER_LEN && pt == #[trigger] buffer::overlay_all(
                            filler,
                            models,
                        )
                }
            },
            Err(e) => records::registry_outcome(registry@)
                matches records::RegistryOutcome::Rejected { index, kind } && e
                == records::error_for(index, kind),
        },
{
    let recs = match records::load_keys(registry) {
        Ok(recs) => recs,
        Err(e) => {
            return Err(e);
        },
    };
    let plaintext = buffer::assemble_plaintext(&recs);
    let key = crypto::derive_key(passphrase);
    let iv = crypto::generate_iv();
    let ciphertext = crypto::encrypt_buffer(&key, &iv, &plaintext);
    proof {
        assert(crypto::aes256_cbc_decrypt_of(key@, iv@, ciphertext@) == Some(plaintext@));
    }
    Ok(EncryptedArtifact { iv, ciphertext, plaintext_len: BUFFER_LEN })
}

} // verus!
