//! End-to-end tests of the provisioning pipeline: buffer assembly,
//! key derivation, encryption round trips, and rendering.

use aes::Aes256;
use block_modes::block_padding::Pkcs7;
use block_modes::{BlockMode, Cbc};
use tiny_keccak::Hasher;

use key_encryption::buffer::assemble_plaintext;
use key_encryption::crypto::{decrypt_buffer, derive_key, encrypt_buffer, generate_iv};
use key_encryption::emit::{render_artifact, render_byte_array, render_decimal};
use key_encryption::provision;
use key_encryption::records::{load_keys, SecretRecord};
use key_encryption::{BLOCK_SIZE, BUFFER_LEN, IV_LEN, KEY_LEN, SECRET_LEN};

fn hex_secret(byte: u8) -> String {
    let mut s = String::new();
    for _ in 0..SECRET_LEN {
        s.push_str(&format!("{:02x}", byte));
    }
    s
}

fn keccak256_reference(data: &[u8]) -> Vec<u8> {
    let mut hasher = tiny_keccak::Keccak::v256();
    let mut out = [0u8; 32];
    hasher.update(data);
    hasher.finalize(&mut out);
    out.to_vec()
}

#[test]
fn derived_key_is_deterministic_and_matches_keccak256() {
    let a = derive_key(&b"test".to_vec());
    let b = derive_key(&b"test".to_vec());
    assert_eq!(a, b);
    assert_eq!(a.len(), KEY_LEN);
    assert_eq!(a, keccak256_reference(b"test"));
    let c = derive_key(&b"other".to_vec());
    assert_ne!(a, c);
}

#[test]
fn assembled_buffer_carries_each_secret_at_its_offset() {
    let reg = format!("{},0;{},224", hex_secret(0x11), hex_secret(0x22)).into_bytes();
    let recs = load_keys(&reg).unwrap();
    let buf = assemble_plaintext(&recs);
    assert_eq!(buf.len(), BUFFER_LEN);
    assert_eq!(&buf[0..32], &[0x11u8; 32][..]);
    assert_eq!(&buf[224..256], &[0x22u8; 32][..]);
}

#[test]
fn later_record_wins_where_ranges_overlap() {
    let reg = format!("{},0;{},16", hex_secret(0x11), hex_secret(0x22)).into_bytes();
    let recs = load_keys(&reg).unwrap();
    let buf = assemble_plaintext(&recs);
    assert_eq!(&buf[0..16], &[0x11u8; 16][..]);
    assert_eq!(&buf[16..48], &[0x22u8; 32][..]);
}

#[test]
fn ciphertext_length_is_a_padded_block_multiple() {
    let key = derive_key(&b"test".to_vec());
    let iv = generate_iv();
    let plaintext = vec![0u8; BUFFER_LEN];
    let ct = encrypt_buffer(&key, &iv, &plaintext);
    assert_eq!(ct.len(), BUFFER_LEN + BLOCK_SIZE);
    assert_eq!(ct.len() % BLOCK_SIZE, 0);
    assert!(ct.len() >= plaintext.len());
    let short = vec![7u8; 5];
    let ct2 = encrypt_buffer(&key, &iv, &short);
    assert_eq!(ct2.len(), 16);
    assert_eq!(ct2.len() % BLOCK_SIZE, 0);
    assert!(ct2.len() >= short.len());
}

#[test]
fn encrypt_then_decrypt_recovers_the_plaintext() {
    let key = derive_key(&b"round trip".to_vec());
    let iv = generate_iv();
    let plaintext: Vec<u8> = (0..=255u8).collect();
    let ct = encrypt_buffer(&key, &iv, &plaintext);
    let back = decrypt_buffer(&key, &iv, &ct).unwrap();
    assert_eq!(back, plaintext);
}

#[test]
fn library_cipher_matches_direct_aes_cbc() {
    let key = derive_key(&b"test".to_vec());
    let iv = generate_iv();
    let plaintext = vec![0x5au8; BUFFER_LEN];
    let ct = encrypt_buffer(&key, &iv, &plaintext);
    let direct = Cbc::<Aes256, Pkcs7>::new_from_slices(&key, &iv)
        .unwrap()
        .encrypt_vec(&plaintext);
    assert_eq!(ct, direct);
    let back = Cbc::<Aes256, Pkcs7>::new_from_slices(&key, &iv)
        .unwrap()
        .decrypt_vec(&ct)
        .unwrap();
    assert_eq!(back, plaintext);
}

#[test]
fn decrypt_rejects_a_ciphertext_of_bad_length() {
    let key = derive_key(&b"test".to_vec());
    let iv = generate_iv();
    let ct = vec![0u8; 17];
    assert!(decrypt_buffer(&key, &iv, &ct).is_none());
}

#[test]
fn empty_registry_still_emits_a_full_artifact() {
    let a = provision(&Vec::new(), &b"test".to_vec()).unwrap();
    assert_eq!(a.plaintext_len, BUFFER_LEN);
    assert_eq!(a.iv.len(), IV_LEN);
    assert_eq!(a.ciphertext.len(), BUFFER_LEN + BLOCK_SIZE);
    assert_eq!(render_decimal(a.plaintext_len), b"256".to_vec());
    assert_eq!(render_decimal(a.ciphertext.len()), b"272".to_vec());
    let key = derive_key(&b"test".to_vec());
    let back = decrypt_buffer(&key, &a.iv, &a.ciphertext).unwrap();
    assert_eq!(back.len(), BUFFER_LEN);
}

#[test]
fn provisioned_artifact_decrypts_to_the_placed_secrets() {
    let reg = format!("{},8;{},100", hex_secret(0xaa), hex_secret(0xbb)).into_bytes();
    let a = provision(&reg, &b"pass phrase".to_vec()).unwrap();
    let key = derive_key(&b"pass phrase".to_vec());
    let pt = decrypt_buffer(&key, &a.iv, &a.ciphertext).unwrap();
    assert_eq!(pt.len(), BUFFER_LEN);
    assert_eq!(&pt[8..40], &[0xaau8; 32][..]);
    assert_eq!(&pt[100..132], &[0xbbu8; 32][..]);
}

#[test]
fn two_runs_differ_in_ciphertext_but_agree_on_secrets() {
    let reg = format!("{},64", hex_secret(0xcd)).into_bytes();
    let pass = b"same passphrase".to_vec();
    let a1 = provision(&reg, &pass).unwrap();
    let a2 = provision(&reg, &pass).unwrap();
    assert_ne!(a1.ciphertext, a2.ciphertext);
    let key = derive_key(&pass);
    let p1 = decrypt_buffer(&key, &a1.iv, &a1.ciphertext).unwrap();
    let p2 = decrypt_buffer(&key, &a2.iv, &a2.ciphertext).unwrap();
    assert_eq!(&p1[64..96], &p2[64..96]);
    assert_eq!(&p1[64..96], &[0xcdu8; 32][..]);
    assert_ne!(p1, p2);
}

#[test]
fn rejected_registry_provisions_nothing() {
    let e = provision(&b"abcd,10".to_vec(), &b"test".to_vec()).unwrap_err();
    assert_eq!(
        e,
        key_encryption::records::ConfigError::SecretLength { index: 0, len: 2 }
    );
    let reg = format!("{},230", hex_secret(0x11)).into_bytes();
    let e2 = provision(&reg, &b"test".to_vec()).unwrap_err();
    assert_eq!(
        e2,
        key_encryption::records::ConfigError::OffsetOutOfRange { index: 0, offset: 230 }
    );
}

#[test]
fn rendered_decimal_and_byte_list_match_the_emitted_format() {
    assert_eq!(render_decimal(0), b"0".to_vec());
    assert_eq!(render_decimal(256), b"256".to_vec());
    assert_eq!(render_decimal(1000), b"1000".to_vec());
    assert_eq!(render_byte_array(&Vec::new()), b"{}".to_vec());
    assert_eq!(render_byte_array(&vec![0x00]), b"{0x00}".to_vec());
    assert_eq!(
        render_byte_array(&vec![0x00, 0x0f, 0xff]),
        b"{0x00, 0x0f, 0xff}".to_vec()
    );
}

#[test]
fn rendered_output_matches_reference_formatting() {
    let iv = generate_iv();
    let rendered = String::from_utf8(render_byte_array(&iv)).unwrap();
    let expected: Vec<String> = iv.iter().map(|b| format!("0x{:02x}", b)).collect();
    assert_eq!(rendered, format!("{{{}}}", expected.join(", ")));
}

#[test]
fn rendered_artifact_is_the_exact_four_line_text() {
    let a = provision(&Vec::new(), &b"test".to_vec()).unwrap();
    let rendered = String::from_utf8(render_artifact(&a)).unwrap();
    let iv: Vec<String> = a.iv.iter().map(|b| format!("0x{:02x}", b)).collect();
    let ct: Vec<String> = a.ciphertext.iter().map(|b| format!("0x{:02x}", b)).collect();
    let expected = format!(
        "#define DECRYPTED_DATA_LEN 256\n#define ENCRYPTED_DATA_LEN 272\n#define AES_IV_INITIALIZER {{{}}}\n#define ENCRYPTED_DATA_INITIALIZER {{{}}}\n",
        iv.join(", "),
        ct.join(", ")
    );
    assert_eq!(rendered, expected);
}

#[test]
fn secret_record_fields_are_plain_values() {
    let rec = SecretRecord { secret: vec![1u8; 32], offset: 3 };
    assert_eq!(rec.secret.len(), 32);
    assert_eq!(rec.offset, 3);
}
