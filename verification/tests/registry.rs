//! Tests of the key registry loader: accepted registries, skipped blanks,
//! and each rejection with the entry index it names.

use key_encryption::records::{load_keys, ConfigError};
use key_encryption::SECRET_LEN;

fn hex_secret(byte: u8) -> String {
    let mut s = String::new();
    for _ in 0..SECRET_LEN {
        s.push_str(&format!("{:02x}", byte));
    }
    s
}

#[test]
fn empty_registry_yields_no_records() {
    let r = load_keys(&Vec::new()).unwrap();
    assert_eq!(r.len(), 0);
}

#[test]
fn whitespace_only_entries_are_skipped() {
    let reg = b"  ;\t; ".to_vec();
    let r = load_keys(&reg).unwrap();
    assert_eq!(r.len(), 0);
}

#[test]
fn one_valid_entry() {
    let reg = format!("{},10", hex_secret(0xab)).into_bytes();
    let r = load_keys(&reg).unwrap();
    assert_eq!(r.len(), 1);
    assert_eq!(r[0].offset, 10);
    assert_eq!(r[0].secret, vec![0xab; 32]);
}

#[test]
fn prefix_0x_is_stripped() {
    let reg = format!("0x{},0", hex_secret(0x5c)).into_bytes();
    let r = load_keys(&reg).unwrap();
    assert_eq!(r[0].secret, vec![0x5c; 32]);
}

#[test]
fn uppercase_hex_is_accepted() {
    let reg = format!("{},0", hex_secret(0xab).to_uppercase()).into_bytes();
    let r = load_keys(&reg).unwrap();
    assert_eq!(r[0].secret, vec![0xab; 32]);
}

#[test]
fn fields_are_trimmed() {
    let reg = format!("  {} , 42 ", hex_secret(0x01)).into_bytes();
    let r = load_keys(&reg).unwrap();
    assert_eq!(r[0].offset, 42);
}

#[test]
fn two_entries_in_order() {
    let reg = format!("{},0;{},128", hex_secret(0x11), hex_secret(0x22)).into_bytes();
    let r = load_keys(&reg).unwrap();
    assert_eq!(r.len(), 2);
    assert_eq!(r[0].offset, 0);
    assert_eq!(r[1].offset, 128);
    assert_eq!(r[0].secret, vec![0x11; 32]);
    assert_eq!(r[1].secret, vec![0x22; 32]);
}

#[test]
fn short_hex_is_rejected_naming_index_zero() {
    let reg = b"abcd,10".to_vec();
    let e = load_keys(&reg).unwrap_err();
    assert_eq!(e, ConfigError::SecretLength { index: 0, len: 2 });
}

#[test]
fn odd_length_hex_is_rejected() {
    let reg = b"abc,10".to_vec();
    let e = load_keys(&reg).unwrap_err();
    assert_eq!(e, ConfigError::InvalidHex { index: 0 });
}

#[test]
fn non_hex_bytes_are_rejected() {
    let mut s = hex_secret(0x11);
    s.replace_range(0..2, "zz");
    let reg = format!("{},10", s).into_bytes();
    let e = load_keys(&reg).unwrap_err();
    assert_eq!(e, ConfigError::InvalidHex { index: 0 });
}

#[test]
fn wrong_field_count_is_rejected() {
    let reg = format!("{},1,2", hex_secret(0x11)).into_bytes();
    let e = load_keys(&reg).unwrap_err();
    assert_eq!(e, ConfigError::FieldCount { index: 0 });
}

#[test]
fn missing_offset_field_is_rejected() {
    let reg = hex_secret(0x11).into_bytes();
    let e = load_keys(&reg).unwrap_err();
    assert_eq!(e, ConfigError::FieldCount { index: 0 });
}

#[test]
fn unparsable_offset_is_rejected() {
    let reg = format!("{},ten", hex_secret(0x11)).into_bytes();
    let e = load_keys(&reg).unwrap_err();
    assert_eq!(e, ConfigError::InvalidOffset { index: 0 });
}

#[test]
fn huge_offset_numeral_is_rejected() {
    let reg = format!("{},99999999999999999999999999999", hex_secret(0x11)).into_bytes();
    let e = load_keys(&reg).unwrap_err();
    assert_eq!(e, ConfigError::InvalidOffset { index: 0 });
}

#[test]
fn offset_past_buffer_end_is_rejected() {
    let reg = format!("{},230", hex_secret(0x11)).into_bytes();
    let e = load_keys(&reg).unwrap_err();
    assert_eq!(e, ConfigError::OffsetOutOfRange { index: 0, offset: 230 });
}

#[test]
fn largest_valid_offset_is_accepted() {
    let reg = format!("{},224", hex_secret(0x11)).into_bytes();
    let r = load_keys(&reg).unwrap();
    assert_eq!(r[0].offset, 224);
}

#[test]
fn smallest_invalid_offset_is_rejected() {
    let reg = format!("{},225", hex_secret(0x11)).into_bytes();
    let e = load_keys(&reg).unwrap_err();
    assert_eq!(e, ConfigError::OffsetOutOfRange { index: 0, offset: 225 });
}

#[test]
fn error_index_counts_blank_and_valid_entries() {
    let reg = format!("{},0; ;abcd,10", hex_secret(0x11)).into_bytes();
    let e = load_keys(&reg).unwrap_err();
    assert_eq!(e, ConfigError::SecretLength { index: 2, len: 2 });
}
