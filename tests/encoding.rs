use quartz::encoding::{bin_meets_difficulty, hex_meets_difficulty, to_bin, to_hex};

fn digest_with(prefix: &[u8]) -> [u8; 32] {
    let mut d = [0u8; 32];
    d[..prefix.len()].copy_from_slice(prefix);
    d
}

#[test]
fn hex_writes_each_byte_without_padding() {
    let d = digest_with(&[0x00, 0x0f, 0xab, 0x10]);
    let expected = format!("0fab10{}", "0".repeat(28));
    assert_eq!(to_hex(&d), expected);
}

#[test]
fn bin_writes_each_byte_without_padding() {
    let d = digest_with(&[5, 255, 128]);
    let expected = format!("10111111111{}{}", "10000000", "0".repeat(29));
    assert_eq!(to_bin(&d), expected);
}

#[test]
fn all_zero_digest_encodings() {
    let d = [0u8; 32];
    assert_eq!(to_hex(&d), "0".repeat(32));
    assert_eq!(to_bin(&d), "0".repeat(32));
}

#[test]
fn difficulty_needs_two_zero_bytes() {
    assert!(hex_meets_difficulty(&digest_with(&[0, 0, 7])));
    assert!(bin_meets_difficulty(&digest_with(&[0, 0, 7])));
    assert!(!hex_meets_difficulty(&digest_with(&[0, 1])));
    assert!(!bin_meets_difficulty(&digest_with(&[0, 1])));
    assert!(!hex_meets_difficulty(&digest_with(&[1, 0])));
    assert!(!bin_meets_difficulty(&digest_with(&[1, 0])));
    // byte 0x0f: hex "f", so "0f..." has no "00" prefix.
    assert!(!hex_meets_difficulty(&digest_with(&[0, 0x0f])));
}

#[test]
fn difficulty_agrees_with_text_prefix() {
    for b0 in [0u8, 1, 9, 16, 200] {
        for b1 in [0u8, 1, 15, 16, 255] {
            let d = digest_with(&[b0, b1]);
            assert_eq!(hex_meets_difficulty(&d), to_hex(&d).starts_with("00"));
            assert_eq!(bin_meets_difficulty(&d), to_bin(&d).starts_with("00"));
            assert_eq!(hex_meets_difficulty(&d), bin_meets_difficulty(&d));
        }
    }
}
