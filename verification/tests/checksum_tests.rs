use ctmp_relay::checksum::compute_checksum;
use ctmp_relay::header::Header;

fn header_with_checksum(options: u8, length: u16, checksum: u16) -> Header {
    let len_bytes = [(length >> 8) as u8, (length & 0xFF) as u8];
    let sum_bytes = [(checksum >> 8) as u8, (checksum & 0xFF) as u8];
    Header::from_bytes(&[
        0xCC,
        options,
        len_bytes[0],
        len_bytes[1],
        sum_bytes[0],
        sum_bytes[1],
        0x00,
        0x00,
    ])
}

#[test]
fn empty_payload_exact_value() {
    // word(0xCC, 0x40) + 0 + 0xCCCC = 0x1990C; folds to 0x990D;
    // complement 0x66F2.
    assert_eq!(compute_checksum(0xCC, 0x40, 0, &[]), 0x66F2);
}

#[test]
fn odd_payload_is_padded_with_zero_low_byte() {
    // Seed 0xCC40 + 1 + 0xCCCC = 0x1990D; word 0xAB00 gives 0x2440D;
    // folds to 0x440F; complement 0xBBF0.
    assert_eq!(compute_checksum(0xCC, 0x40, 1, &[0xAB]), 0xBBF0);
}

#[test]
fn accumulator_folds_until_sixteen_bits() {
    // Seed 0xCCCC plus words 0xFFFF and 0x3334 totals 0x1FFFF, which
    // folds twice: to 0x10000, then to 0x1; complement 0xFFFE.
    assert_eq!(compute_checksum(0x00, 0x00, 0, &[0xFF, 0xFF, 0x33, 0x34]), 0xFFFE);
}

#[test]
fn round_trip_verifies() {
    let payload = b"hello";
    let checksum = compute_checksum(0xCC, 0x40, payload.len() as u16, payload);
    let h = header_with_checksum(0x40, payload.len() as u16, checksum);
    assert!(h.validate_checksum(payload));
}

#[test]
fn round_trip_verifies_empty_and_odd_payloads() {
    for payload in [&b""[..], &b"a"[..], &b"abc"[..], &b"abcd"[..]] {
        let checksum = compute_checksum(0xCC, 0x40, payload.len() as u16, payload);
        let h = header_with_checksum(0x40, payload.len() as u16, checksum);
        assert!(h.validate_checksum(payload));
    }
}

#[test]
fn wrong_checksum_fails() {
    let payload = b"hello";
    let checksum = compute_checksum(0xCC, 0x40, payload.len() as u16, payload);
    let h = header_with_checksum(0x40, payload.len() as u16, checksum ^ 1);
    assert!(!h.validate_checksum(payload));
}

#[test]
fn single_bit_flip_changes_checksum() {
    let payload = b"hello world".to_vec();
    let original = compute_checksum(0xCC, 0x40, payload.len() as u16, &payload);
    for i in 0..payload.len() {
        for bit in 0..8 {
            let mut corrupted = payload.clone();
            corrupted[i] ^= 1 << bit;
            let changed = compute_checksum(0xCC, 0x40, corrupted.len() as u16, &corrupted);
            assert_ne!(original, changed);
        }
    }
}

#[test]
fn corrupted_payload_fails_verification() {
    let payload = b"sensitive data";
    let checksum = compute_checksum(0xCC, 0x40, payload.len() as u16, payload);
    let h = header_with_checksum(0x40, payload.len() as u16, checksum);
    let mut corrupted = payload.to_vec();
    corrupted[3] ^= 0x10;
    assert!(!h.validate_checksum(&corrupted));
}
