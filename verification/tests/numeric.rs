use reserve_ingest::numeric::{bytes_to_hex_prefixed, parse_dec_u64, parse_hex_u64, u128_to_dec};

#[test]
fn decimal_rendering() {
    assert_eq!(u128_to_dec(0), b"0".to_vec());
    assert_eq!(u128_to_dec(7), b"7".to_vec());
    assert_eq!(u128_to_dec(105), b"105".to_vec());
    assert_eq!(
        u128_to_dec(u128::MAX),
        b"340282366920938463463374607431768211455".to_vec()
    );
}

#[test]
fn decimal_parsing() {
    assert_eq!(parse_dec_u64(b"0"), Some(0));
    assert_eq!(parse_dec_u64(b"007"), Some(7));
    assert_eq!(parse_dec_u64(b"18446744073709551615"), Some(u64::MAX));
    assert_eq!(parse_dec_u64(b"18446744073709551616"), None);
    assert_eq!(parse_dec_u64(b""), None);
    assert_eq!(parse_dec_u64(b"12a3"), None);
    assert_eq!(parse_dec_u64(b"-4"), None);
}

#[test]
fn hex_parsing() {
    assert_eq!(parse_hex_u64(b"0x69"), Some(105));
    assert_eq!(parse_hex_u64(b"69"), Some(105));
    assert_eq!(parse_hex_u64(b"0xFF"), Some(255));
    assert_eq!(parse_hex_u64(b"0xdeadBEEF"), Some(0xdead_beef));
    assert_eq!(parse_hex_u64(b"0xffffffffffffffff"), Some(u64::MAX));
    assert_eq!(parse_hex_u64(b"0x10000000000000000"), None);
    assert_eq!(parse_hex_u64(b"0x"), None);
    assert_eq!(parse_hex_u64(b""), None);
    assert_eq!(parse_hex_u64(b"0xzz"), None);
}

#[test]
fn hex_rendering() {
    assert_eq!(bytes_to_hex_prefixed(&[]), b"0x".to_vec());
    assert_eq!(bytes_to_hex_prefixed(&[0xde, 0xad, 0x01]), b"0xdead01".to_vec());
}
