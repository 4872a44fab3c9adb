use iban_calculator::util::{
    digest_matches, hex_digit, hex_pair, m_proef, sha1_hex_to_bytes, valid_hash, valid_hash_fast,
    write_decimal,
};

const SHA1_OF_123: [u8; 20] = [
    0x40, 0xbd, 0x00, 0x15, 0x63, 0x08, 0x5f, 0xc3, 0x51, 0x65, 0x32, 0x9e, 0xa1, 0xff, 0x5c, 0x5e,
    0xcb, 0xdb, 0xbe, 0xef,
];

const SHA1_OF_0: [u8; 20] = [
    0xb6, 0x58, 0x9f, 0xc6, 0xab, 0x0d, 0xc8, 0x2c, 0xf1, 0x20, 0x99, 0xd1, 0xc2, 0xd4, 0x0a, 0xb9,
    0x94, 0xe8, 0x41, 0x0c,
];

#[test]
fn m_proef_weights_digits_from_the_right() {
    // 11 -> 1*1 + 1*2 = 3
    assert!(m_proef(11, 3));
    assert!(!m_proef(11, 11));
    // 274 -> 4*1 + 7*2 + 2*3 = 24
    assert!(m_proef(274, 24));
    assert!(m_proef(274, 8));
    assert!(!m_proef(274, 5));
}

#[test]
fn m_proef_of_zero_passes_every_modulus() {
    assert!(m_proef(0, 1));
    assert!(m_proef(0, 11));
    assert!(m_proef(0, u32::MAX));
}

#[test]
fn m_proef_with_modulus_one_passes_everything() {
    for x in [0u32, 1, 9, 10, 99, 12345, u32::MAX] {
        assert!(m_proef(x, 1));
    }
}

#[test]
fn m_proef_of_the_largest_number() {
    // 4294967295: 5*1 + 9*2 + 2*3 + 7*4 + 6*5 + 9*6 + 4*7 + 9*8 + 2*9 + 4*10 = 299
    assert!(m_proef(u32::MAX, 299));
    assert!(m_proef(u32::MAX, 13));
    assert!(m_proef(u32::MAX, 23));
    assert!(!m_proef(u32::MAX, 2));
    assert!(!m_proef(u32::MAX, 300));
}

#[test]
fn write_decimal_appends_the_numeral() {
    let mut buffer: Vec<u8> = Vec::new();
    write_decimal(&mut buffer, 0);
    assert_eq!(buffer, b"0".to_vec());
    write_decimal(&mut buffer, 7);
    assert_eq!(buffer, b"07".to_vec());
    write_decimal(&mut buffer, 1203);
    assert_eq!(buffer, b"071203".to_vec());
    buffer.clear();
    write_decimal(&mut buffer, u32::MAX);
    assert_eq!(buffer, b"4294967295".to_vec());
    buffer.clear();
    write_decimal(&mut buffer, 1_000_000_000);
    assert_eq!(buffer, b"1000000000".to_vec());
}

#[test]
fn valid_hash_hashes_the_decimal_numeral() {
    assert!(valid_hash(123, &SHA1_OF_123));
    assert!(valid_hash(0, &SHA1_OF_0));
    assert!(!valid_hash(124, &SHA1_OF_123));
    assert!(!valid_hash(123, &SHA1_OF_0));
    assert!(!valid_hash(123, &[0u8; 20]));
}

#[test]
fn valid_hash_fast_discards_what_buffer_and_hasher_held() {
    let mut buffer: Vec<u8> = b"left over".to_vec();
    let mut hasher = sha1::Sha1::new();
    hasher.update(b"fed before");
    assert!(valid_hash_fast(123, &SHA1_OF_123, &mut buffer, &mut hasher));
    assert_eq!(buffer, b"123".to_vec());
    assert!(valid_hash_fast(0, &SHA1_OF_0, &mut buffer, &mut hasher));
    assert_eq!(buffer, b"0".to_vec());
    assert!(!valid_hash_fast(1, &SHA1_OF_0, &mut buffer, &mut hasher));
    assert_eq!(buffer, b"1".to_vec());
}

#[test]
fn valid_hash_agrees_with_the_hasher_on_a_sweep() {
    for x in [1u32, 9, 10, 99, 100, 65535, 4000000000] {
        let expected = sha1::Sha1::from(format!("{}", x)).digest().bytes();
        assert!(valid_hash(x, &expected));
        let mut other = expected;
        other[19] ^= 1;
        assert!(!valid_hash(x, &other));
    }
}

#[test]
fn digest_matches_compares_every_byte() {
    assert!(digest_matches(&SHA1_OF_123, &SHA1_OF_123));
    assert!(!digest_matches(&SHA1_OF_123, &SHA1_OF_0));
    let mut last_differs = SHA1_OF_123;
    last_differs[19] = 0xee;
    assert!(!digest_matches(&SHA1_OF_123, &last_differs));
    let mut first_differs = SHA1_OF_123;
    first_differs[0] = 0x41;
    assert!(!digest_matches(&first_differs, &SHA1_OF_123));
}

#[test]
fn hex_digit_reads_both_cases() {
    assert_eq!(hex_digit(b'0'), Some(0));
    assert_eq!(hex_digit(b'9'), Some(9));
    assert_eq!(hex_digit(b'a'), Some(10));
    assert_eq!(hex_digit(b'f'), Some(15));
    assert_eq!(hex_digit(b'A'), Some(10));
    assert_eq!(hex_digit(b'F'), Some(15));
    assert_eq!(hex_digit(b'g'), None);
    assert_eq!(hex_digit(b'G'), None);
    assert_eq!(hex_digit(b'/'), None);
    assert_eq!(hex_digit(b':'), None);
    assert_eq!(hex_digit(b'@'), None);
    assert_eq!(hex_digit(b'`'), None);
    assert_eq!(hex_digit(b' '), None);
    assert_eq!(hex_digit(0xc3), None);
}

#[test]
fn hex_pair_reads_a_byte() {
    assert_eq!(hex_pair(b'0', b'0'), Some(0));
    assert_eq!(hex_pair(b'f', b'f'), Some(255));
    assert_eq!(hex_pair(b'4', b'0'), Some(0x40));
    assert_eq!(hex_pair(b'b', b'D'), Some(0xbd));
    assert_eq!(hex_pair(b'+', b'a'), Some(10));
    assert_eq!(hex_pair(b'+', b'+'), None);
    assert_eq!(hex_pair(b'a', b'+'), None);
    assert_eq!(hex_pair(b'-', b'1'), None);
    assert_eq!(hex_pair(b'x', b'1'), None);
    assert_eq!(hex_pair(b'1', b'x'), None);
}

#[test]
fn sha1_hex_to_bytes_reads_forty_characters() {
    let read = sha1_hex_to_bytes("40bd001563085fc35165329ea1ff5c5ecbdbbeef");
    assert_eq!(read, Some(Box::new(SHA1_OF_123)));
    let upper = sha1_hex_to_bytes("40BD001563085FC35165329EA1FF5C5ECBDBBEEF");
    assert_eq!(upper, Some(Box::new(SHA1_OF_123)));
    let zeros = sha1_hex_to_bytes("0000000000000000000000000000000000000000");
    assert_eq!(zeros, Some(Box::new([0u8; 20])));
}

#[test]
fn sha1_hex_to_bytes_turns_other_lengths_away() {
    assert_eq!(sha1_hex_to_bytes(""), None);
    assert_eq!(sha1_hex_to_bytes("40bd001563085fc35165329ea1ff5c5ecbdbbee"), None);
    assert_eq!(sha1_hex_to_bytes("40bd001563085fc35165329ea1ff5c5ecbdbbeef0"), None);
    assert_eq!(sha1_hex_to_bytes("40bd"), None);
}

#[test]
fn sha1_hex_to_bytes_turns_other_characters_away() {
    assert_eq!(sha1_hex_to_bytes("40bd001563085fc35165329ea1ff5c5ecbdbbeeg"), None);
    assert_eq!(sha1_hex_to_bytes("x0bd001563085fc35165329ea1ff5c5ecbdbbeef"), None);
    assert_eq!(sha1_hex_to_bytes("40bd001563085fc35165 29ea1ff5c5ecbdbbeef"), None);
    assert_eq!(sha1_hex_to_bytes("-0bd001563085fc35165329ea1ff5c5ecbdbbeef"), None);
    // Forty bytes, of which two are one character outside ASCII.
    assert_eq!(sha1_hex_to_bytes("\u{e9}bd001563085fc35165329ea1ff5c5ecbdbbeef"), None);
}

#[test]
fn sha1_hex_to_bytes_takes_a_sign_for_a_digit_as_the_integer_parser_does() {
    let read = sha1_hex_to_bytes("+0bd001563085fc35165329ea1ff5c5ecbdbbeef");
    let mut expected = SHA1_OF_123;
    expected[0] = 0;
    assert_eq!(read, Some(Box::new(expected)));
    assert_eq!(sha1_hex_to_bytes("4+bd001563085fc35165329ea1ff5c5ecbdbbeef"), None);
}
