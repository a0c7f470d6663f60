use aura::text::{
    parse_dec_u8, parse_hex_u32, split_bytes, starts_with_bytes, trim_ascii, truncate_at_nul,
};

#[test]
fn prefix_test_on_bytes() {
    assert!(starts_with_bytes(&b"i2c-3".to_vec(), &b"i2c-".to_vec()));
    assert!(starts_with_bytes(&b"abc".to_vec(), &b"".to_vec()));
    assert!(!starts_with_bytes(&b"i2c".to_vec(), &b"i2c-".to_vec()));
    assert!(!starts_with_bytes(&b"usb-1".to_vec(), &b"i2c-".to_vec()));
}

#[test]
fn nul_truncation_cuts_at_first_nul() {
    let block = b"AUMA0\0junk".to_vec();
    assert_eq!(truncate_at_nul(&block), b"AUMA0".to_vec());
}

#[test]
fn nul_truncation_keeps_block_without_nul() {
    let block = b"AUMA0-E6K5".to_vec();
    assert_eq!(truncate_at_nul(&block), block);
}

#[test]
fn nul_truncation_of_leading_nul_is_empty() {
    assert_eq!(truncate_at_nul(&b"\0abc".to_vec()), Vec::<u8>::new());
    assert_eq!(truncate_at_nul(&Vec::new()), Vec::<u8>::new());
}

#[test]
fn trim_removes_surrounding_whitespace() {
    assert_eq!(trim_ascii(&b"  0c0500\n".to_vec()), b"0c0500".to_vec());
    assert_eq!(trim_ascii(&b"\t\r\n ".to_vec()), Vec::<u8>::new());
    assert_eq!(trim_ascii(&b"port 0".to_vec()), b"port 0".to_vec());
    assert_eq!(trim_ascii(&Vec::new()), Vec::<u8>::new());
}

#[test]
fn split_keeps_every_piece_in_order() {
    let pieces = split_bytes(&b"SMBus PIIX4 adapter port 0 at 0b00".to_vec(), b' ');
    let expected: Vec<Vec<u8>> = vec![
        b"SMBus".to_vec(),
        b"PIIX4".to_vec(),
        b"adapter".to_vec(),
        b"port".to_vec(),
        b"0".to_vec(),
        b"at".to_vec(),
        b"0b00".to_vec(),
    ];
    assert_eq!(pieces, expected);
}

#[test]
fn split_yields_empty_pieces_for_adjacent_separators() {
    let pieces = split_bytes(&b"a  b ".to_vec(), b' ');
    let expected: Vec<Vec<u8>> = vec![b"a".to_vec(), b"".to_vec(), b"b".to_vec(), b"".to_vec()];
    assert_eq!(pieces, expected);
    assert_eq!(split_bytes(&Vec::new(), b' '), vec![Vec::<u8>::new()]);
}

#[test]
fn hex_parsing_exact_values() {
    assert_eq!(parse_hex_u32(&b"0c0500".to_vec()), Some(0x000C0500));
    assert_eq!(parse_hex_u32(&b"0B00".to_vec()), Some(0xB00));
    assert_eq!(parse_hex_u32(&b"ffffffff".to_vec()), Some(u32::MAX));
    assert_eq!(parse_hex_u32(&b"0".to_vec()), Some(0));
}

#[test]
fn hex_parsing_rejects_bad_input() {
    assert_eq!(parse_hex_u32(&b"".to_vec()), None);
    assert_eq!(parse_hex_u32(&b"0x10".to_vec()), None);
    assert_eq!(parse_hex_u32(&b"12g4".to_vec()), None);
    assert_eq!(parse_hex_u32(&b"100000000".to_vec()), None);
}

#[test]
fn dec_parsing_exact_values() {
    assert_eq!(parse_dec_u8(&b"0".to_vec()), Some(0));
    assert_eq!(parse_dec_u8(&b"7".to_vec()), Some(7));
    assert_eq!(parse_dec_u8(&b"255".to_vec()), Some(255));
}

#[test]
fn dec_parsing_rejects_bad_input() {
    assert_eq!(parse_dec_u8(&b"".to_vec()), None);
    assert_eq!(parse_dec_u8(&b"256".to_vec()), None);
    assert_eq!(parse_dec_u8(&b"1a".to_vec()), None);
    assert_eq!(parse_dec_u8(&b"-1".to_vec()), None);
}
