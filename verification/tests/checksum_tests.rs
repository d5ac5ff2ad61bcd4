use pleme_core::checksum::{crc16_ccitt, hex4_upper, mod11_check, ean13_check_digit, boleto_dv, to_hex_lower};

#[test]
fn test_crc16_known_vector() {
    // The standard CRC16/CCITT-FALSE check value for "123456789".
    let crc = crc16_ccitt("123456789".as_bytes());
    assert_eq!(crc, 0x29B1);
}

#[test]
fn test_crc16_empty_is_initial() {
    assert_eq!(crc16_ccitt(&[]), 0xFFFF);
}

#[test]
fn test_hex4_upper_rendering() {
    assert_eq!(hex4_upper(0x29B1), vec![b'2', b'9', b'B', b'1']);
    assert_eq!(hex4_upper(0x000A), vec![b'0', b'0', b'0', b'A']);
    assert_eq!(hex4_upper(0xFFFF), vec![b'F', b'F', b'F', b'F']);
}

#[test]
fn test_mod11_check_digit() {
    // Remainders 0 and 1 collapse to 0.
    assert_eq!(mod11_check(0), 0);
    assert_eq!(mod11_check(11), 0);
    assert_eq!(mod11_check(12), 0);
    // Otherwise 11 - remainder.
    assert_eq!(mod11_check(13), 9);
    assert_eq!(mod11_check(162), 3); // first check digit of 111.444.777-35
    assert_eq!(mod11_check(204), 5); // second check digit of 111.444.777-35
}

#[test]
fn test_ean13_check_digit() {
    // 4006381333931 is a published EAN-13; its first 12 digits yield 1.
    assert_eq!(ean13_check_digit("400638133393".as_bytes()), 1);
    // Non-digit bytes are ignored.
    assert_eq!(ean13_check_digit("4006-3813-3393".as_bytes()), 1);
}

#[test]
fn test_boleto_dv() {
    // Digits 1234 right to left weigh 2,3,4,5: 8+9+8+5 = 30, 30 % 11 = 8,
    // so the verification digit is 3.
    assert_eq!(boleto_dv("1234".as_bytes()), 3);
    // Remainders 0 and 1 collapse to 0: "18" gives 8*2+1*3 = 19, 19 % 11 = 8 -> 3;
    // "29" gives 9*2+2*3 = 24, 24 % 11 = 2 -> 9.
    assert_eq!(boleto_dv("29".as_bytes()), 9);
    assert_eq!(boleto_dv("".as_bytes()), 0);
}

#[test]
fn test_hex_lower() {
    assert_eq!(to_hex_lower(&[0xBE, 0xEF]), vec![b'b', b'e', b'e', b'f']);
    assert_eq!(to_hex_lower(&[0x00, 0x1A]), vec![b'0', b'0', b'1', b'a']);
}
