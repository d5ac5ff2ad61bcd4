use pleme_core::Money;
use pleme_core::checksum::crc16_ccitt;
use pleme_core::pix::{validate_pix_key, build_pix_payload, qr_image_base64, PixCharge, PixKeyType};

#[test]
fn test_pix_key_validation() {
    // A CPF key must pass the full CPF validator; 123.456.789-00 fails its
    // second check digit.
    assert!(validate_pix_key("123.456.789-00", PixKeyType::Cpf).is_err());
    assert!(validate_pix_key("111.444.777-35", PixKeyType::Cpf).is_ok());
    assert!(validate_pix_key("invalid-cpf", PixKeyType::Cpf).is_err());

    // Test email validation
    assert!(validate_pix_key("user@example.com", PixKeyType::Email).is_ok());
    assert!(validate_pix_key("invalid-email", PixKeyType::Email).is_err());

    // Test phone validation
    assert!(validate_pix_key("11987654321", PixKeyType::Phone).is_ok());
    assert!(validate_pix_key("123", PixKeyType::Phone).is_err());
}

#[test]
fn test_pix_key_validation_cnpj_and_random() {
    assert!(validate_pix_key("11.222.333/0001-81", PixKeyType::Cnpj).is_ok());
    assert!(validate_pix_key("11.222.333/0001-80", PixKeyType::Cnpj).is_err());
    // A random (EVP) key is exactly 32 opaque bytes.
    assert!(validate_pix_key("0123456789abcdef0123456789abcdef", PixKeyType::Random).is_ok());
    assert!(validate_pix_key("0123456789abcdef", PixKeyType::Random).is_err());
}

#[test]
fn test_qr_payload_layout() {
    let payload = build_pix_payload("11144477735", Money::from_cents(1000), "Loja", "TX123");
    let expected_base =
        "00020101021226330014BR.GOV.BCB.PIX011111144477735520400005303986540510.005802BR5904Loja62090505TX1236304";
    assert_eq!(&payload[..payload.len() - 4], expected_base);
    assert_eq!(payload.len(), expected_base.len() + 4);
}

#[test]
fn test_qr_payload_crc_self_consistency() {
    let payload = build_pix_payload(
        "user@example.com",
        Money::from_cents(123456),
        "Pleme Tecnologia Ltda",
        "ABCDEF0123456789ABCDEF012",
    );
    // Re-running the CRC over the payload up to and including "6304" must
    // reproduce the four trailing hexadecimal digits.
    let split = payload.len() - 4;
    let crc = crc16_ccitt(payload[..split].as_bytes());
    let rendered = format!("{:04X}", crc);
    assert_eq!(&payload[split..], rendered);
    assert!(payload[..split].ends_with("6304"));
}

#[test]
fn test_qr_payload_merchant_truncation() {
    let long_name = "A merchant name far beyond the twenty-five byte cap";
    let payload = build_pix_payload("11144477735", Money::from_cents(100), long_name, "T1");
    // Field 59 carries exactly 25 bytes of the name.
    assert!(payload.contains("5925A merchant name far beyon6"));
}

#[test]
fn test_charge_payload_with_fixed_txid() {
    let charge = PixCharge {
        pix_key: "11144477735".to_string(),
        pix_key_type: PixKeyType::Cpf,
        amount: Money::from_cents(5000),
        merchant_name: "Loja".to_string(),
        end_to_end_id: Some("TX123".to_string()),
        expires_at: 1_700_000_000,
    };
    assert!(charge.validate_key().is_ok());
    let payload = charge.generate_qr_payload();
    assert_eq!(
        payload,
        build_pix_payload("11144477735", Money::from_cents(5000), "Loja", "TX123"),
    );
    assert!(!charge.is_expired(1_699_999_999));
    assert!(charge.is_expired(1_700_000_001));
}

#[test]
fn test_charge_payload_with_random_txid() {
    let charge = PixCharge {
        pix_key: "user@example.com".to_string(),
        pix_key_type: PixKeyType::Email,
        amount: Money::from_cents(100),
        merchant_name: "Loja".to_string(),
        end_to_end_id: None,
        expires_at: 0,
    };
    let payload = charge.generate_qr_payload();
    // The default transaction id is 25 characters, so field 62 reads 6229 0525.
    assert!(payload.contains("62290525"));
    let split = payload.len() - 4;
    let crc = crc16_ccitt(payload[..split].as_bytes());
    assert_eq!(&payload[split..], format!("{:04X}", crc));
}

#[test]
fn test_payload_accepts_accented_merchant() {
    // A merchant name with accents, shorter than 25 bytes: carried whole.
    let payload = build_pix_payload(
        "11144477735",
        Money::from_cents(1000),
        "São João Lanches",
        "TX123",
    );
    assert!(payload.contains("5918São João Lanches"));
    let split = payload.len() - 4;
    let crc = crc16_ccitt(payload[..split].as_bytes());
    assert_eq!(&payload[split..], format!("{:04X}", crc));
}

#[test]
fn test_payload_truncates_accented_merchant_at_boundary() {
    // 27 bytes; byte 25 falls on a character boundary, so the field keeps
    // the first 25 bytes.
    let name = "Mercearia União Brasileira";
    assert_eq!(name.len(), 27);
    assert!(name.is_char_boundary(25));
    let payload = build_pix_payload("11144477735", Money::from_cents(1000), name, "TX123");
    assert!(payload.contains("5925Mercearia União Brasilei"));
}

#[test]
fn test_qr_image_is_png() {
    let payload = build_pix_payload("11144477735", Money::from_cents(1000), "Loja", "TX123");
    let image = qr_image_base64(&payload).unwrap();
    // The base64 of a PNG always opens with the encoded PNG signature.
    assert!(image.starts_with("iVBOR"));
    assert!(image.len() > 100);
}
