use pleme_core::external::{ClockReading, clock_now, uuid_simple, random_below, sao_paulo_hour};
use pleme_core::graphql::rust_to_graphql_type;
use pleme_core::identifiers::{
    format_identifier, format_order_number, format_invoice_number, format_tracking_code,
    format_sku, format_barcode, generate_identifier, generate_order_number,
    generate_invoice_number, generate_sku, generate_barcode, generate_short_code,
    generate_tracking_code, generate_transaction_id, generate_nfe_key, generate_customer_code,
    parse_identifier, is_valid_identifier,
};

fn sample_clock() -> ClockReading {
    ClockReading {
        epoch_secs: 1_709_600_000,
        year: 2024,
        month: 3,
        day: 5,
        hour: 1,
        minute: 2,
        second: 3,
    }
}

#[test]
fn test_format_identifier() {
    let c = sample_clock();
    let suffix = vec![b'A', b'B', b'C', b'1'];
    assert_eq!(format_identifier("ORD", &c, &suffix), "ORD-20240305010203-ABC1");
}

#[test]
fn test_format_order_number() {
    assert_eq!(format_order_number(&sample_clock(), 42), "PED-202403050042");
    assert_eq!(format_order_number(&sample_clock(), 9_999), "PED-202403059999");
}

#[test]
fn test_format_invoice_number() {
    assert_eq!(format_invoice_number(&sample_clock(), 123), "NF-202403-000123");
}

#[test]
fn test_format_tracking_code() {
    let idx: Vec<u8> = (0..16).collect();
    assert_eq!(format_tracking_code(&idx), "BR-ABCD-EFGH-JKLM-NPQR");
    let idx2: Vec<u8> = vec![31; 16];
    assert_eq!(format_tracking_code(&idx2), "BR-9999-9999-9999-9999");
}

#[test]
fn test_format_sku() {
    assert_eq!(format_sku("book", &sample_clock(), 7), "BOOK-240300007");
}

#[test]
fn test_format_barcode() {
    // Digits 789123400678 with alternating 1x/3x weights sum to 107, so the
    // check digit is 3.
    assert_eq!(format_barcode("789", "1234", 678), "7891234006783");
}

#[test]
fn test_parse_identifier() {
    assert_eq!(
        parse_identifier("CLI-20240101-ABC"),
        Some(("CLI".to_string(), "20240101".to_string(), "ABC".to_string())),
    );
    // Extra segments: the third segment stops at the next dash.
    assert_eq!(
        parse_identifier("BR-AAAA-BBBB-CCCC-DDDD"),
        Some(("BR".to_string(), "AAAA".to_string(), "BBBB".to_string())),
    );
    assert_eq!(parse_identifier("NO-DASH"), None);
    assert_eq!(parse_identifier("plain"), None);
}

#[test]
fn test_is_valid_identifier() {
    assert!(is_valid_identifier("CLI-20240101-ABC", "CLI"));
    assert!(!is_valid_identifier("ORD-20240101-ABC", "CLI")); // wrong prefix
    assert!(!is_valid_identifier("CLI-2024-ABC", "CLI")); // short timestamp
    assert!(!is_valid_identifier("CLI-20240101-", "CLI")); // empty unique part
    assert!(!is_valid_identifier("CLI20240101ABC", "CLI")); // no segments
}

#[test]
fn test_generated_identifier_shape() {
    let id = generate_identifier("ORD");
    assert_eq!(id.len(), 3 + 1 + 14 + 1 + 8);
    assert!(id.starts_with("ORD-"));
    assert!(is_valid_identifier(&id, "ORD"));
    let parts = parse_identifier(&id).unwrap();
    assert_eq!(parts.1.len(), 14);
    assert!(parts.1.chars().all(|ch| ch.is_ascii_digit()));
}

#[test]
fn test_generated_order_number_shape() {
    let n = generate_order_number();
    assert!(n.starts_with("PED-"));
    assert_eq!(n.len(), 4 + 8 + 4);
    assert!(n[4..].chars().all(|ch| ch.is_ascii_digit()));
}

#[test]
fn test_generated_tracking_code_shape() {
    let code = generate_tracking_code();
    assert_eq!(code.len(), 22);
    assert!(code.starts_with("BR-"));
    let alphabet = "ABCDEFGHJKLMNPQRSTUVWXYZ23456789";
    for (i, ch) in code.chars().enumerate() {
        if i >= 2 && (i - 2) % 5 == 0 {
            assert_eq!(ch, '-');
        } else if i >= 3 {
            assert!(alphabet.contains(ch), "unexpected symbol {ch}");
        }
    }
}

#[test]
fn test_generated_transaction_id_shape() {
    let id = generate_transaction_id();
    assert!(id.starts_with("TXN-"));
    let parts = parse_identifier(&id).unwrap();
    assert_eq!(parts.0, "TXN");
    assert!(parts.1.chars().all(|ch| ch.is_ascii_digit()));
    assert_eq!(parts.2.len(), 12);
}

#[test]
fn test_generated_nfe_key_shape() {
    let key = generate_nfe_key();
    assert!(key.starts_with("NFE-"));
    assert!(is_valid_identifier(&key, "NFE"));
}

#[test]
fn test_generated_invoice_sku_and_barcode_shapes() {
    let inv = generate_invoice_number();
    assert!(inv.starts_with("NF-"));
    assert_eq!(inv.len(), 3 + 6 + 1 + 6);

    let sku = generate_sku("toy");
    assert!(sku.starts_with("TOY-"));
    assert_eq!(sku.len(), 4 + 4 + 5);

    let code = generate_barcode("789", "1234");
    assert_eq!(code.len(), 13);
    assert!(code.chars().all(|ch| ch.is_ascii_digit()));

    let cli = generate_customer_code();
    assert!(cli.starts_with("CLI-"));
}

#[test]
fn test_generated_short_code() {
    let code = generate_short_code(8);
    assert_eq!(code.len(), 8);
    let alphabet = "abcdefghijkmnpqrstuvwxyz23456789";
    assert!(code.chars().all(|ch| alphabet.contains(ch)));
    assert_eq!(generate_short_code(0), "");
}

#[test]
fn test_clock_and_randomness_sources() {
    let c = clock_now();
    assert!(c.year >= 2024);
    assert!((1..=12).contains(&c.month));
    assert!((1..=31).contains(&c.day));
    assert!(c.hour <= 23 && c.minute <= 59 && c.second <= 60);
    assert!(c.epoch_secs > 1_700_000_000);

    let token = uuid_simple();
    assert_eq!(token.len(), 32);
    assert!(token.chars().all(|ch| ch.is_ascii_hexdigit() && !ch.is_ascii_uppercase()));
    // Two fresh tokens virtually never coincide; equality would mean the
    // source is not random at all.
    assert_ne!(token, uuid_simple());

    for _ in 0..50 {
        assert!(random_below(10) < 10);
    }
    assert!(sao_paulo_hour(1_709_600_000) <= 23);
}

#[test]
fn test_rust_to_graphql_type() {
    assert_eq!(rust_to_graphql_type("rust_decimal::Decimal"), "f64");
    assert_eq!(rust_to_graphql_type("Decimal"), "f64");
    assert_eq!(rust_to_graphql_type("serde_json::Value"), "JSON");
    assert_eq!(rust_to_graphql_type("chrono::DateTime<chrono::Utc>"), "DateTime");
    assert_eq!(rust_to_graphql_type("uuid::Uuid"), "UUID");
    assert_eq!(rust_to_graphql_type("String"), "String");
    assert_eq!(rust_to_graphql_type("i64"), "i64");
}
