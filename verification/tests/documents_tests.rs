use pleme_core::documents::{
    validate_cpf, validate_cnpj, validate_cep, validate_brazilian_phone, format_cpf, format_cnpj,
    format_cep, format_brazilian_phone, strip_formatting, is_valid_email, validate_email,
    validate_document, format_document, DocumentKind,
};

#[test]
fn test_brazilian_entity_macro() {
    // Test CPF validation
    assert!(validate_cpf("111.444.777-35")); // Valid CPF
    assert!(!validate_cpf("123.456.789-09")); // Invalid checksum
    assert!(!validate_cpf("invalid"));

    // Test CEP validation
    assert!(validate_cep("12345-678"));
    assert!(!validate_cep("invalid"));

    // Test formatting
    let formatted_cpf = format_cpf("12345678909");
    assert_eq!(formatted_cpf, "123.456.789-09");
}

#[test]
fn test_cpf_rejects_identical_digits() {
    assert!(!validate_cpf("111.111.111-11"));
    assert!(!validate_cpf("00000000000"));
    assert!(!validate_cpf("99999999999"));
}

#[test]
fn test_cpf_rejects_wrong_check_digits() {
    // Same leading digits as a valid CPF, wrong verification digits.
    assert!(!validate_cpf("111.444.777-34"));
    assert!(!validate_cpf("111.444.777-45"));
    // Too short and too long.
    assert!(!validate_cpf("1114447773"));
    assert!(!validate_cpf("111444777350"));
}

#[test]
fn test_cnpj_validation() {
    assert!(validate_cnpj("11.222.333/0001-81"));
    assert!(validate_cnpj("11222333000181"));
    assert!(!validate_cnpj("11.222.333/0001-80"));
    assert!(!validate_cnpj("11111111111111"));
    assert!(!validate_cnpj("123"));
}

#[test]
fn test_cnpj_formatting() {
    assert_eq!(format_cnpj("11222333000181"), "11.222.333/0001-81");
    // Wrong digit count passes through unchanged.
    assert_eq!(format_cnpj("123"), "123");
}

#[test]
fn test_cep_formatting() {
    assert_eq!(format_cep("12345678"), "12345-678");
    assert_eq!(format_cep("12345-678"), "12345-678");
    assert_eq!(format_cep("123"), "123");
}

#[test]
fn test_phone_validation() {
    assert!(validate_brazilian_phone("1134567890")); // 10-digit landline
    assert!(validate_brazilian_phone("11987654321")); // 11-digit mobile
    assert!(!validate_brazilian_phone("11287654321")); // 11 digits, not mobile
    assert!(validate_brazilian_phone("5511987654321")); // 13 digits with country code
    assert!(!validate_brazilian_phone("4911987654321")); // 13 digits, wrong country
    assert!(!validate_brazilian_phone("123"));
}

#[test]
fn test_phone_formatting() {
    assert_eq!(format_brazilian_phone("1134567890"), "(11) 3456-7890");
    assert_eq!(format_brazilian_phone("11987654321"), "(11) 9 8765-4321");
    assert_eq!(format_brazilian_phone("5511987654321"), "+55 (11) 9 8765-4321");
    assert_eq!(format_brazilian_phone("12"), "12");
}

#[test]
fn test_strip_formatting_round_trip() {
    let formatted = format_cpf("11144477735");
    assert_eq!(strip_formatting(&formatted), "11144477735");
    let formatted_cnpj = format_cnpj("11222333000181");
    assert_eq!(strip_formatting(&formatted_cnpj), "11222333000181");
    assert_eq!(strip_formatting("a1b2c3"), "123");
    // Formatting the stripped digits gives the display form back.
    assert_eq!(format_cpf(&strip_formatting("111.444.777-35")), "111.444.777-35");
}

#[test]
fn test_email_validation() {
    assert!(is_valid_email("user@example.com"));
    assert!(!is_valid_email("invalid"));
    assert!(!is_valid_email("@example.com"));
    assert!(!is_valid_email("user@"));
    assert!(!is_valid_email("a@b"));
    assert!(!is_valid_email("a@b@c.com"));
}

#[test]
fn test_strict_email_pattern() {
    assert!(validate_email("user@example.com"));
    assert!(validate_email("first.last+tag%x_y-z@sub-domain.example.co"));
    assert!(!validate_email("invalid"));
    assert!(!validate_email("user@example")); // no dot in the domain
    assert!(!validate_email("user@example.c")); // one-letter label
    assert!(!validate_email("user@example.c3")); // digit in the label
    assert!(!validate_email("us er@example.com")); // space in the local part
    assert!(!validate_email("user@@example.com")); // second @
    assert!(!validate_email("user@.com")); // empty domain
    assert!(!validate_email("@example.com")); // empty local part
    assert!(validate_email("a@b.co"));
    // The permissive shape admits what the strict pattern rejects.
    assert!(is_valid_email("us.er@examplecom"));
    assert!(!validate_email("us.er@examplecom"));
}

#[test]
fn test_document_kind_dispatch() {
    assert!(validate_document(DocumentKind::Cpf, "111.444.777-35"));
    assert!(validate_document(DocumentKind::Cnpj, "11.222.333/0001-81"));
    assert!(validate_document(DocumentKind::Cep, "12345-678"));
    assert!(validate_document(DocumentKind::Phone, "11987654321"));
    assert_eq!(format_document(DocumentKind::Cep, "12345678"), "12345-678");
}
