use pleme_core::Money;
use pleme_core::errors::PaymentError;
use pleme_core::pix::{validate_pix_key, PixKeyType};

#[test]
fn test_brazilian_amount_formatting() {
    let amount = Money::from_cents(123456); // R$ 1,234.56
    let formatted = amount.format_brl();
    assert_eq!(formatted, "R$ 1.234,56");

    let parsed = Money::parse_brl("R$ 1.234,56").unwrap();
    assert_eq!(parsed, amount);
}

#[test]
fn test_brazilian_amount_parsing() {
    let test_cases = vec![
        ("R$ 100,00", Money::from_cents(10000)),
        ("R$ 1.234,56", Money::from_cents(123456)),
        ("100,50", Money::from_cents(10050)),
    ];

    for (input, expected) in test_cases {
        let parsed = Money::parse_brl(input).unwrap();
        assert_eq!(parsed, expected, "Failed to parse {}", input);
    }
}

#[test]
fn test_format_brl_edges() {
    assert_eq!(Money::zero().format_brl(), "R$ 0,00");
    assert_eq!(Money::from_cents(5).format_brl(), "R$ 0,05");
    assert_eq!(Money::from_cents(100).format_brl(), "R$ 1,00");
    assert_eq!(Money::from_cents(99999).format_brl(), "R$ 999,99");
    assert_eq!(Money::from_cents(100000).format_brl(), "R$ 1.000,00");
    assert_eq!(Money::from_reais(1_234_567).format_brl(), "R$ 1.234.567,00");
}

#[test]
fn test_error_handling() {
    // Test that the kernel surfaces errors as values
    let invalid_amount = Money::parse_brl("invalid");
    assert!(invalid_amount.is_err());

    let invalid_pix = validate_pix_key("", PixKeyType::Cpf);
    assert!(invalid_pix.is_err());
}

#[test]
fn test_parse_brl_rejects_malformed() {
    assert_eq!(Money::parse_brl("invalid"), Err(PaymentError::InvalidAmount));
    assert_eq!(Money::parse_brl(""), Err(PaymentError::InvalidAmount));
    assert_eq!(Money::parse_brl("R$ ,50"), Err(PaymentError::InvalidAmount));
    assert_eq!(Money::parse_brl("1,"), Err(PaymentError::InvalidAmount));
    assert_eq!(Money::parse_brl("1,2345678"), Err(PaymentError::InvalidAmount));
    assert_eq!(Money::parse_brl("12a3"), Err(PaymentError::InvalidAmount));
}

#[test]
fn test_parse_brl_signs_and_fractions() {
    assert_eq!(Money::parse_brl("-1,50"), Ok(Money::from_cents(-150)));
    assert_eq!(Money::parse_brl("+2,25"), Ok(Money::from_cents(225)));
    // Up to six fraction digits are exact.
    assert_eq!(Money::parse_brl("0,000001"), Ok(Money { micros: 1 }));
    assert_eq!(Money::parse_brl("42"), Ok(Money::from_reais(42)));
}

#[test]
fn test_parse_format_round_trip() {
    for cents in [0i64, 1, 99, 100, 12345, 999999, 100000000] {
        let m = Money::from_cents(cents);
        let parsed = Money::parse_brl(&m.format_brl()).unwrap();
        assert_eq!(parsed, m);
    }
}

#[test]
fn test_money_arithmetic() {
    let a = Money::from_cents(150);
    let b = Money::from_cents(50);
    assert_eq!(a.plus(b), Money::from_cents(200));
    assert_eq!(a.minus(b), Money::from_cents(100));
    // 18% of R$ 10.00 is R$ 1.80, exactly.
    assert_eq!(Money::from_cents(1000).times_rate_bp(1800), Money::from_cents(180));
    // 1.65% of R$ 1,000.00 is R$ 16.50, exactly.
    assert_eq!(Money::from_cents(100000).times_rate_bp(165), Money::from_cents(1650));
}
