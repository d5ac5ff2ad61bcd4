use pleme_core::Money;
use pleme_core::errors::PaymentError;
use pleme_core::payment::{Payment, check_bcb_compliance};
use pleme_core::status::PaymentStatus;

fn sample_payment(cents: i64) -> Payment {
    Payment::new("pay-1".to_string(), Money::from_cents(cents), Money::zero(), 1_000)
}

#[test]
fn test_payment_lifecycle() {
    let mut p = sample_payment(5000);
    assert_eq!(p.status, PaymentStatus::Pending);

    assert!(p.mark_processing(1_010).is_ok());
    assert_eq!(p.status, PaymentStatus::Processing);
    assert_eq!(p.updated_at, 1_010);

    // A second processing move is an invalid transition.
    assert_eq!(
        p.mark_processing(1_020),
        Err(PaymentError::InvalidStateTransition {
            from: PaymentStatus::Processing,
            to: PaymentStatus::Processing,
        }),
    );

    assert!(p.mark_completed(1_030).is_ok());
    assert_eq!(p.status, PaymentStatus::Completed);
    assert_eq!(p.completed_at, Some(1_030));

    assert!(p.can_refund());
    assert!(p.mark_refunded(1_040).is_ok());
    assert_eq!(p.status, PaymentStatus::Refunded);

    // A refunded payment cannot fail.
    assert!(p.mark_failed("too late".to_string(), 1_050).is_err());
    assert_eq!(p.status, PaymentStatus::Refunded);
}

#[test]
fn test_mark_failed_records_reason() {
    let mut p = sample_payment(5000);
    assert!(p.mark_failed("card declined".to_string(), 1_005).is_ok());
    assert_eq!(p.status, PaymentStatus::Failed);
    assert_eq!(p.failed_at, Some(1_005));
    assert_eq!(p.failure_reason.as_deref(), Some("card declined"));
}

#[test]
fn test_error_handling_compliance() {
    // A non-positive amount must surface the invalid-amount error.
    let negative = Payment::new("neg".to_string(), Money::from_cents(-100), Money::zero(), 0);
    assert_eq!(
        negative.validate_amount(),
        Err(PaymentError::InvalidAmount),
        "Expected InvalidAmount error",
    );
}

#[test]
fn test_validate_amount_policy() {
    assert_eq!(sample_payment(0).validate_amount(), Err(PaymentError::InvalidAmount));
    let negative = Payment::new("n".to_string(), Money { micros: -5 }, Money::zero(), 0);
    assert_eq!(negative.validate_amount(), Err(PaymentError::InvalidAmount));
    // Half a centavo is below the PIX minimum.
    let tiny = Payment::new("t".to_string(), Money { micros: 5_000 }, Money::zero(), 0);
    assert!(matches!(tiny.validate_amount(), Err(PaymentError::AmountTooLow { .. })));
    // Above one million reais.
    let huge = Payment::new(
        "h".to_string(),
        Money::from_reais(2_000_000),
        Money::zero(),
        0,
    );
    assert!(matches!(huge.validate_amount(), Err(PaymentError::AmountTooHigh { .. })));
    assert!(sample_payment(1).validate_amount().is_ok());
    assert!(sample_payment(100_000_000).validate_amount().is_ok());
}

#[test]
fn test_totals_and_fees() {
    let p = Payment::new(
        "x".to_string(),
        Money::from_cents(10_000),
        Money::from_cents(1_800),
        0,
    );
    assert_eq!(p.total_amount(), Money::from_cents(11_800));
    // A 3.5% fee (350 basis points) on R$ 100.00 leaves R$ 96.50.
    assert_eq!(p.net_amount(350), Money::from_cents(9_650));
}

#[test]
fn test_expiry_window() {
    let p = sample_payment(5000); // created at 1_000
    assert!(!p.is_expired(30, 1_000 + 1_800));
    assert!(p.is_expired(30, 1_000 + 1_801));
    let mut done = sample_payment(5000);
    done.mark_completed(1_100).unwrap();
    assert!(!done.is_expired(30, 1_000_000));
}

#[test]
fn test_idempotency_key_shape() {
    let p = sample_payment(5000);
    let k1 = p.idempotency_key();
    let k2 = p.idempotency_key();
    assert_eq!(k1, k2);
    assert!(k1.starts_with("pay_"));
    assert_eq!(k1.len(), 4 + 64);
    assert!(k1[4..].chars().all(|c| c.is_ascii_hexdigit() && !c.is_ascii_uppercase()));
    // A different payment id yields a different digest.
    let other = Payment::new("pay-2".to_string(), Money::from_cents(5000), Money::zero(), 1_000);
    assert_ne!(k1, other.idempotency_key());
}

#[test]
fn test_pix_confirmation() {
    let mut p = sample_payment(5000);
    assert_eq!(
        p.process_pix_confirmation("short", "psp-1", 1_010),
        Err(PaymentError::InvalidPixData),
    );
    assert_eq!(p.status, PaymentStatus::Pending);
    let e2e = "E1234567890123456789012345678901";
    assert_eq!(e2e.len(), 32);
    assert!(p.process_pix_confirmation(e2e, "psp-1", 1_020).is_ok());
    assert_eq!(p.status, PaymentStatus::Completed);
    assert_eq!(p.updated_at, 1_020);
}

#[test]
fn test_brazilian_receipt_generation() {
    let mut payment = Payment::new(
        "rcpt-1".to_string(),
        Money::from_cents(50000), // R$ 500.00
        Money::zero(),
        1_000,
    );
    payment.mark_completed(1_100).unwrap();

    let receipt = payment.generate_brazilian_receipt("123.456.789-00".to_string(), 1_200);

    assert_eq!(receipt.amount, Money::from_cents(50000));
    assert_eq!(receipt.formatted_amount, "R$ 500,00");
    assert_eq!(receipt.status, "Concluído");
    assert_eq!(receipt.merchant_name, "Pleme Tecnologia Ltda");
    assert_eq!(receipt.customer_document, "123.456.789-00");
}

#[test]
fn test_bcb_compliance_limits() {
    // Within every limit.
    let ok = check_bcb_compliance(Money::from_reais(500), 12, 7);
    assert!(ok.is_compliant);
    assert!(ok.issues.is_empty());
    assert!(ok.warnings.is_empty());
    assert_eq!(ok.checked_at, 7);
    assert_eq!(ok.regulations.len(), 2);

    // Over the daily limit: a warning, still compliant.
    let daily = check_bcb_compliance(Money::from_reais(25_000), 12, 8);
    assert!(daily.is_compliant);
    assert_eq!(daily.warnings, vec!["Amount exceeds PIX daily limit".to_string()]);

    // Over the monthly limit: an issue, non-compliant.
    let monthly = check_bcb_compliance(Money::from_reais(150_000), 12, 9);
    assert!(!monthly.is_compliant);
    assert_eq!(monthly.issues, vec!["Amount exceeds PIX monthly limit".to_string()]);

    // A large transfer outside business hours warns.
    let night = check_bcb_compliance(Money::from_reais(5_000), 3, 10);
    assert!(night.is_compliant);
    assert_eq!(
        night.warnings,
        vec!["Large amount transfer outside business hours".to_string()],
    );
}

#[test]
fn test_boleto_generation() {
    let p = sample_payment(5000);
    let boleto = p.generate_boleto(987_654_321, 1_000);
    assert_eq!(boleto.bank_code, "341");
    assert_eq!(boleto.our_number, "0000987654321");
    assert_eq!(boleto.our_number.len(), 13);
    assert_eq!(boleto.document_number, "pay-1");
    assert_eq!(boleto.due_date_epoch, 1_000 + 3 * 86_400);
    assert_eq!(boleto.amount, Money::from_cents(5000));
}
