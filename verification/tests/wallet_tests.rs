use pleme_core::Money;
use pleme_core::errors::PaymentError;
use pleme_core::wallet::Wallet;

fn sample_wallet() -> Wallet {
    Wallet {
        id: "w-1".to_string(),
        user_id: "u-1".to_string(),
        balance: Money::from_cents(10_000), // R$ 100.00
        pending_balance: Money::zero(),
        tokens: 50,
        lifetime_earnings: Money::from_cents(10_000),
        lifetime_spending: Money::zero(),
        locked: false,
        locked_at: None,
        lock_reason: None,
        updated_at: 0,
    }
}

#[test]
fn test_balance_movements() {
    let mut w = sample_wallet();
    assert!(w.add_balance(Money::from_cents(2_500), 10).is_ok());
    assert_eq!(w.balance, Money::from_cents(12_500));
    assert_eq!(w.lifetime_earnings, Money::from_cents(12_500));
    assert_eq!(w.updated_at, 10);

    assert!(w.subtract_balance(Money::from_cents(500), 20).is_ok());
    assert_eq!(w.balance, Money::from_cents(12_000));
    assert_eq!(w.lifetime_spending, Money::from_cents(500));

    assert_eq!(
        w.subtract_balance(Money::from_cents(999_999), 30),
        Err(PaymentError::InsufficientFunds),
    );
    assert_eq!(w.add_balance(Money::zero(), 40), Err(PaymentError::InvalidAmount));
    assert_eq!(w.balance, Money::from_cents(12_000));
}

#[test]
fn test_token_movements() {
    let mut w = sample_wallet();
    assert!(w.add_tokens(25, 10).is_ok());
    assert_eq!(w.tokens, 75);
    assert!(w.spend_tokens(70, 20).is_ok());
    assert_eq!(w.tokens, 5);
    assert_eq!(w.spend_tokens(6, 30), Err(PaymentError::InsufficientFunds));
    assert_eq!(w.add_tokens(-1, 40), Err(PaymentError::InvalidAmount));
    // Token credits saturate instead of overflowing.
    w.tokens = i64::MAX - 1;
    assert!(w.add_tokens(10, 50).is_ok());
    assert_eq!(w.tokens, i64::MAX);
}

#[test]
fn test_pending_balance_flow() {
    let mut w = sample_wallet();
    assert!(w.add_pending(Money::from_cents(4_000), 10).is_ok());
    assert_eq!(w.pending_balance, Money::from_cents(4_000));
    assert_eq!(w.total_balance(), Money::from_cents(14_000));

    assert!(w.clear_pending(Money::from_cents(1_000), 20).is_ok());
    assert_eq!(w.pending_balance, Money::from_cents(3_000));
    assert_eq!(w.balance, Money::from_cents(11_000));
    assert_eq!(w.lifetime_earnings, Money::from_cents(11_000));

    assert!(w.cancel_pending(Money::from_cents(3_000), 30).is_ok());
    assert_eq!(w.pending_balance, Money::zero());
    assert_eq!(
        w.cancel_pending(Money::from_cents(1), 40),
        Err(PaymentError::InvalidAmount),
    );
}

#[test]
fn test_payout_quote() {
    let w = sample_wallet();
    // 2.5% fee on R$ 80.00: fee R$ 2.00, net R$ 78.00.
    let quote = w.calculate_payout(Money::from_cents(8_000), 250).unwrap();
    assert_eq!(quote.gross_amount, Money::from_cents(8_000));
    assert_eq!(quote.fee_amount, Money::from_cents(200));
    assert_eq!(quote.net_amount, Money::from_cents(7_800));
    assert_eq!(
        w.calculate_payout(Money::from_cents(99_999), 250),
        Err(PaymentError::InsufficientFunds),
    );
}

#[test]
fn test_health_metrics() {
    let mut w = sample_wallet();
    w.add_pending(Money::from_cents(10_000), 10).unwrap();
    let m = w.health_metrics();
    assert_eq!(m.total_balance, Money::from_cents(20_000));
    // Half the total balance is pending: 5,000 basis points.
    assert_eq!(m.pending_ratio_bp, 5_000);
    assert_eq!(m.net_earnings, Money::from_cents(10_000));

    let empty = Wallet { balance: Money::zero(), pending_balance: Money::zero(), ..sample_wallet() };
    assert_eq!(empty.health_metrics().pending_ratio_bp, 0);
}

#[test]
fn test_lock_unlock() {
    let mut w = sample_wallet();
    assert!(w.is_active());
    assert!(w.lock("fraud review".to_string(), 10).is_ok());
    assert!(!w.is_active());
    assert_eq!(w.lock_reason.as_deref(), Some("fraud review"));
    assert!(w.lock("again".to_string(), 20).is_err());
    assert!(w.unlock(30).is_ok());
    assert!(w.is_active());
    assert_eq!(w.locked_at, None);
    assert!(w.unlock(40).is_err());
}

#[test]
fn test_minimum_balance() {
    let w = sample_wallet();
    assert!(w.validate_minimum_balance(Money::from_cents(10_000)).is_ok());
    assert_eq!(
        w.validate_minimum_balance(Money::from_cents(10_001)),
        Err(PaymentError::InsufficientFunds),
    );
}
