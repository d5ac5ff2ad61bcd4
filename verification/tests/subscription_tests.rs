use pleme_core::Money;
use pleme_core::status::{SubscriptionStatus, BillingInterval};
use pleme_core::subscription::Subscription;

fn sample_subscription() -> Subscription {
    Subscription {
        id: "sub-1".to_string(),
        status: SubscriptionStatus::Active,
        interval: BillingInterval::Monthly,
        price: Money::from_cents(1_000), // R$ 10.00
        current_period_start: 1_000,
        current_period_end: 1_000 + 2_592_000,
        trial_start: None,
        trial_end: None,
        trial_converted_at: None,
        pause_collection: None,
        pause_reason: None,
        cancelled_at: None,
        cancellation_reason: None,
        created_at: 1_000,
        updated_at: 1_000,
    }
}

#[test]
fn test_proration_at_period_start() {
    // Transferring exactly at the period start charges the full difference.
    let s = sample_subscription();
    let new_price = Money::from_cents(3_000);
    let proration = s.calculate_proration(new_price, s.current_period_start);
    assert_eq!(proration, Money::from_cents(2_000));
}

#[test]
fn test_proration_after_period_end() {
    // After the period has elapsed the charge is the full new price.
    let s = sample_subscription();
    let new_price = Money::from_cents(3_000);
    assert_eq!(s.calculate_proration(new_price, s.current_period_end), new_price);
    assert_eq!(s.calculate_proration(new_price, s.current_period_end + 5), new_price);
}

#[test]
fn test_proration_midway_and_downgrade() {
    let mut s = sample_subscription();
    s.current_period_start = 0;
    s.current_period_end = 100;
    // Halfway through, half the difference.
    assert_eq!(
        s.calculate_proration(Money::from_cents(3_000), 50),
        Money::from_cents(1_000),
    );
    // A downgrade prorates negatively.
    assert_eq!(
        s.calculate_proration(Money::from_cents(400), 50),
        Money::from_cents(-300),
    );
}

#[test]
fn test_activity_and_trial() {
    let mut s = sample_subscription();
    assert!(s.is_active(2_000));
    assert!(!s.is_active(s.current_period_end));
    assert!(!s.in_trial(2_000));

    assert!(s.start_trial(14, 2_000).is_ok());
    assert_eq!(s.status, SubscriptionStatus::Trialing);
    assert_eq!(s.trial_end, Some(2_000 + 14 * 86_400));
    assert!(s.in_trial(2_500));
    assert_eq!(s.trial_days_remaining(2_000), Some(14));
    assert_eq!(s.trial_days_remaining(2_000 + 13 * 86_400 + 43_200), None);

    assert!(s.convert_trial_to_paid(3_000).is_ok());
    assert_eq!(s.status, SubscriptionStatus::Active);
    assert_eq!(s.trial_converted_at, Some(3_000));
}

#[test]
fn test_pause_resume() {
    let mut s = sample_subscription();
    assert!(s.pause(Some("vacation".to_string()), 2_000).is_ok());
    assert_eq!(s.status, SubscriptionStatus::Paused);
    assert_eq!(s.pause_collection, Some(s.current_period_end));

    // Resuming before the period end keeps the period.
    let end = s.current_period_end;
    assert!(s.resume(3_000).is_ok());
    assert_eq!(s.status, SubscriptionStatus::Active);
    assert_eq!(s.current_period_end, end);
    assert_eq!(s.pause_collection, None);

    // Resuming after a lapsed period rolls it forward from now.
    let mut lapsed = sample_subscription();
    lapsed.pause(None, 2_000).unwrap();
    let late = lapsed.current_period_end + 10;
    assert!(lapsed.resume(late).is_ok());
    assert_eq!(lapsed.current_period_start, late);
    assert_eq!(lapsed.current_period_end, late + 2_592_000);
}

#[test]
fn test_cancel_and_past_due() {
    let mut s = sample_subscription();
    assert!(s.mark_past_due(2_000).is_ok());
    assert_eq!(s.status, SubscriptionStatus::PastDue);
    assert!(s.in_grace_period(5, s.current_period_end + 4 * 86_400));
    assert!(!s.in_grace_period(5, s.current_period_end + 6 * 86_400));

    assert!(s.can_cancel());
    assert!(s.cancel(Some("churn".to_string()), 3_000).is_ok());
    assert_eq!(s.status, SubscriptionStatus::Cancelled);
    assert_eq!(s.cancelled_at, Some(3_000));
    // A cancelled subscription cannot be cancelled again.
    assert!(s.cancel(None, 4_000).is_err());
    // But it can resume while paid time remains.
    assert!(s.can_resume(s.current_period_end - 1));
    assert!(!s.can_resume(s.current_period_end));
}

#[test]
fn test_billing_period_update() {
    let mut s = sample_subscription();
    s.mark_past_due(2_000).unwrap();
    let old_end = s.current_period_end;
    // Before the period lapses nothing moves but the status.
    assert!(s.update_billing_period(old_end - 10).is_ok());
    assert_eq!(s.status, SubscriptionStatus::Active);
    assert_eq!(s.current_period_end, old_end);
    // Once lapsed, the period advances one interval from its old end.
    assert!(s.update_billing_period(old_end + 10).is_ok());
    assert_eq!(s.current_period_start, old_end);
    assert_eq!(s.current_period_end, old_end + 2_592_000);
}

#[test]
fn test_mrr_and_metrics() {
    let mut s = sample_subscription();
    assert_eq!(s.monthly_recurring_revenue(2_000), Money::from_cents(1_000));
    s.interval = BillingInterval::Yearly;
    s.price = Money::from_cents(12_000);
    assert_eq!(s.monthly_recurring_revenue(2_000), Money::from_cents(1_000));
    s.interval = BillingInterval::Quarterly;
    s.price = Money::from_cents(900);
    assert_eq!(s.monthly_recurring_revenue(2_000), Money::from_cents(300));
    // Inactive subscriptions contribute nothing.
    assert_eq!(s.monthly_recurring_revenue(s.current_period_end), Money::zero());

    let m = s.metrics(s.created_at + 90 * 86_400);
    assert_eq!(m.age_days, 90);
    assert_eq!(m.lifetime_value, Money::from_cents(2_700)); // 3 months at R$ 9.00
}
