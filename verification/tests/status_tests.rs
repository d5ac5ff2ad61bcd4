use pleme_core::status::Status;

#[test]
fn test_self_transitions_always_allowed() {
    let all = [
        Status::Pending,
        Status::AwaitingPayment,
        Status::PaymentProcessing,
        Status::Authorized,
        Status::Captured,
        Status::Paid,
        Status::Processing,
        Status::PartiallyFulfilled,
        Status::Fulfilled,
        Status::Shipped,
        Status::PartiallyShipped,
        Status::OutForDelivery,
        Status::Delivered,
        Status::Cancelled,
        Status::Refunded,
        Status::PartiallyRefunded,
        Status::Disputed,
        Status::Failed,
        Status::Expired,
        Status::Returned,
        Status::Active,
        Status::Inactive,
        Status::Suspended,
        Status::Deleted,
    ];
    for s in all {
        assert!(s.can_transition_to(&s));
    }
}

#[test]
fn test_listed_transitions_allowed() {
    assert!(Status::Pending.can_transition_to(&Status::AwaitingPayment));
    assert!(Status::Pending.can_transition_to(&Status::Paid));
    assert!(Status::AwaitingPayment.can_transition_to(&Status::Expired));
    assert!(Status::PaymentProcessing.can_transition_to(&Status::Authorized));
    assert!(Status::Authorized.can_transition_to(&Status::Captured));
    assert!(Status::Captured.can_transition_to(&Status::Refunded));
    assert!(Status::Paid.can_transition_to(&Status::Processing));
    assert!(Status::Processing.can_transition_to(&Status::PartiallyFulfilled));
    assert!(Status::Fulfilled.can_transition_to(&Status::Shipped));
    assert!(Status::Shipped.can_transition_to(&Status::OutForDelivery));
    assert!(Status::OutForDelivery.can_transition_to(&Status::Delivered));
    // Delivered is terminal for cancellation but may still be refunded.
    assert!(Status::Delivered.can_transition_to(&Status::Refunded));
    assert!(Status::Returned.can_transition_to(&Status::Refunded));
    assert!(Status::Active.can_transition_to(&Status::Suspended));
    assert!(Status::Suspended.can_transition_to(&Status::Active));
    assert!(Status::Inactive.can_transition_to(&Status::Deleted));
}

#[test]
fn test_unlisted_transitions_rejected() {
    assert!(!Status::Pending.can_transition_to(&Status::Delivered));
    assert!(!Status::Delivered.can_transition_to(&Status::Pending));
    assert!(!Status::Cancelled.can_transition_to(&Status::Paid));
    assert!(!Status::Refunded.can_transition_to(&Status::Pending));
    assert!(!Status::Failed.can_transition_to(&Status::Paid));
    assert!(!Status::Shipped.can_transition_to(&Status::Paid));
    assert!(!Status::Active.can_transition_to(&Status::Paid));
    assert!(!Status::Deleted.can_transition_to(&Status::Active));
}

#[test]
fn test_final_states() {
    assert!(Status::Delivered.is_final_status());
    assert!(Status::Cancelled.is_final_status());
    assert!(Status::Refunded.is_final_status());
    assert!(Status::Failed.is_final_status());
    assert!(Status::Expired.is_final_status());
    assert!(Status::Disputed.is_final_status());
    assert!(Status::Deleted.is_final_status());
    assert!(Status::Returned.is_final_status());
    assert!(!Status::Pending.is_final_status());
    assert!(!Status::Shipped.is_final_status());
}

#[test]
fn test_cancellation_and_refund_predicates() {
    assert!(Status::Pending.can_be_cancelled());
    assert!(Status::Authorized.can_be_cancelled());
    assert!(Status::Paid.can_be_cancelled());
    assert!(!Status::Delivered.can_be_cancelled());
    assert!(!Status::Cancelled.can_be_cancelled());
    assert!(!Status::Shipped.can_be_cancelled());

    assert!(Status::Paid.can_be_refunded());
    assert!(Status::Delivered.can_be_refunded());
    assert!(Status::PartiallyRefunded.can_be_refunded());
    assert!(!Status::Pending.can_be_refunded());
    assert!(!Status::Cancelled.can_be_refunded());
}

#[test]
fn test_wire_names() {
    assert_eq!(Status::Pending.to_str(), "pending");
    assert_eq!(Status::AwaitingPayment.to_str(), "awaiting_payment");
    assert_eq!(Status::OutForDelivery.to_str(), "out_for_delivery");
    assert_eq!(Status::PartiallyRefunded.to_str(), "partially_refunded");
    assert_eq!(Status::Deleted.to_str(), "deleted");
}
