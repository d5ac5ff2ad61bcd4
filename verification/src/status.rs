//! Lifecycle status enumerations and the order/payment state machine.
//!
//! [`Status`] is the superset of states used across order-like lifecycles;
//! transition legality is a fixed, enumerated table, never computed. The
//! smaller [`PaymentStatus`] and [`SubscriptionStatus`] enumerations drive
//! the payment and subscription entities.

use vstd::prelude::*;

verus! {

/// The order/payment lifecycle states. Not every entity uses every state;
/// the transition table below is the single source of legality.
#[derive(Clone, Copy, Debug, PartialEq, Eq, Hash, Structural)]
pub enum Status {
    Pending,
    AwaitingPayment,
    PaymentProcessing,
    Authorized,
    Captured,
    Paid,
    Processing,
    PartiallyFulfilled,
    Fulfilled,
    Shipped,
    PartiallyShipped,
    OutForDelivery,
    Delivered,
    Cancelled,
    Refunded,
    PartiallyRefunded,
    Disputed,
    Failed,
    Expired,
    Returned,
    Active,
    Inactive,
    Suspended,
    Deleted,
}

/// The directed edges of the transition table, self-loops excluded.
pub open spec fn spec_transition_listed(from: Status, to: Status) -> bool {
    match (from, to) {
        (Status::Pending, Status::AwaitingPayment) => true,
        (Status::Pending, Status::PaymentProcessing) => true,
        (Status::Pending, Status::Paid) => true,
        (Status::Pending, Status::Failed) => true,
        (Status::Pending, Status::Cancelled) => true,
        (Status::AwaitingPayment, Status::PaymentProcessing) => true,
        (Status::AwaitingPayment, Status::Paid) => true,
        (Status::AwaitingPayment, Status::Failed) => true,
        (Status::AwaitingPayment, Status::Cancelled) => true,
        (Status::AwaitingPayment, Status::Expired) => true,
        (Status::PaymentProcessing, Status::Paid) => true,
        (Status::PaymentProcessing, Status::Failed) => true,
        (Status::PaymentProcessing, Status::Cancelled) => true,
        (Status::PaymentProcessing, Status::Authorized) => true,
        (Status::Authorized, Status::Captured) => true,
        (Status::Authorized, Status::Cancelled) => true,
        (Status::Authorized, Status::Expired) => true,
        (Status::Captured, Status::Processing) => true,
        (Status::Captured, Status::Refunded) => true,
        (Status::Paid, Status::Processing) => true,
        (Status::Paid, Status::Cancelled) => true,
        (Status::Paid, Status::Refunded) => true,
        (Status::Processing, Status::Fulfilled) => true,
        (Status::Processing, Status::PartiallyFulfilled) => true,
        (Status::Processing, Status::Cancelled) => true,
        (Status::Processing, Status::Failed) => true,
        (Status::PartiallyFulfilled, Status::Fulfilled) => true,
        (Status::PartiallyFulfilled, Status::Cancelled) => true,
        (Status::Fulfilled, Status::Shipped) => true,
        (Status::Fulfilled, Status::PartiallyShipped) => true,
        (Status::PartiallyShipped, Status::Shipped) => true,
        (Status::Shipped, Status::OutForDelivery) => true,
        (Status::Shipped, Status::Delivered) => true,
        (Status::Shipped, Status::Returned) => true,
        (Status::OutForDelivery, Status::Delivered) => true,
        (Status::OutForDelivery, Status::Returned) => true,
        (Status::Delivered, Status::Refunded) => true,
        (Status::Delivered, Status::PartiallyRefunded) => true,
        (Status::Delivered, Status::Disputed) => true,
        (Status::Delivered, Status::Returned) => true,
        (Status::PartiallyRefunded, Status::Refunded) => true,
        (Status::PartiallyRefunded, Status::Disputed) => true,
        (Status::Returned, Status::Refunded) => true,
        (Status::Active, Status::Inactive) => true,
        (Status::Active, Status::Suspended) => true,
        (Status::Active, Status::Deleted) => true,
        (Status::Inactive, Status::Active) => true,
        (Status::Inactive, Status::Deleted) => true,
        (Status::Suspended, Status::Active) => true,
        (Status::Suspended, Status::Deleted) => true,
        _ => false,
    }
}

/// A move is legal exactly when it is a self-transition or a listed edge.
pub open spec fn spec_can_transition(from: Status, to: Status) -> bool {
    from == to || spec_transition_listed(from, to)
}

/// The states with no outgoing cancellation path.
pub open spec fn spec_is_final(s: Status) -> bool {
    match s {
        Status::Delivered => true,
        Status::Cancelled => true,
        Status::Refunded => true,
        Status::Failed => true,
        Status::Expired => true,
        Status::Disputed => true,
        Status::Deleted => true,
        Status::Returned => true,
        _ => false,
    }
}

/// The pre-fulfillment states from which cancellation is permitted.
pub open spec fn spec_can_be_cancelled(s: Status) -> bool {
    !spec_is_final(s) && match s {
        Status::Pending => true,
        Status::AwaitingPayment => true,
        Status::PaymentProcessing => true,
        Status::Paid => true,
        Status::Processing => true,
        Status::Authorized => true,
        _ => false,
    }
}

/// The post-payment states from which a refund is permitted.
pub open spec fn spec_can_be_refunded(s: Status) -> bool {
    match s {
        Status::Paid => true,
        Status::Captured => true,
        Status::Processing => true,
        Status::PartiallyFulfilled => true,
        Status::Fulfilled => true,
        Status::Shipped => true,
        Status::PartiallyShipped => true,
        Status::OutForDelivery => true,
        Status::Delivered => true,
        Status::PartiallyRefunded => true,
        Status::Returned => true,
        _ => false,
    }
}

impl Status {
    /// True exactly when moving from `self` to `new_status` is legal:
    /// self-transitions always are; any other move must be a listed edge of
    /// the transition table.
    pub fn can_transition_to(&self, new_status: &Status) -> (r: bool)
        ensures
            r == spec_can_transition(*self, *new_status),
    {
        if *self == *new_status {
            return true;
        }
        match (self, new_status) {
            (Status::Pending, Status::AwaitingPayment) => true,
            (Status::Pending, Status::PaymentProcessing) => true,
            (Status::Pending, Status::Paid) => true,
            (Status::Pending, Status::Failed) => true,
            (Status::Pending, Status::Cancelled) => true,
            (Status::AwaitingPayment, Status::PaymentProcessing) => true,
            (Status::AwaitingPayment, Status::Paid) => true,
            (Status::AwaitingPayment, Status::Failed) => true,
            (Status::AwaitingPayment, Status::Cancelled) => true,
            (Status::AwaitingPayment, Status::Expired) => true,
            (Status::PaymentProcessing, Status::Paid) => true,
            (Status::PaymentProcessing, Status::Failed) => true,
            (Status::PaymentProcessing, Status::Cancelled) => true,
            (Status::PaymentProcessing, Status::Authorized) => true,
            (Status::Authorized, Status::Captured) => true,
            (Status::Authorized, Status::Cancelled) => true,
            (Status::Authorized, Status::Expired) => true,
            (Status::Captured, Status::Processing) => true,
            (Status::Captured, Status::Refunded) => true,
            (Status::Paid, Status::Processing) => true,
            (Status::Paid, Status::Cancelled) => true,
            (Status::Paid, Status::Refunded) => true,
            (Status::Processing, Status::Fulfilled) => true,
            (Status::Processing, Status::PartiallyFulfilled) => true,
            (Status::Processing, Status::Cancelled) => true,
            (Status::Processing, Status::Failed) => true,
            (Status::PartiallyFulfilled, Status::Fulfilled) => true,
            (Status::PartiallyFulfilled, Status::Cancelled) => true,
            (Status::Fulfilled, Status::Shipped) => true,
            (Status::Fulfilled, Status::PartiallyShipped) => true,
            (Status::PartiallyShipped, Status::Shipped) => true,
            (Status::Shipped, Status::OutForDelivery) => true,
            (Status::Shipped, Status::Delivered) => true,
            (Status::Shipped, Status::Returned) => true,
            (Status::OutForDelivery, Status::Delivered) => true,
            (Status::OutForDelivery, Status::Returned) => true,
            (Status::Delivered, Status::Refunded) => true,
            (Status::Delivered, Status::PartiallyRefunded) => true,
            (Status::Delivered, Status::Disputed) => true,
            (Status::Delivered, Status::Returned) => true,
            (Status::PartiallyRefunded, Status::Refunded) => true,
            (Status::PartiallyRefunded, Status::Disputed) => true,
            (Status::Returned, Status::Refunded) => true,
            (Status::Active, Status::Inactive) => true,
            (Status::Active, Status::Suspended) => true,
            (Status::Active, Status::Deleted) => true,
            (Status::Inactive, Status::Active) => true,
            (Status::Inactive, Status::Deleted) => true,
            (Status::Suspended, Status::Active) => true,
            (Status::Suspended, Status::Deleted) => true,
            _ => false,
        }
    }

    /// True for the terminal states of the cancellation predicate.
    pub fn is_final_status(&self) -> (r: bool)
        ensures
            r == spec_is_final(*self),
    {
        match self {
            Status::Delivered => true,
            Status::Cancelled => true,
            Status::Refunded => true,
            Status::Failed => true,
            Status::Expired => true,
            Status::Disputed => true,
            Status::Deleted => true,
            Status::Returned => true,
            _ => false,
        }
    }

    /// True for non-final, pre-fulfillment states that may still be
    /// cancelled.
    pub fn can_be_cancelled(&self) -> (r: bool)
        ensures
            r == spec_can_be_cancelled(*self),
    {
        if self.is_final_status() {
            return false;
        }
        match self {
            Status::Pending => true,
            Status::AwaitingPayment => true,
            Status::PaymentProcessing => true,
            Status::Paid => true,
            Status::Processing => true,
            Status::Authorized => true,
            _ => false,
        }
    }

    /// True for the post-payment states from which a refund is permitted.
    /// Note that `Delivered`, though final for cancellation, can still be
    /// refunded: terminality is local to the cancellation predicate.
    pub fn can_be_refunded(&self) -> (r: bool)
        ensures
            r == spec_can_be_refunded(*self),
    {
        match self {
            Status::Paid => true,
            Status::Captured => true,
            Status::Processing => true,
            Status::PartiallyFulfilled => true,
            Status::Fulfilled => true,
            Status::Shipped => true,
            Status::PartiallyShipped => true,
            Status::OutForDelivery => true,
            Status::Delivered => true,
            Status::PartiallyRefunded => true,
            Status::Returned => true,
            _ => false,
        }
    }

    /// The snake_case wire name of the state.
    pub fn to_str(&self) -> (r: &'static str)
        ensures
            r@ == self.spec_str(),
    {
        match self {
            Status::Pending => "pending",
            Status::AwaitingPayment => "awaiting_payment",
            Status::PaymentProcessing => "payment_processing",
            Status::Authorized => "authorized",
            Status::Captured => "captured",
            Status::Paid => "paid",
            Status::Processing => "processing",
            Status::PartiallyFulfilled => "partially_fulfilled",
            Status::Fulfilled => "fulfilled",
            Status::Shipped => "shipped",
            Status::PartiallyShipped => "partially_shipped",
            Status::OutForDelivery => "out_for_delivery",
            Status::Delivered => "delivered",
            Status::Cancelled => "cancelled",
            Status::Refunded => "refunded",
            Status::PartiallyRefunded => "partially_refunded",
            Status::Disputed => "disputed",
            Status::Failed => "failed",
            Status::Expired => "expired",
            Status::Returned => "returned",
            Status::Active => "active",
            Status::Inactive => "inactive",
            Status::Suspended => "suspended",
            Status::Deleted => "deleted",
        }
    }

    /// The wire name [`Self::to_str`] returns for each state.
    pub open spec fn spec_str(&self) -> Seq<char> {
        match self {
            Status::Pending => "pending"@,
            Status::AwaitingPayment => "awaiting_payment"@,
            Status::PaymentProcessing => "payment_processing"@,
            Status::Authorized => "authorized"@,
            Status::Captured => "captured"@,
            Status::Paid => "paid"@,
            Status::Processing => "processing"@,
            Status::PartiallyFulfilled => "partially_fulfilled"@,
            Status::Fulfilled => "fulfilled"@,
            Status::Shipped => "shipped"@,
            Status::PartiallyShipped => "partially_shipped"@,
            Status::OutForDelivery => "out_for_delivery"@,
            Status::Delivered => "delivered"@,
            Status::Cancelled => "cancelled"@,
            Status::Refunded => "refunded"@,
            Status::PartiallyRefunded => "partially_refunded"@,
            Status::Disputed => "disputed"@,
            Status::Failed => "failed"@,
            Status::Expired => "expired"@,
            Status::Returned => "returned"@,
            Status::Active => "active"@,
            Status::Inactive => "inactive"@,
            Status::Suspended => "suspended"@,
            Status::Deleted => "deleted"@,
        }
    }
}

/// A self-transition is always legal, whatever the state.
pub proof fn lemma_self_transition_always_legal(s: Status)
    ensures
        spec_can_transition(s, s),
{
}

/// Every state that can be cancelled is non-final, and from a final state no
/// cancellation is permitted.
pub proof fn lemma_final_states_cannot_cancel(s: Status)
    ensures
        spec_is_final(s) ==> !spec_can_be_cancelled(s),
        spec_can_be_cancelled(s) ==> !spec_is_final(s),
{
}

/// The payment lifecycle states of a payment entity.
#[derive(Clone, Copy, Debug, PartialEq, Eq, Hash, Structural)]
pub enum PaymentStatus {
    Pending,
    Processing,
    Completed,
    Failed,
    Refunded,
    Cancelled,
}

impl PaymentStatus {
    /// The Portuguese display name of the payment status.
    pub fn portuguese(&self) -> (r: &'static str)
        ensures
            r@ == self.spec_portuguese(),
    {
        match self {
            PaymentStatus::Pending => "Pendente",
            PaymentStatus::Processing => "Processando",
            PaymentStatus::Completed => "Concluído",
            PaymentStatus::Failed => "Falhou",
            PaymentStatus::Refunded => "Estornado",
            PaymentStatus::Cancelled => "Cancelado",
        }
    }

    /// The name [`Self::portuguese`] returns for each status.
    pub open spec fn spec_portuguese(&self) -> Seq<char> {
        match self {
            PaymentStatus::Pending => "Pendente"@,
            PaymentStatus::Processing => "Processando"@,
            PaymentStatus::Completed => "Concluído"@,
            PaymentStatus::Failed => "Falhou"@,
            PaymentStatus::Refunded => "Estornado"@,
            PaymentStatus::Cancelled => "Cancelado"@,
        }
    }
}

/// The subscription lifecycle states.
#[derive(Clone, Copy, Debug, PartialEq, Eq, Hash, Structural)]
pub enum SubscriptionStatus {
    Active,
    Trialing,
    PastDue,
    Paused,
    Cancelled,
}

/// How often a subscription bills.
#[derive(Clone, Copy, Debug, PartialEq, Eq, Hash, Structural)]
pub enum BillingInterval {
    Monthly,
    Quarterly,
    Yearly,
}

} // verus!
