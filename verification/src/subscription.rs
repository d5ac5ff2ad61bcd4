//! The subscription entity: billing periods, trials, pause and resume, and
//! prorated upgrades.
//!
//! All instants are seconds since the Unix epoch. Proration is computed in
//! exact integer arithmetic: the price difference scaled by the remaining
//! fraction of the billing period, truncated toward zero, and clamped to the
//! full new price once the period has elapsed.

use vstd::prelude::*;
use crate::errors::PaymentError;
use crate::money::Money;
use crate::status::{SubscriptionStatus, BillingInterval};

verus! {

/// The latest instant the entity arithmetic is specified for, seconds since
/// the Unix epoch (around the year 5138).
pub const MAX_EPOCH_SECS: i64 = 100_000_000_000;

/// Days in a billing interval: 30, 90 or 365.
pub open spec fn spec_interval_secs(i: BillingInterval) -> int {
    match i {
        BillingInterval::Monthly => 2_592_000,
        BillingInterval::Quarterly => 7_776_000,
        BillingInterval::Yearly => 31_536_000,
    }
}

/// A subscription with its lifecycle state, billing interval and period,
/// trial window and pause bookkeeping.
pub struct Subscription {
    pub id: String,
    pub status: SubscriptionStatus,
    pub interval: BillingInterval,
    pub price: Money,
    pub current_period_start: i64,
    pub current_period_end: i64,
    pub trial_start: Option<i64>,
    pub trial_end: Option<i64>,
    pub trial_converted_at: Option<i64>,
    pub pause_collection: Option<i64>,
    pub pause_reason: Option<String>,
    pub cancelled_at: Option<i64>,
    pub cancellation_reason: Option<String>,
    pub created_at: i64,
    pub updated_at: i64,
}

/// The timestamp sanity bounds the arithmetic below relies on: every instant
/// sits in `[0, MAX_EPOCH_SECS]` and the billing period is ordered.
pub open spec fn spec_subscription_wf(s: Subscription) -> bool {
    &&& 0 <= s.created_at <= MAX_EPOCH_SECS
    &&& 0 <= s.current_period_start <= MAX_EPOCH_SECS
    &&& 0 <= s.current_period_end <= MAX_EPOCH_SECS
    &&& s.current_period_start < s.current_period_end
    &&& match s.trial_end {
        Some(te) => 0 <= te <= MAX_EPOCH_SECS,
        None => true,
    }
}

/// Truncated (toward zero) integer division, the semantics of the
/// proration quotient; `b` must be positive.
pub open spec fn spec_trunc_div(a: int, b: int) -> int {
    if a >= 0 {
        a / b
    } else {
        -((-a) / b)
    }
}

/// The prorated charge for moving to `new_price` at instant `now`: the full
/// new price once the period has elapsed, otherwise the price difference
/// scaled by the remaining fraction of the period.
pub open spec fn spec_proration(
    price: int,
    new_price: int,
    start: int,
    end: int,
    now: int,
) -> int {
    if now >= end {
        new_price
    } else {
        spec_trunc_div((new_price - price) * (end - now), end - start)
    }
}

/// At the exact start of the billing period the proration is the full price
/// difference; at or after the period end it is the full new price.
pub proof fn lemma_proration_boundaries(price: int, new_price: int, start: int, end: int)
    requires
        start < end,
    ensures
        spec_proration(price, new_price, start, end, start) == new_price - price,
        forall|now: int| now >= end ==> spec_proration(price, new_price, start, end, now)
            == new_price,
{
    let diff = new_price - price;
    let total = end - start;
    assert(diff * total / total == diff) by (nonlinear_arith)
        requires
            total > 0,
    ;
    if diff >= 0 {
        assert(spec_trunc_div(diff * total, total) == diff * total / total);
    } else {
        assert(diff * total < 0) by (nonlinear_arith)
            requires
                diff < 0,
                total > 0,
        ;
        assert((-(diff * total)) == (-diff) * total) by (nonlinear_arith);
        assert((-diff) * total / total == -diff) by (nonlinear_arith)
            requires
                total > 0,
        ;
    }
}

impl Subscription {
    /// True while the subscription is active or trialing and the billing
    /// period has not ended.
    pub fn is_active(&self, now: i64) -> (r: bool)
        ensures
            r == ((self.status == SubscriptionStatus::Active || self.status
                == SubscriptionStatus::Trialing) && self.current_period_end > now),
    {
        (matches!(self.status, SubscriptionStatus::Active) || matches!(
            self.status,
            SubscriptionStatus::Trialing,
        )) && self.current_period_end > now
    }

    /// True while trialing inside the trial window.
    pub fn in_trial(&self, now: i64) -> (r: bool)
        ensures
            r == (self.status == SubscriptionStatus::Trialing && match self.trial_end {
                Some(te) => te > now,
                None => false,
            }),
    {
        matches!(self.status, SubscriptionStatus::Trialing) && match self.trial_end {
            Some(te) => te > now,
            None => false,
        }
    }

    /// Whole days left in the trial at `now`, when at least one remains.
    pub fn trial_days_remaining(&self, now: i64) -> (r: Option<i64>)
        requires
            0 <= now <= MAX_EPOCH_SECS,
            spec_subscription_wf(*self),
        ensures
            ({
                match self.trial_end {
                    Some(te) => if te - now >= 86_400 {
                        r matches Some(d) && d == (te - now) / 86_400
                    } else {
                        r is None
                    },
                    None => r is None,
                }
            }),
    {
        match self.trial_end {
            Some(te) => {
                if te > now && te - now >= 86_400 {
                    Some((te - now) / 86_400)
                } else {
                    None
                }
            },
            None => None,
        }
    }

    /// True for the states from which a cancellation is permitted.
    pub fn can_cancel(&self) -> (r: bool)
        ensures
            r == (self.status == SubscriptionStatus::Active || self.status
                == SubscriptionStatus::Trialing || self.status == SubscriptionStatus::PastDue),
    {
        matches!(
            self.status,
            SubscriptionStatus::Active | SubscriptionStatus::Trialing | SubscriptionStatus::PastDue
        )
    }

    /// True when the subscription can be resumed: paused, or cancelled with
    /// paid time still left in the period.
    pub fn can_resume(&self, now: i64) -> (r: bool)
        ensures
            r == (self.status == SubscriptionStatus::Paused || (self.status
                == SubscriptionStatus::Cancelled && self.current_period_end > now)),
    {
        matches!(self.status, SubscriptionStatus::Paused) || (matches!(
            self.status,
            SubscriptionStatus::Cancelled,
        ) && self.current_period_end > now)
    }

    /// The next billing instant: one interval past the current period end.
    pub fn next_billing_date(&self) -> (r: i64)
        requires
            spec_subscription_wf(*self),
        ensures
            r == self.current_period_end + spec_interval_secs(self.interval),
    {
        match self.interval {
            BillingInterval::Monthly => self.current_period_end + 2_592_000,
            BillingInterval::Quarterly => self.current_period_end + 7_776_000,
            BillingInterval::Yearly => self.current_period_end + 31_536_000,
        }
    }

    /// The prorated charge for moving to `new_price` at instant `now`, as
    /// [`spec_proration`] gives it.
    pub fn calculate_proration(&self, new_price: Money, now: i64) -> (r: Money)
        requires
            spec_subscription_wf(*self),
            0 <= now <= MAX_EPOCH_SECS,
            now >= self.current_period_start,
            new_price.micros - self.price.micros <= i64::MAX,
            new_price.micros - self.price.micros >= i64::MIN + 1,
        ensures
            r.micros == spec_proration(
                self.price.micros as int,
                new_price.micros as int,
                self.current_period_start as int,
                self.current_period_end as int,
                now as int,
            ),
    {
        if now >= self.current_period_end {
            return new_price;
        }
        let total: i64 = self.current_period_end - self.current_period_start;
        let remaining: i64 = self.current_period_end - now;
        let diff: i64 = new_price.micros - self.price.micros;
        let neg = diff < 0;
        let mag: u64 = if neg {
            (-(diff as i128)) as u64
        } else {
            diff as u64
        };
        proof {
            assert((mag as int) * (remaining as int) <= (u64::MAX as int) * (
            MAX_EPOCH_SECS as int)) by (nonlinear_arith)
                requires
                    0 <= mag <= u64::MAX,
                    0 <= remaining <= MAX_EPOCH_SECS,
            ;
        }
        let wide: u128 = (mag as u128) * (remaining as u128);
        let q: u128 = wide / (total as u128);
        proof {
            assert(q <= mag) by (nonlinear_arith)
                requires
                    0 < remaining <= total,
                    wide == mag * remaining,
                    q == wide / (total as u128),
            ;
            if neg {
                assert(spec_trunc_div((diff as int) * (remaining as int), total as int) == -(
                q as int)) by (nonlinear_arith)
                    requires
                        diff < 0,
                        mag == -(diff as int),
                        0 < remaining <= total,
                        wide == mag * remaining,
                        q == wide / (total as u128),
                ;
            } else {
                assert(spec_trunc_div((diff as int) * (remaining as int), total as int)
                    == q as int) by (nonlinear_arith)
                    requires
                        diff >= 0,
                        mag == diff,
                        0 < remaining <= total,
                        wide == mag * remaining,
                        q == wide / (total as u128),
                ;
            }
        }
        if neg {
            Money { micros: -(q as i64) }
        } else {
            Money { micros: q as i64 }
        }
    }

    /// Starts a trial of `trial_days` at `now` on an active or trialing
    /// subscription; any other state is rejected unchanged.
    pub fn start_trial(&mut self, trial_days: i64, now: i64) -> (r: Result<(), PaymentError>)
        requires
            0 <= trial_days <= 36_500,
            0 <= now <= MAX_EPOCH_SECS,
        ensures
            (old(self).status == SubscriptionStatus::Active || old(self).status
                == SubscriptionStatus::Trialing) ==> (r is Ok && *final(self) == Subscription {
                status: SubscriptionStatus::Trialing,
                trial_start: Some(now),
                trial_end: Some((now + trial_days * 86_400) as i64),
                updated_at: now,
                ..*old(self)
            }),
            !(old(self).status == SubscriptionStatus::Active || old(self).status
                == SubscriptionStatus::Trialing) ==> (r matches Err(e) && e == (
            PaymentError::InvalidSubscriptionStateTransition {
                from: old(self).status,
                to: SubscriptionStatus::Trialing,
            }) && *final(self) == *old(self)),
    {
        if !(matches!(self.status, SubscriptionStatus::Active) || matches!(
            self.status,
            SubscriptionStatus::Trialing,
        )) {
            return Err(
                PaymentError::InvalidSubscriptionStateTransition {
                    from: self.status,
                    to: SubscriptionStatus::Trialing,
                },
            );
        }
        self.status = SubscriptionStatus::Trialing;
        self.trial_start = Some(now);
        self.trial_end = Some(now + trial_days * 86_400);
        self.updated_at = now;
        Ok(())
    }

    /// Converts a trial to a paid subscription at `now`; any other state is
    /// rejected unchanged.
    pub fn convert_trial_to_paid(&mut self, now: i64) -> (r: Result<(), PaymentError>)
        ensures
            old(self).status == SubscriptionStatus::Trialing ==> (r is Ok && *final(self)
                == Subscription {
                status: SubscriptionStatus::Active,
                trial_converted_at: Some(now),
                updated_at: now,
                ..*old(self)
            }),
            old(self).status != SubscriptionStatus::Trialing ==> (r matches Err(e) && e == (
            PaymentError::InvalidSubscriptionStateTransition {
                from: old(self).status,
                to: SubscriptionStatus::Active,
            }) && *final(self) == *old(self)),
    {
        if !matches!(self.status, SubscriptionStatus::Trialing) {
            return Err(
                PaymentError::InvalidSubscriptionStateTransition {
                    from: self.status,
                    to: SubscriptionStatus::Active,
                },
            );
        }
        self.status = SubscriptionStatus::Active;
        self.trial_converted_at = Some(now);
        self.updated_at = now;
        Ok(())
    }

    /// Pauses an active or trialing subscription at `now`, keeping access
    /// until the period end; any other state is rejected unchanged.
    pub fn pause(&mut self, reason: Option<String>, now: i64) -> (r: Result<(), PaymentError>)
        ensures
            (old(self).status == SubscriptionStatus::Active || old(self).status
                == SubscriptionStatus::Trialing) ==> (r is Ok && *final(self) == Subscription {
                status: SubscriptionStatus::Paused,
                pause_collection: Some(old(self).current_period_end),
                pause_reason: reason,
                updated_at: now,
                ..*old(self)
            }),
            !(old(self).status == SubscriptionStatus::Active || old(self).status
                == SubscriptionStatus::Trialing) ==> (r matches Err(e) && e == (
            PaymentError::InvalidSubscriptionStateTransition {
                from: old(self).status,
                to: SubscriptionStatus::Paused,
            }) && *final(self) == *old(self)),
    {
        if !(matches!(self.status, SubscriptionStatus::Active) || matches!(
            self.status,
            SubscriptionStatus::Trialing,
        )) {
            return Err(
                PaymentError::InvalidSubscriptionStateTransition {
                    from: self.status,
                    to: SubscriptionStatus::Paused,
                },
            );
        }
        self.status = SubscriptionStatus::Paused;
        self.pause_collection = Some(self.current_period_end);
        self.pause_reason = reason;
        self.updated_at = now;
        Ok(())
    }

    /// Resumes a paused subscription at `now`, rolling a lapsed billing
    /// period forward from `now`; any other state is rejected unchanged.
    pub fn resume(&mut self, now: i64) -> (r: Result<(), PaymentError>)
        requires
            spec_subscription_wf(*old(self)),
            0 <= now <= MAX_EPOCH_SECS,
        ensures
            old(self).status != SubscriptionStatus::Paused ==> (r matches Err(e) && e == (
            PaymentError::InvalidSubscriptionStateTransition {
                from: old(self).status,
                to: SubscriptionStatus::Active,
            }) && *final(self) == *old(self)),
            (old(self).status == SubscriptionStatus::Paused && old(self).current_period_end >= now)
                ==> (r is Ok && *final(self) == Subscription {
                status: SubscriptionStatus::Active,
                pause_collection: None,
                pause_reason: None,
                updated_at: now,
                ..*old(self)
            }),
            (old(self).status == SubscriptionStatus::Paused && old(self).current_period_end < now)
                ==> (r is Ok && *final(self) == Subscription {
                status: SubscriptionStatus::Active,
                pause_collection: None,
                pause_reason: None,
                updated_at: now,
                current_period_start: now,
                current_period_end: (now + spec_interval_secs(old(self).interval)) as i64,
                ..*old(self)
            }),
    {
        if !matches!(self.status, SubscriptionStatus::Paused) {
            return Err(
                PaymentError::InvalidSubscriptionStateTransition {
                    from: self.status,
                    to: SubscriptionStatus::Active,
                },
            );
        }
        self.status = SubscriptionStatus::Active;
        self.pause_collection = None;
        self.pause_reason = None;
        self.updated_at = now;
        if self.current_period_end < now {
            self.current_period_start = now;
            self.current_period_end = match self.interval {
                BillingInterval::Monthly => now + 2_592_000,
                BillingInterval::Quarterly => now + 7_776_000,
                BillingInterval::Yearly => now + 31_536_000,
            };
        }
        Ok(())
    }

    /// Cancels the subscription at `now`, keeping access until the period
    /// end; states outside [`Self::can_cancel`] are rejected unchanged.
    pub fn cancel(&mut self, reason: Option<String>, now: i64) -> (r: Result<(), PaymentError>)
        ensures
            (old(self).status == SubscriptionStatus::Active || old(self).status
                == SubscriptionStatus::Trialing || old(self).status == SubscriptionStatus::PastDue)
                ==> (r is Ok && *final(self) == Subscription {
                status: SubscriptionStatus::Cancelled,
                cancelled_at: Some(now),
                cancellation_reason: reason,
                updated_at: now,
                ..*old(self)
            }),
            !(old(self).status == SubscriptionStatus::Active || old(self).status
                == SubscriptionStatus::Trialing || old(self).status == SubscriptionStatus::PastDue)
                ==> (r matches Err(e) && e == (PaymentError::InvalidSubscriptionStateTransition {
                from: old(self).status,
                to: SubscriptionStatus::Cancelled,
            }) && *final(self) == *old(self)),
    {
        if !self.can_cancel() {
            return Err(
                PaymentError::InvalidSubscriptionStateTransition {
                    from: self.status,
                    to: SubscriptionStatus::Cancelled,
                },
            );
        }
        self.status = SubscriptionStatus::Cancelled;
        self.cancelled_at = Some(now);
        self.cancellation_reason = reason;
        self.updated_at = now;
        Ok(())
    }

    /// Marks an active subscription past due at `now`; any other state is
    /// rejected unchanged.
    pub fn mark_past_due(&mut self, now: i64) -> (r: Result<(), PaymentError>)
        ensures
            old(self).status == SubscriptionStatus::Active ==> (r is Ok && *final(self)
                == Subscription {
                status: SubscriptionStatus::PastDue,
                updated_at: now,
                ..*old(self)
            }),
            old(self).status != SubscriptionStatus::Active ==> (r matches Err(e) && e == (
            PaymentError::InvalidSubscriptionStateTransition {
                from: old(self).status,
                to: SubscriptionStatus::PastDue,
            }) && *final(self) == *old(self)),
    {
        if !matches!(self.status, SubscriptionStatus::Active) {
            return Err(
                PaymentError::InvalidSubscriptionStateTransition {
                    from: self.status,
                    to: SubscriptionStatus::PastDue,
                },
            );
        }
        self.status = SubscriptionStatus::PastDue;
        self.updated_at = now;
        Ok(())
    }

    /// Rolls the billing period forward after a successful payment at
    /// `now`: a lapsed period advances by one interval from its old end, and
    /// a past-due subscription becomes active again.
    pub fn update_billing_period(&mut self, now: i64) -> (r: Result<(), PaymentError>)
        requires
            spec_subscription_wf(*old(self)),
            0 <= now <= MAX_EPOCH_SECS,
        ensures
            r is Ok,
            final(self).updated_at == now,
            old(self).current_period_end <= now ==> (final(self).current_period_start
                == old(self).current_period_end && final(self).current_period_end
                == old(self).current_period_end + spec_interval_secs(old(self).interval)),
            old(self).current_period_end > now ==> (final(self).current_period_start
                == old(self).current_period_start && final(self).current_period_end
                == old(self).current_period_end),
            final(self).status == (if old(self).status == SubscriptionStatus::PastDue {
                SubscriptionStatus::Active
            } else {
                old(self).status
            }),
            final(self).id == old(self).id && final(self).interval == old(self).interval,
            final(self).price == old(self).price && final(self).created_at == old(self).created_at,
    {
        if self.current_period_end <= now {
            self.current_period_start = self.current_period_end;
            self.current_period_end = match self.interval {
                BillingInterval::Monthly => self.current_period_start + 2_592_000,
                BillingInterval::Quarterly => self.current_period_start + 7_776_000,
                BillingInterval::Yearly => self.current_period_start + 31_536_000,
            };
        }
        if matches!(self.status, SubscriptionStatus::PastDue) {
            self.status = SubscriptionStatus::Active;
        }
        self.updated_at = now;
        Ok(())
    }

    /// The monthly recurring revenue at `now`: zero when inactive, else the
    /// price spread over the interval's months, truncated to the micro.
    pub fn monthly_recurring_revenue(&self, now: i64) -> (r: Money)
        requires
            self.price.micros >= 0,
        ensures
            !((self.status == SubscriptionStatus::Active || self.status
                == SubscriptionStatus::Trialing) && self.current_period_end > now) ==> r.micros
                == 0,
            ((self.status == SubscriptionStatus::Active || self.status
                == SubscriptionStatus::Trialing) && self.current_period_end > now) ==> r.micros
                == (match self.interval {
                BillingInterval::Monthly => self.price.micros as int,
                BillingInterval::Quarterly => self.price.micros as int / 3,
                BillingInterval::Yearly => self.price.micros as int / 12,
            }),
    {
        if !self.is_active(now) {
            return Money { micros: 0 };
        }
        match self.interval {
            BillingInterval::Monthly => self.price,
            BillingInterval::Quarterly => Money { micros: self.price.micros / 3 },
            BillingInterval::Yearly => Money { micros: self.price.micros / 12 },
        }
    }

    /// The subscription's age in whole days at `now`.
    pub fn age_days(&self, now: i64) -> (r: i64)
        requires
            spec_subscription_wf(*self),
            self.created_at <= now <= MAX_EPOCH_SECS,
        ensures
            r == (now - self.created_at) / 86_400,
    {
        (now - self.created_at) / 86_400
    }

    /// True while a past-due subscription is still inside its grace window
    /// of `grace_days` past the period end.
    pub fn in_grace_period(&self, grace_days: i64, now: i64) -> (r: bool)
        requires
            spec_subscription_wf(*self),
            0 <= grace_days <= 36_500,
        ensures
            r == (self.status == SubscriptionStatus::PastDue && now <= self.current_period_end
                + grace_days * 86_400),
    {
        if !matches!(self.status, SubscriptionStatus::PastDue) {
            return false;
        }
        let grace_end = self.current_period_end + grace_days * 86_400;
        now <= grace_end
    }

    /// A snapshot of the subscription's health at `now`.
    pub fn metrics(&self, now: i64) -> (r: SubscriptionMetrics)
        requires
            spec_subscription_wf(*self),
            self.created_at <= now <= MAX_EPOCH_SECS,
            0 <= self.price.micros <= crate::payment::MAX_AMOUNT_MICROS,
        ensures
            r.is_active == ((self.status == SubscriptionStatus::Active || self.status
                == SubscriptionStatus::Trialing) && self.current_period_end > now),
            r.in_trial == (self.status == SubscriptionStatus::Trialing && match self.trial_end {
                Some(te) => te > now,
                None => false,
            }),
            r.mrr.micros == (if !((self.status == SubscriptionStatus::Active || self.status
                == SubscriptionStatus::Trialing) && self.current_period_end > now) {
                0int
            } else {
                match self.interval {
                    BillingInterval::Monthly => self.price.micros as int,
                    BillingInterval::Quarterly => self.price.micros as int / 3,
                    BillingInterval::Yearly => self.price.micros as int / 12,
                }
            }),
            r.age_days == (now - self.created_at) / 86_400,
            r.lifetime_value.micros == self.price.micros * (((now - self.created_at) / 86_400)
                / 30),
    {
        let age = self.age_days(now);
        let months = age / 30;
        proof {
            assert(0 <= age <= 1_157_408) by (nonlinear_arith)
                requires
                    age == (now - self.created_at) / 86_400,
                    0 <= now - self.created_at <= 100_000_000_000,
            ;
            assert(0 <= months <= 38_581) by (nonlinear_arith)
                requires
                    months == age / 30,
                    0 <= age <= 1_157_408,
            ;
            assert(0 <= self.price.micros * months <= i64::MAX) by (nonlinear_arith)
                requires
                    0 <= self.price.micros <= 1_000_000_000_000,
                    0 <= months <= 38_581,
            ;
        }
        let wide: i128 = (self.price.micros as i128) * (months as i128);
        SubscriptionMetrics {
            is_active: self.is_active(now),
            in_trial: self.in_trial(now),
            mrr: self.monthly_recurring_revenue(now),
            age_days: age,
            lifetime_value: Money { micros: wide as i64 },
        }
    }
}

/// Health metrics of a subscription.
pub struct SubscriptionMetrics {
    pub is_active: bool,
    pub in_trial: bool,
    pub mrr: Money,
    pub age_days: i64,
    pub lifetime_value: Money,
}

} // verus!
