//! The wallet entity: available and pending balances, a token counter, and
//! lifetime earning and spending totals.
//!
//! Every mutation validates its amount, keeps balances non-negative, and
//! touches `updated_at`; a rejected operation leaves the wallet unchanged.

use vstd::prelude::*;
use crate::errors::PaymentError;
use crate::money::Money;

verus! {

/// A user's wallet.
pub struct Wallet {
    pub id: String,
    pub user_id: String,
    pub balance: Money,
    pub pending_balance: Money,
    pub tokens: i64,
    pub lifetime_earnings: Money,
    pub lifetime_spending: Money,
    pub locked: bool,
    pub locked_at: Option<i64>,
    pub lock_reason: Option<String>,
    pub updated_at: i64,
}

/// The balance bounds the wallet arithmetic relies on: balances and
/// lifetime totals are non-negative and small enough that one more
/// operation cannot overflow.
pub open spec fn spec_wallet_wf(w: Wallet) -> bool {
    &&& 0 <= w.balance.micros <= 1_000_000_000_000_000_000
    &&& 0 <= w.pending_balance.micros <= 1_000_000_000_000_000_000
    &&& 0 <= w.lifetime_earnings.micros <= 1_000_000_000_000_000_000
    &&& 0 <= w.lifetime_spending.micros <= 1_000_000_000_000_000_000
    &&& 0 <= w.tokens
}

impl Wallet {
    /// The available (confirmed) balance.
    pub fn available_balance(&self) -> (r: Money)
        ensures
            r == self.balance,
    {
        self.balance
    }

    /// The total balance, pending funds included.
    pub fn total_balance(&self) -> (r: Money)
        requires
            self.balance.micros + self.pending_balance.micros <= i64::MAX,
            self.balance.micros + self.pending_balance.micros >= i64::MIN,
        ensures
            r.micros == self.balance.micros + self.pending_balance.micros,
    {
        self.balance.plus(self.pending_balance)
    }

    /// Credits a positive amount to the available balance and the lifetime
    /// earnings; non-positive amounts are rejected unchanged.
    pub fn add_balance(&mut self, amount: Money, now: i64) -> (r: Result<(), PaymentError>)
        requires
            spec_wallet_wf(*old(self)),
            amount.micros <= 1_000_000_000_000_000_000,
        ensures
            amount.micros <= 0 ==> (r matches Err(e) && e == PaymentError::InvalidAmount && *final(self) == *old(self)),
            amount.micros > 0 ==> (r is Ok && *final(self) == Wallet {
                balance: Money { micros: (old(self).balance.micros + amount.micros) as i64 },
                lifetime_earnings: Money {
                    micros: (old(self).lifetime_earnings.micros + amount.micros) as i64,
                },
                updated_at: now,
                ..*old(self)
            }),
    {
        if amount.micros <= 0 {
            return Err(PaymentError::InvalidAmount);
        }
        self.balance = self.balance.plus(amount);
        self.lifetime_earnings = self.lifetime_earnings.plus(amount);
        self.updated_at = now;
        Ok(())
    }

    /// Debits a positive amount from the available balance, tracking it in
    /// the lifetime spending; non-positive amounts and amounts beyond the
    /// balance are rejected unchanged.
    pub fn subtract_balance(&mut self, amount: Money, now: i64) -> (r: Result<(), PaymentError>)
        requires
            spec_wallet_wf(*old(self)),
            amount.micros <= 1_000_000_000_000_000_000,
        ensures
            amount.micros <= 0 ==> (r matches Err(e) && e == PaymentError::InvalidAmount && *final(self) == *old(self)),
            amount.micros > 0 && old(self).balance.micros < amount.micros ==> (r matches Err(e)
                && e == PaymentError::InsufficientFunds && *final(self) == *old(self)),
            amount.micros > 0 && old(self).balance.micros >= amount.micros ==> (r is Ok && *final(self) == Wallet {
                balance: Money { micros: (old(self).balance.micros - amount.micros) as i64 },
                lifetime_spending: Money {
                    micros: (old(self).lifetime_spending.micros + amount.micros) as i64,
                },
                updated_at: now,
                ..*old(self)
            }),
    {
        if amount.micros <= 0 {
            return Err(PaymentError::InvalidAmount);
        }
        if self.balance.lt(amount) {
            return Err(PaymentError::InsufficientFunds);
        }
        self.balance = self.balance.minus(amount);
        self.lifetime_spending = self.lifetime_spending.plus(amount);
        self.updated_at = now;
        Ok(())
    }

    /// Credits tokens, saturating at the counter's maximum; negative counts
    /// are rejected unchanged.
    pub fn add_tokens(&mut self, tokens: i64, now: i64) -> (r: Result<(), PaymentError>)
        ensures
            tokens < 0 ==> (r matches Err(e) && e == PaymentError::InvalidAmount && *final(self)
                == *old(self)),
            tokens >= 0 ==> (r is Ok && *final(self) == Wallet {
                tokens: (if old(self).tokens + tokens <= i64::MAX {
                    (old(self).tokens + tokens) as i64
                } else {
                    i64::MAX
                }),
                updated_at: now,
                ..*old(self)
            }),
    {
        if tokens < 0 {
            return Err(PaymentError::InvalidAmount);
        }
        if self.tokens <= i64::MAX - tokens {
            self.tokens = self.tokens + tokens;
        } else {
            self.tokens = i64::MAX;
        }
        self.updated_at = now;
        Ok(())
    }

    /// Spends tokens; negative counts and counts beyond the balance are
    /// rejected unchanged.
    pub fn spend_tokens(&mut self, tokens: i64, now: i64) -> (r: Result<(), PaymentError>)
        ensures
            tokens < 0 ==> (r matches Err(e) && e == PaymentError::InvalidAmount && *final(self)
                == *old(self)),
            tokens >= 0 && old(self).tokens < tokens ==> (r matches Err(e) && e
                == PaymentError::InsufficientFunds && *final(self) == *old(self)),
            tokens >= 0 && old(self).tokens >= tokens ==> (r is Ok && *final(self) == Wallet {
                tokens: (old(self).tokens - tokens) as i64,
                updated_at: now,
                ..*old(self)
            }),
    {
        if tokens < 0 {
            return Err(PaymentError::InvalidAmount);
        }
        if self.tokens < tokens {
            return Err(PaymentError::InsufficientFunds);
        }
        self.tokens = self.tokens - tokens;
        self.updated_at = now;
        Ok(())
    }

    /// Credits a positive amount to the pending balance; non-positive
    /// amounts are rejected unchanged.
    pub fn add_pending(&mut self, amount: Money, now: i64) -> (r: Result<(), PaymentError>)
        requires
            spec_wallet_wf(*old(self)),
            amount.micros <= 1_000_000_000_000_000_000,
        ensures
            amount.micros <= 0 ==> (r matches Err(e) && e == PaymentError::InvalidAmount && *final(self) == *old(self)),
            amount.micros > 0 ==> (r is Ok && *final(self) == Wallet {
                pending_balance: Money {
                    micros: (old(self).pending_balance.micros + amount.micros) as i64,
                },
                updated_at: now,
                ..*old(self)
            }),
    {
        if amount.micros <= 0 {
            return Err(PaymentError::InvalidAmount);
        }
        self.pending_balance = self.pending_balance.plus(amount);
        self.updated_at = now;
        Ok(())
    }

    /// Clears a positive pending amount into the available balance and the
    /// lifetime earnings; non-positive or uncovered amounts are rejected
    /// unchanged.
    pub fn clear_pending(&mut self, amount: Money, now: i64) -> (r: Result<(), PaymentError>)
        requires
            spec_wallet_wf(*old(self)),
            amount.micros <= 1_000_000_000_000_000_000,
        ensures
            amount.micros <= 0 || old(self).pending_balance.micros < amount.micros ==> (
            r matches Err(e) && e == PaymentError::InvalidAmount && *final(self) == *old(self)),
            amount.micros > 0 && old(self).pending_balance.micros >= amount.micros ==> (r is Ok
                && *final(self) == Wallet {
                pending_balance: Money {
                    micros: (old(self).pending_balance.micros - amount.micros) as i64,
                },
                balance: Money { micros: (old(self).balance.micros + amount.micros) as i64 },
                lifetime_earnings: Money {
                    micros: (old(self).lifetime_earnings.micros + amount.micros) as i64,
                },
                updated_at: now,
                ..*old(self)
            }),
    {
        if amount.micros <= 0 {
            return Err(PaymentError::InvalidAmount);
        }
        if self.pending_balance.lt(amount) {
            return Err(PaymentError::InvalidAmount);
        }
        self.pending_balance = self.pending_balance.minus(amount);
        self.balance = self.balance.plus(amount);
        self.lifetime_earnings = self.lifetime_earnings.plus(amount);
        self.updated_at = now;
        Ok(())
    }

    /// Cancels a positive pending amount; non-positive or uncovered amounts
    /// are rejected unchanged.
    pub fn cancel_pending(&mut self, amount: Money, now: i64) -> (r: Result<(), PaymentError>)
        requires
            spec_wallet_wf(*old(self)),
        ensures
            amount.micros <= 0 || old(self).pending_balance.micros < amount.micros ==> (
            r matches Err(e) && e == PaymentError::InvalidAmount && *final(self) == *old(self)),
            amount.micros > 0 && old(self).pending_balance.micros >= amount.micros ==> (r is Ok
                && *final(self) == Wallet {
                pending_balance: Money {
                    micros: (old(self).pending_balance.micros - amount.micros) as i64,
                },
                updated_at: now,
                ..*old(self)
            }),
    {
        if amount.micros <= 0 {
            return Err(PaymentError::InvalidAmount);
        }
        if self.pending_balance.lt(amount) {
            return Err(PaymentError::InvalidAmount);
        }
        self.pending_balance = self.pending_balance.minus(amount);
        self.updated_at = now;
        Ok(())
    }

    /// Quotes a payout of `amount` at a proportional fee in basis points;
    /// amounts beyond the available balance are rejected.
    pub fn calculate_payout(&self, amount: Money, fee_bp: u32) -> (r: Result<
        PayoutCalculation,
        PaymentError,
    >)
        requires
            amount.micros >= 0,
            fee_bp <= 10_000,
        ensures
            amount.micros > self.balance.micros ==> (r matches Err(e) && e
                == PaymentError::InsufficientFunds),
            amount.micros <= self.balance.micros ==> (r matches Ok(p) && p.gross_amount == amount
                && p.fee_bp == fee_bp && p.fee_amount.micros == (amount.micros * fee_bp) / 10_000
                && p.net_amount.micros == amount.micros - (amount.micros * fee_bp) / 10_000),
    {
        if self.balance.lt(amount) {
            return Err(PaymentError::InsufficientFunds);
        }
        let fee = amount.times_rate_bp(fee_bp);
        let net = amount.minus(fee);
        Ok(PayoutCalculation { gross_amount: amount, fee_bp, fee_amount: fee, net_amount: net })
    }

    /// A snapshot of the wallet's health: balances, totals, net earnings,
    /// and the pending share of the total balance in basis points.
    pub fn health_metrics(&self) -> (r: WalletHealthMetrics)
        requires
            spec_wallet_wf(*self),
        ensures
            r.balance == self.balance && r.pending_balance == self.pending_balance,
            r.total_balance.micros == self.balance.micros + self.pending_balance.micros,
            r.tokens == self.tokens,
            r.lifetime_earnings == self.lifetime_earnings,
            r.lifetime_spending == self.lifetime_spending,
            r.net_earnings.micros == self.lifetime_earnings.micros
                - self.lifetime_spending.micros,
            r.total_balance.micros > 0 ==> r.pending_ratio_bp == (self.pending_balance.micros
                * 10_000) / (self.balance.micros + self.pending_balance.micros),
            r.total_balance.micros <= 0 ==> r.pending_ratio_bp == 0,
            r.last_activity == self.updated_at,
    {
        let total = self.total_balance();
        let pending_ratio_bp: i64 = if total.micros > 0 {
            proof {
                assert(0 <= self.pending_balance.micros * 10_000
                    <= 10_000_000_000_000_000_000_000) by (nonlinear_arith)
                    requires
                        0 <= self.pending_balance.micros <= 1_000_000_000_000_000_000,
                ;
                assert((self.pending_balance.micros as int) * 10_000 / (total.micros as int)
                    <= 10_000) by (nonlinear_arith)
                    requires
                        0 <= self.pending_balance.micros <= total.micros,
                        total.micros > 0,
                ;
            }
            let wide: i128 = (self.pending_balance.micros as i128) * 10_000;
            (wide / (total.micros as i128)) as i64
        } else {
            0
        };
        WalletHealthMetrics {
            balance: self.balance,
            pending_balance: self.pending_balance,
            total_balance: total,
            tokens: self.tokens,
            lifetime_earnings: self.lifetime_earnings,
            lifetime_spending: self.lifetime_spending,
            net_earnings: self.lifetime_earnings.minus(self.lifetime_spending),
            pending_ratio_bp,
            last_activity: self.updated_at,
        }
    }

    /// Enforces a minimum available balance.
    pub fn validate_minimum_balance(&self, minimum: Money) -> (r: Result<(), PaymentError>)
        ensures
            self.balance.micros < minimum.micros ==> (r matches Err(e) && e
                == PaymentError::InsufficientFunds),
            self.balance.micros >= minimum.micros ==> r is Ok,
    {
        if self.balance.lt(minimum) {
            return Err(PaymentError::InsufficientFunds);
        }
        Ok(())
    }

    /// Locks the wallet with a reason at `now`; an already locked wallet is
    /// rejected unchanged.
    pub fn lock(&mut self, reason: String, now: i64) -> (r: Result<(), PaymentError>)
        ensures
            old(self).locked ==> (r matches Err(e) && e == PaymentError::InvalidAmount && *final(self) == *old(self)),
            !old(self).locked ==> (r is Ok && *final(self) == Wallet {
                locked: true,
                locked_at: Some(now),
                lock_reason: Some(reason),
                updated_at: now,
                ..*old(self)
            }),
    {
        if self.locked {
            return Err(PaymentError::InvalidAmount);
        }
        self.locked = true;
        self.locked_at = Some(now);
        self.lock_reason = Some(reason);
        self.updated_at = now;
        Ok(())
    }

    /// Unlocks the wallet at `now`; an unlocked wallet is rejected
    /// unchanged.
    pub fn unlock(&mut self, now: i64) -> (r: Result<(), PaymentError>)
        ensures
            !old(self).locked ==> (r matches Err(e) && e == PaymentError::InvalidAmount && *final(self) == *old(self)),
            old(self).locked ==> (r is Ok && *final(self) == Wallet {
                locked: false,
                locked_at: None,
                lock_reason: None,
                updated_at: now,
                ..*old(self)
            }),
    {
        if !self.locked {
            return Err(PaymentError::InvalidAmount);
        }
        self.locked = false;
        self.locked_at = None;
        self.lock_reason = None;
        self.updated_at = now;
        Ok(())
    }

    /// True while the wallet is not locked.
    pub fn is_active(&self) -> (r: bool)
        ensures
            r == !self.locked,
    {
        !self.locked
    }
}

/// A payout quote: the gross amount, the proportional fee and the remainder.
#[derive(Clone, Copy, Debug, PartialEq, Eq, Structural)]
pub struct PayoutCalculation {
    pub gross_amount: Money,
    pub fee_bp: u32,
    pub fee_amount: Money,
    pub net_amount: Money,
}

/// A wallet health snapshot; the pending share is an exact basis-point
/// fraction rather than an approximate float ratio.
pub struct WalletHealthMetrics {
    pub balance: Money,
    pub pending_balance: Money,
    pub total_balance: Money,
    pub tokens: i64,
    pub lifetime_earnings: Money,
    pub lifetime_spending: Money,
    pub net_earnings: Money,
    pub pending_ratio_bp: i64,
    pub last_activity: i64,
}

} // verus!
