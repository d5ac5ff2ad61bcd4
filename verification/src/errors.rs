//! Error taxonomy of the kernel.
//!
//! Every failure is a local, recoverable value: validators and state
//! transitions return these variants instead of panicking.

use vstd::prelude::*;
use crate::money::Money;
use crate::status::PaymentStatus;
use crate::status::SubscriptionStatus;

verus! {

/// The errors surfaced by the payment kernel.
#[derive(Clone, Copy, Debug, PartialEq, Eq, Structural)]
pub enum PaymentError {
    /// A document string failed its length or checksum validation.
    InvalidDocument,
    /// A PIX key does not satisfy the validator of its key type.
    InvalidPixKey,
    /// PIX confirmation data is malformed.
    InvalidPixData,
    /// An amount is non-positive or otherwise unusable.
    InvalidAmount,
    /// An amount lies under the policy minimum.
    AmountTooLow { min: Money, actual: Money },
    /// An amount lies over the policy maximum.
    AmountTooHigh { max: Money, actual: Money },
    /// A balance or token count cannot cover the requested operation.
    InsufficientFunds,
    /// A payment lifecycle move not present in the transition table.
    InvalidStateTransition { from: PaymentStatus, to: PaymentStatus },
    /// A subscription lifecycle move not present in the transition table.
    InvalidSubscriptionStateTransition { from: SubscriptionStatus, to: SubscriptionStatus },
    /// A payload could not be constructed or encoded.
    EncodingFailure,
    /// The QR code renderer rejected the payload.
    QrCodeGenerationFailed,
}

impl PaymentError {
    /// A short stable name for the error, for display and logging.
    pub fn describe(&self) -> (r: &'static str)
        ensures
            r@ == self.spec_describe(),
    {
        match self {
            PaymentError::InvalidDocument => "invalid document",
            PaymentError::InvalidPixKey => "invalid PIX key",
            PaymentError::InvalidPixData => "invalid PIX data",
            PaymentError::InvalidAmount => "invalid amount",
            PaymentError::AmountTooLow { .. } => "amount below minimum",
            PaymentError::AmountTooHigh { .. } => "amount above maximum",
            PaymentError::InsufficientFunds => "insufficient funds",
            PaymentError::InvalidStateTransition { .. } => "invalid state transition",
            PaymentError::InvalidSubscriptionStateTransition { .. } => "invalid subscription state transition",
            PaymentError::EncodingFailure => "encoding failure",
            PaymentError::QrCodeGenerationFailed => "QR code generation failed",
        }
    }

    /// The name [`Self::describe`] returns for each variant.
    pub open spec fn spec_describe(&self) -> Seq<char> {
        match self {
            PaymentError::InvalidDocument => "invalid document"@,
            PaymentError::InvalidPixKey => "invalid PIX key"@,
            PaymentError::InvalidPixData => "invalid PIX data"@,
            PaymentError::InvalidAmount => "invalid amount"@,
            PaymentError::AmountTooLow { .. } => "amount below minimum"@,
            PaymentError::AmountTooHigh { .. } => "amount above maximum"@,
            PaymentError::InsufficientFunds => "insufficient funds"@,
            PaymentError::InvalidStateTransition { .. } => "invalid state transition"@,
            PaymentError::InvalidSubscriptionStateTransition { .. } => "invalid subscription state transition"@,
            PaymentError::EncodingFailure => "encoding failure"@,
            PaymentError::QrCodeGenerationFailed => "QR code generation failed"@,
        }
    }
}

} // verus!
