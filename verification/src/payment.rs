//! The payment entity and its lifecycle.
//!
//! A payment moves through `Pending`, `Processing`, `Completed`, `Failed`,
//! `Refunded` and `Cancelled`; every transition method takes the current
//! instant, touches `updated_at`, and either performs the listed move or
//! returns the offending transition unchanged. Amount validation enforces
//! the PIX policy bounds.

use vstd::prelude::*;
use vstd::string::*;
use crate::errors::PaymentError;
use crate::money::Money;
use crate::status::PaymentStatus;
use crate::tax::TaxBreakdown;

verus! {

/// The policy minimum for a payment: one centavo.
pub const MIN_AMOUNT_MICROS: i64 = 10_000;

/// The policy maximum for a payment: one million reais.
pub const MAX_AMOUNT_MICROS: i64 = 1_000_000_000_000;

/// A payment: an identifier, an amount with its tax, a lifecycle status and
/// its timestamps, all in seconds since the Unix epoch.
pub struct Payment {
    pub id: String,
    pub amount: Money,
    pub tax: Money,
    pub status: PaymentStatus,
    pub created_at: i64,
    pub updated_at: i64,
    pub completed_at: Option<i64>,
    pub failed_at: Option<i64>,
    pub failure_reason: Option<String>,
}

impl Payment {
    /// A fresh pending payment created at instant `now`.
    pub fn new(id: String, amount: Money, tax: Money, now: i64) -> (r: Payment)
        ensures
            r.id == id,
            r.amount == amount,
            r.tax == tax,
            r.status == PaymentStatus::Pending,
            r.created_at == now && r.updated_at == now,
            r.completed_at is None && r.failed_at is None && r.failure_reason is None,
    {
        Payment {
            id,
            amount,
            tax,
            status: PaymentStatus::Pending,
            created_at: now,
            updated_at: now,
            completed_at: None,
            failed_at: None,
            failure_reason: None,
        }
    }

    /// Moves a pending payment to `Processing`, touching `updated_at`; any
    /// other starting state is rejected unchanged.
    pub fn mark_processing(&mut self, now: i64) -> (r: Result<(), PaymentError>)
        ensures
            old(self).status == PaymentStatus::Pending ==> (r is Ok && *final(self) == Payment {
                status: PaymentStatus::Processing,
                updated_at: now,
                ..*old(self)
            }),
            old(self).status != PaymentStatus::Pending ==> (r matches Err(e) && e == (
            PaymentError::InvalidStateTransition {
                from: old(self).status,
                to: PaymentStatus::Processing,
            }) && *final(self) == *old(self)),
    {
        match self.status {
            PaymentStatus::Pending => {
                self.status = PaymentStatus::Processing;
                self.updated_at = now;
                Ok(())
            },
            _ => Err(
                PaymentError::InvalidStateTransition {
                    from: self.status,
                    to: PaymentStatus::Processing,
                },
            ),
        }
    }

    /// Completes a pending or processing payment, stamping `completed_at`;
    /// any other starting state is rejected unchanged.
    pub fn mark_completed(&mut self, now: i64) -> (r: Result<(), PaymentError>)
        ensures
            (old(self).status == PaymentStatus::Pending || old(self).status
                == PaymentStatus::Processing) ==> (r is Ok && *final(self) == Payment {
                status: PaymentStatus::Completed,
                completed_at: Some(now),
                updated_at: now,
                ..*old(self)
            }),
            !(old(self).status == PaymentStatus::Pending || old(self).status
                == PaymentStatus::Processing) ==> (r matches Err(e) && e == (
            PaymentError::InvalidStateTransition {
                from: old(self).status,
                to: PaymentStatus::Completed,
            }) && *final(self) == *old(self)),
    {
        if !(matches!(self.status, PaymentStatus::Processing) || matches!(
            self.status,
            PaymentStatus::Pending,
        )) {
            return Err(
                PaymentError::InvalidStateTransition {
                    from: self.status,
                    to: PaymentStatus::Completed,
                },
            );
        }
        self.status = PaymentStatus::Completed;
        self.completed_at = Some(now);
        self.updated_at = now;
        Ok(())
    }

    /// Fails a payment with a reason, stamping `failed_at`; completed and
    /// refunded payments are rejected unchanged.
    pub fn mark_failed(&mut self, reason: String, now: i64) -> (r: Result<(), PaymentError>)
        ensures
            (old(self).status == PaymentStatus::Completed || old(self).status
                == PaymentStatus::Refunded) ==> (r matches Err(e) && e == (
            PaymentError::InvalidStateTransition {
                from: old(self).status,
                to: PaymentStatus::Failed,
            }) && *final(self) == *old(self)),
            !(old(self).status == PaymentStatus::Completed || old(self).status
                == PaymentStatus::Refunded) ==> (r is Ok && *final(self) == Payment {
                status: PaymentStatus::Failed,
                failed_at: Some(now),
                failure_reason: Some(reason),
                updated_at: now,
                ..*old(self)
            }),
    {
        if matches!(self.status, PaymentStatus::Completed) || matches!(
            self.status,
            PaymentStatus::Refunded,
        ) {
            return Err(
                PaymentError::InvalidStateTransition {
                    from: self.status,
                    to: PaymentStatus::Failed,
                },
            );
        }
        self.status = PaymentStatus::Failed;
        self.failed_at = Some(now);
        self.failure_reason = Some(reason);
        self.updated_at = now;
        Ok(())
    }

    /// True exactly for completed payments, the only refundable state.
    pub fn can_refund(&self) -> (r: bool)
        ensures
            r == (self.status == PaymentStatus::Completed),
    {
        matches!(self.status, PaymentStatus::Completed)
    }

    /// Refunds a completed payment; any other state is rejected unchanged.
    pub fn mark_refunded(&mut self, now: i64) -> (r: Result<(), PaymentError>)
        ensures
            old(self).status == PaymentStatus::Completed ==> (r is Ok && *final(self) == Payment {
                status: PaymentStatus::Refunded,
                updated_at: now,
                ..*old(self)
            }),
            old(self).status != PaymentStatus::Completed ==> (r matches Err(e) && e == (
            PaymentError::InvalidStateTransition {
                from: old(self).status,
                to: PaymentStatus::Refunded,
            }) && *final(self) == *old(self)),
    {
        if !self.can_refund() {
            return Err(
                PaymentError::InvalidStateTransition {
                    from: self.status,
                    to: PaymentStatus::Refunded,
                },
            );
        }
        self.status = PaymentStatus::Refunded;
        self.updated_at = now;
        Ok(())
    }

    /// The amount with its tax.
    pub fn total_amount(&self) -> (r: Money)
        requires
            self.amount.micros + self.tax.micros <= i64::MAX,
            self.amount.micros + self.tax.micros >= i64::MIN,
        ensures
            r.micros == self.amount.micros + self.tax.micros,
    {
        self.amount.plus(self.tax)
    }

    /// The amount net of a proportional fee given in basis points.
    pub fn net_amount(&self, fee_bp: u32) -> (r: Money)
        requires
            self.amount.micros >= 0,
            fee_bp <= 10_000,
        ensures
            r.micros == self.amount.micros - (self.amount.micros * fee_bp) / 10_000,
    {
        let fee = self.amount.times_rate_bp(fee_bp);
        self.amount.minus(fee)
    }

    /// Validates the amount against the PIX policy bounds: non-positive
    /// amounts are invalid, amounts under one centavo too low, amounts over
    /// one million reais too high; everything else passes.
    pub fn validate_amount(&self) -> (r: Result<(), PaymentError>)
        ensures
            self.amount.micros <= 0 ==> (r matches Err(e) && e == PaymentError::InvalidAmount),
            0 < self.amount.micros < MIN_AMOUNT_MICROS ==> (r matches Err(e) && e == (
            PaymentError::AmountTooLow {
                min: Money { micros: MIN_AMOUNT_MICROS },
                actual: self.amount,
            })),
            self.amount.micros > MAX_AMOUNT_MICROS ==> (r matches Err(e) && e == (
            PaymentError::AmountTooHigh {
                max: Money { micros: MAX_AMOUNT_MICROS },
                actual: self.amount,
            })),
            MIN_AMOUNT_MICROS <= self.amount.micros <= MAX_AMOUNT_MICROS ==> r is Ok,
    {
        if self.amount.micros <= 0 {
            return Err(PaymentError::InvalidAmount);
        }
        if self.amount.micros < MIN_AMOUNT_MICROS {
            return Err(
                PaymentError::AmountTooLow {
                    min: Money { micros: MIN_AMOUNT_MICROS },
                    actual: self.amount,
                },
            );
        }
        if self.amount.micros > MAX_AMOUNT_MICROS {
            return Err(
                PaymentError::AmountTooHigh {
                    max: Money { micros: MAX_AMOUNT_MICROS },
                    actual: self.amount,
                },
            );
        }
        Ok(())
    }

    /// The payment's age in seconds at instant `now`.
    pub fn age(&self, now: i64) -> (r: i64)
        requires
            now - self.created_at <= i64::MAX,
            now - self.created_at >= i64::MIN,
        ensures
            r == now - self.created_at,
    {
        now - self.created_at
    }

    /// True when a pending payment has outlived its expiry window of
    /// `expiry_minutes` at instant `now`.
    pub fn is_expired(&self, expiry_minutes: i64, now: i64) -> (r: bool)
        requires
            0 <= expiry_minutes <= 1_000_000_000,
            now - self.created_at <= i64::MAX,
            now - self.created_at >= i64::MIN,
        ensures
            r == (self.status == PaymentStatus::Pending && now - self.created_at > expiry_minutes
                * 60),
    {
        matches!(self.status, PaymentStatus::Pending) && now - self.created_at > expiry_minutes
            * 60
    }

    /// A deterministic idempotency key for processing this payment: `pay_`
    /// followed by the lowercase hexadecimal SHA-256 digest of the id, the
    /// plain amount rendering and the creation timestamp, concatenated.
    pub fn idempotency_key(&self) -> (r: String)
        requires
            self.amount.micros >= 0,
            self.created_at >= 0,
        ensures
            ({
                let preimage = self.id@ + crate::documents::spec_ascii_chars(
                    crate::money::spec_plain_amount(self.amount.micros as int),
                ) + crate::documents::spec_ascii_chars(
                    crate::text::spec_dec_digits(self.created_at as nat),
                );
                r@ =~= "pay_"@ + crate::documents::spec_ascii_chars(
                    crate::checksum::spec_hex_lower(crate::external::spec_sha256(preimage)),
                )
            }),
    {
        let mut preimage = self.id.clone();
        let amt = self.amount.plain_amount();
        crate::text::push_ascii_bytes(&mut preimage, amt.as_slice());
        let mut ts: Vec<u8> = Vec::new();
        crate::text::push_dec(&mut ts, self.created_at as u64);
        proof {
            crate::text::lemma_dec_digits_are_digits(self.created_at as nat);
        }
        crate::text::push_ascii_bytes(&mut preimage, ts.as_slice());
        let digest = crate::external::sha256_digest(preimage.as_str());
        let hex = crate::checksum::to_hex_lower(digest.as_slice());
        let mut out = String::new();
        crate::external::push_char(&mut out, 'p');
        crate::external::push_char(&mut out, 'a');
        crate::external::push_char(&mut out, 'y');
        crate::external::push_char(&mut out, '_');
        proof {
            reveal_strlit("pay_");
            assert(out@ =~= "pay_"@);
        }
        crate::text::push_ascii_bytes(&mut out, hex.as_slice());
        out
    }

    /// Confirms an instant payment: a 32-byte end-to-end id completes the
    /// payment at `now`; anything else is rejected unchanged. The processor
    /// reference is carried for the caller's audit trail only.
    pub fn process_pix_confirmation(
        &mut self,
        end_to_end_id: &str,
        _psp_reference: &str,
        now: i64,
    ) -> (r: Result<(), PaymentError>)
        ensures
            end_to_end_id.spec_bytes().len() != 32 ==> (r matches Err(e) && e
                == PaymentError::InvalidPixData && *final(self) == *old(self)),
            end_to_end_id.spec_bytes().len() == 32 ==> (r is Ok && *final(self) == Payment {
                status: PaymentStatus::Completed,
                updated_at: now,
                ..*old(self)
            }),
    {
        if end_to_end_id.as_bytes().len() != 32 {
            return Err(PaymentError::InvalidPixData);
        }
        self.status = PaymentStatus::Completed;
        self.updated_at = now;
        Ok(())
    }

    /// The default-rate Brazilian tax breakdown of this payment's amount.
    pub fn calculate_brazilian_taxes(&self) -> (r: TaxBreakdown)
        requires
            self.amount.micros >= 0,
        ensures
            r.gross_amount == self.amount,
            crate::tax::spec_tax_breakdown_wf(*&r),
            r.icms_amount.micros == (self.amount.micros * 1800) / 10_000,
            r.pis_amount.micros == (self.amount.micros * crate::tax::PIS_RATE_BP) / 10_000,
            r.cofins_amount.micros == (self.amount.micros * crate::tax::COFINS_RATE_BP) / 10_000,
            r.currency@ == "BRL"@,
    {
        crate::tax::calculate_brazilian_taxes(self.amount)
    }

    /// A Portuguese-language receipt for this payment, dated `now` and
    /// naming the customer's document.
    pub fn generate_brazilian_receipt(&self, customer_document: String, now: i64) -> (r: Receipt)
        requires
            self.amount.micros >= 0,
        ensures
            r.transaction_id@ == self.id@,
            r.date_epoch == now,
            r.amount == self.amount,
            r.formatted_amount@ =~= crate::documents::spec_ascii_chars(
                crate::money::spec_format_brl(self.amount.micros as int),
            ),
            r.payment_method@ == "PIX"@,
            r.status@ == self.status.spec_portuguese(),
            r.merchant_name@ == "Pleme Tecnologia Ltda"@,
            r.merchant_cnpj@ == "12.345.678/0001-90"@,
            r.customer_document@ == customer_document@,
    {
        Receipt {
            transaction_id: self.id.clone(),
            date_epoch: now,
            amount: self.amount,
            formatted_amount: self.amount.format_brl(),
            payment_method: "PIX".to_owned(),
            status: self.status.portuguese().to_owned(),
            merchant_name: "Pleme Tecnologia Ltda".to_owned(),
            merchant_cnpj: "12.345.678/0001-90".to_owned(),
            customer_document,
        }
    }

    /// Checks the amount against the instant-payment policy limits at the
    /// given São Paulo local hour, as [`check_bcb_compliance`] describes.
    pub fn validate_bcb_compliance(&self, now: i64) -> (r: ComplianceResult)
        requires
            0 <= now <= 253_402_300_799,
        ensures
            r.is_compliant == (self.amount.micros <= 100_000_000_000),
            r.checked_at == now,
    {
        let hour = crate::external::sao_paulo_hour(now);
        check_bcb_compliance(self.amount, hour, now)
    }
}

/// A payment receipt with Portuguese display strings.
pub struct Receipt {
    pub transaction_id: String,
    /// Receipt instant, seconds since the Unix epoch; display conversion to
    /// the São Paulo zone is the caller's concern.
    pub date_epoch: i64,
    pub amount: Money,
    pub formatted_amount: String,
    pub payment_method: String,
    pub status: String,
    pub merchant_name: String,
    pub merchant_cnpj: String,
    pub customer_document: String,
}

/// The outcome of an instant-payment policy check.
pub struct ComplianceResult {
    pub is_compliant: bool,
    pub issues: Vec<String>,
    pub warnings: Vec<String>,
    pub checked_at: i64,
    pub regulations: Vec<String>,
}

/// Checks an amount against the instant-payment policy limits: over
/// R$ 100,000 is an issue (non-compliant); over R$ 20,000 warns about the
/// daily limit; over R$ 1,000 outside the 6-to-20 local-hour window warns
/// about business hours.
pub fn check_bcb_compliance(amount: Money, local_hour: u32, now: i64) -> (r: ComplianceResult)
    ensures
        r.is_compliant == (amount.micros <= 100_000_000_000),
        r.checked_at == now,
        r.issues@.len() == (if amount.micros > 100_000_000_000 {
            1int
        } else {
            0int
        }),
        amount.micros > 100_000_000_000 ==> r.issues@[0]@ == "Amount exceeds PIX monthly limit"@,
        r.warnings@.len() == (if amount.micros > 20_000_000_000 {
            1int
        } else {
            0int
        }) + (if amount.micros > 1_000_000_000 && (local_hour < 6 || local_hour > 20) {
            1int
        } else {
            0int
        }),
        amount.micros > 20_000_000_000 ==> r.warnings@[0]@ == "Amount exceeds PIX daily limit"@,
        (amount.micros > 1_000_000_000 && (local_hour < 6 || local_hour > 20)) ==> r.warnings@[
            r.warnings@.len() - 1
        ]@ == "Large amount transfer outside business hours"@,
        r.regulations@.len() == 2,
        r.regulations@[0]@ == "BCB Resolution 4,488/2016"@,
        r.regulations@[1]@ == "BCB Circular 4,027/2020"@,
{
    let mut issues: Vec<String> = Vec::new();
    let mut warnings: Vec<String> = Vec::new();
    if amount.micros > 20_000_000_000 {
        warnings.push("Amount exceeds PIX daily limit".to_owned());
    }
    if amount.micros > 100_000_000_000 {
        issues.push("Amount exceeds PIX monthly limit".to_owned());
    }
    if amount.micros > 1_000_000_000 && (local_hour < 6 || local_hour > 20) {
        warnings.push("Large amount transfer outside business hours".to_owned());
    }
    let is_compliant = issues.len() == 0;
    let mut regulations: Vec<String> = Vec::new();
    regulations.push("BCB Resolution 4,488/2016".to_owned());
    regulations.push("BCB Circular 4,027/2020".to_owned());
    ComplianceResult { is_compliant, issues, warnings, checked_at: now, regulations }
}

/// A boleto slip for a payment: fixed banking constants, a thirteen-digit
/// "our number" derived from the numeric document id, and a due date three
/// days out.
pub struct BoletoData {
    pub bank_code: String,
    pub agency: String,
    pub account: String,
    pub wallet_code: String,
    pub our_number: String,
    pub document_number: String,
    pub due_date_epoch: i64,
    pub amount: Money,
    pub payer_name: String,
    pub payer_document: String,
    pub instructions: Vec<String>,
}

impl Payment {
    /// Issues a boleto for this payment: the caller supplies the numeric
    /// form of the document id, kept modulo ten to the thirteenth in the
    /// slip's "our number"; the due date falls three days after `now`.
    pub fn generate_boleto(&self, id_number: u64, now: i64) -> (r: BoletoData)
        requires
            0 <= now <= i64::MAX - 259_200,
        ensures
            r.bank_code@ == "341"@,
            r.agency@ == "1234"@,
            r.account@ == "12345-6"@,
            r.wallet_code@ == "109"@,
            r.our_number@ =~= crate::documents::spec_ascii_chars(
                crate::text::spec_dec_padded((id_number % 10_000_000_000_000) as nat, 13),
            ),
            r.document_number@ == self.id@,
            r.due_date_epoch == now + 259_200,
            r.amount == self.amount,
            r.instructions@.len() == 2,
            r.instructions@[0]@ == "Não receber após o vencimento"@,
            r.instructions@[1]@ == "Pagamento via PIX disponível"@,
    {
        let mut digits: Vec<u8> = Vec::new();
        crate::text::push_dec_padded(&mut digits, id_number % 10_000_000_000_000, 13);
        proof {
            crate::text::lemma_dec_padded_are_digits((id_number % 10_000_000_000_000) as nat, 13);
        }
        let our_number = crate::text::ascii_string(&digits);
        let mut instructions: Vec<String> = Vec::new();
        instructions.push("Não receber após o vencimento".to_owned());
        instructions.push("Pagamento via PIX disponível".to_owned());
        BoletoData {
            bank_code: "341".to_owned(),
            agency: "1234".to_owned(),
            account: "12345-6".to_owned(),
            wallet_code: "109".to_owned(),
            our_number,
            document_number: self.id.clone(),
            due_date_epoch: now + 259_200,
            amount: self.amount,
            payer_name: "Cliente".to_owned(),
            payer_document: "000.000.000-00".to_owned(),
            instructions,
        }
    }
}

} // verus!
