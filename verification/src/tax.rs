//! Brazilian tax rate lookup and computation.
//!
//! ICMS is a per-state rate, ISS a per-city rate; PIS and COFINS are fixed
//! federal contributions. Rates are carried in basis points (ten-thousandths)
//! and applied with exact fixed-point arithmetic: goods owe
//! ICMS + PIS + COFINS, services owe ISS + PIS + COFINS, and a breakdown
//! always satisfies `net = gross - total` with `total` the sum of its
//! components.

use vstd::prelude::*;
use vstd::string::*;
use crate::money::Money;
use crate::text::{spec_upper, upper_bytes};

verus! {

/// PIS rate: 1.65% of the standard regime, in basis points.
pub const PIS_RATE_BP: u32 = 165;

/// COFINS rate: 7.60% of the standard regime, in basis points.
pub const COFINS_RATE_BP: u32 = 760;

/// ICMS rate applied when a state code is not in the table, in basis points.
pub const ICMS_DEFAULT_RATE_BP: u32 = 1700;

/// ISS rate applied when a city is not in the table, in basis points.
pub const ISS_DEFAULT_RATE_BP: u32 = 300;

/// True when `st` is exactly the two bytes `a`, `b`.
pub open spec fn spec_is2(st: Seq<u8>, a: u8, b: u8) -> bool {
    st.len() == 2 && st[0] == a && st[1] == b
}

/// The ICMS rate of an uppercased state code, in basis points; unknown codes
/// fall back to the 17% default.
pub open spec fn spec_icms_rate_bp(st: Seq<u8>) -> u32 {
    if spec_is2(st, 0x53, 0x50) {
        1800  // SP
    } else if spec_is2(st, 0x52, 0x4A) {
        2000  // RJ
    } else if spec_is2(st, 0x4D, 0x47) {
        1800  // MG
    } else if spec_is2(st, 0x52, 0x53) {
        1700  // RS
    } else if spec_is2(st, 0x50, 0x52) {
        1900  // PR
    } else if spec_is2(st, 0x53, 0x43) {
        1700  // SC
    } else if spec_is2(st, 0x42, 0x41) {
        1900  // BA
    } else if spec_is2(st, 0x50, 0x45) {
        1800  // PE
    } else if spec_is2(st, 0x43, 0x45) {
        1900  // CE
    } else if spec_is2(st, 0x44, 0x46) {
        1800  // DF
    } else if spec_is2(st, 0x47, 0x4F) {
        1700  // GO
    } else if spec_is2(st, 0x4D, 0x54) {
        1700  // MT
    } else if spec_is2(st, 0x4D, 0x53) {
        1700  // MS
    } else if spec_is2(st, 0x45, 0x53) {
        1700  // ES
    } else if spec_is2(st, 0x50, 0x41) {
        1900  // PA
    } else if spec_is2(st, 0x41, 0x4D) {
        2000  // AM
    } else if spec_is2(st, 0x4D, 0x41) {
        1900  // MA
    } else if spec_is2(st, 0x50, 0x49) {
        1900  // PI
    } else if spec_is2(st, 0x52, 0x4E) {
        1800  // RN
    } else if spec_is2(st, 0x50, 0x42) {
        1800  // PB
    } else if spec_is2(st, 0x41, 0x4C) {
        1900  // AL
    } else if spec_is2(st, 0x53, 0x45) {
        1900  // SE
    } else if spec_is2(st, 0x54, 0x4F) {
        1800  // TO
    } else if spec_is2(st, 0x52, 0x4F) {
        1700  // RO
    } else if spec_is2(st, 0x52, 0x52) {
        1700  // RR
    } else if spec_is2(st, 0x41, 0x43) {
        1700  // AC
    } else if spec_is2(st, 0x41, 0x50) {
        1800  // AP
    } else {
        ICMS_DEFAULT_RATE_BP
    }
}

/// The ISS rate of an uppercased city name, in basis points; unknown cities
/// fall back to the 3% default.
pub open spec fn spec_iss_rate_bp(city: Seq<u8>) -> u32 {
    if city =~= seq![0x53u8, 0x41u8, 0x4Fu8, 0x20u8, 0x50u8, 0x41u8, 0x55u8, 0x4Cu8, 0x4Fu8]
        || spec_is2(city, 0x53, 0x50) {
        500  // SAO PAULO
    } else if city =~= seq![
        0x52u8, 0x49u8, 0x4Fu8, 0x20u8, 0x44u8, 0x45u8, 0x20u8, 0x4Au8, 0x41u8, 0x4Eu8, 0x45u8,
        0x49u8, 0x52u8, 0x4Fu8,
    ] || spec_is2(city, 0x52, 0x4A) {
        500  // RIO DE JANEIRO
    } else if city =~= seq![
        0x42u8, 0x45u8, 0x4Cu8, 0x4Fu8, 0x20u8, 0x48u8, 0x4Fu8, 0x52u8, 0x49u8, 0x5Au8, 0x4Fu8,
        0x4Eu8, 0x54u8, 0x45u8,
    ] || spec_is2(city, 0x42, 0x48) {
        300  // BELO HORIZONTE
    } else if city =~= seq![0x43u8, 0x55u8, 0x52u8, 0x49u8, 0x54u8, 0x49u8, 0x42u8, 0x41u8] {
        200  // CURITIBA
    } else {
        ISS_DEFAULT_RATE_BP
    }
}

/// Looks up the ICMS rate of a state code, case-insensitively.
pub fn icms_rate_bp(state: &str) -> (r: u32)
    ensures
        r == spec_icms_rate_bp(spec_upper(state.spec_bytes())),
        r <= 2000,
{
    let u = upper_bytes(state.as_bytes());
    if u.len() != 2 {
        return ICMS_DEFAULT_RATE_BP;
    }
    let a = u[0];
    let b = u[1];
    if a == 0x53 && b == 0x50 {
        1800
    } else if a == 0x52 && b == 0x4A {
        2000
    } else if a == 0x4D && b == 0x47 {
        1800
    } else if a == 0x52 && b == 0x53 {
        1700
    } else if a == 0x50 && b == 0x52 {
        1900
    } else if a == 0x53 && b == 0x43 {
        1700
    } else if a == 0x42 && b == 0x41 {
        1900
    } else if a == 0x50 && b == 0x45 {
        1800
    } else if a == 0x43 && b == 0x45 {
        1900
    } else if a == 0x44 && b == 0x46 {
        1800
    } else if a == 0x47 && b == 0x4F {
        1700
    } else if a == 0x4D && b == 0x54 {
        1700
    } else if a == 0x4D && b == 0x53 {
        1700
    } else if a == 0x45 && b == 0x53 {
        1700
    } else if a == 0x50 && b == 0x41 {
        1900
    } else if a == 0x41 && b == 0x4D {
        2000
    } else if a == 0x4D && b == 0x41 {
        1900
    } else if a == 0x50 && b == 0x49 {
        1900
    } else if a == 0x52 && b == 0x4E {
        1800
    } else if a == 0x50 && b == 0x42 {
        1800
    } else if a == 0x41 && b == 0x4C {
        1900
    } else if a == 0x53 && b == 0x45 {
        1900
    } else if a == 0x54 && b == 0x4F {
        1800
    } else if a == 0x52 && b == 0x4F {
        1700
    } else if a == 0x52 && b == 0x52 {
        1700
    } else if a == 0x41 && b == 0x43 {
        1700
    } else if a == 0x41 && b == 0x50 {
        1800
    } else {
        ICMS_DEFAULT_RATE_BP
    }
}

/// Looks up the ISS rate of a city, case-insensitively.
pub fn iss_rate_bp(city: &str) -> (r: u32)
    ensures
        r == spec_iss_rate_bp(spec_upper(city.spec_bytes())),
        r <= 500,
{
    let u = upper_bytes(city.as_bytes());
    let sao_paulo: [u8; 9] = [0x53, 0x41, 0x4F, 0x20, 0x50, 0x41, 0x55, 0x4C, 0x4F];
    let rio: [u8; 14] = [
        0x52, 0x49, 0x4F, 0x20, 0x44, 0x45, 0x20, 0x4A, 0x41, 0x4E, 0x45, 0x49, 0x52, 0x4F,
    ];
    let bh: [u8; 14] = [
        0x42, 0x45, 0x4C, 0x4F, 0x20, 0x48, 0x4F, 0x52, 0x49, 0x5A, 0x4F, 0x4E, 0x54, 0x45,
    ];
    let curitiba: [u8; 8] = [0x43, 0x55, 0x52, 0x49, 0x54, 0x49, 0x42, 0x41];
    let is2sp = u.len() == 2 && u[0] == 0x53 && u[1] == 0x50;
    let is2rj = u.len() == 2 && u[0] == 0x52 && u[1] == 0x4A;
    let is2bh = u.len() == 2 && u[0] == 0x42 && u[1] == 0x48;
    if crate::text::bytes_equal(u.as_slice(), sao_paulo.as_slice()) || is2sp {
        500
    } else if crate::text::bytes_equal(u.as_slice(), rio.as_slice()) || is2rj {
        500
    } else if crate::text::bytes_equal(u.as_slice(), bh.as_slice()) || is2bh {
        300
    } else if crate::text::bytes_equal(u.as_slice(), curitiba.as_slice()) {
        200
    } else {
        ISS_DEFAULT_RATE_BP
    }
}

/// ICMS owed on an amount in the given state.
pub fn calculate_icms(amount: Money, state: &str) -> (r: Money)
    requires
        amount.micros >= 0,
    ensures
        r.micros == (amount.micros * spec_icms_rate_bp(spec_upper(state.spec_bytes()))) / 10_000,
        0 <= r.micros <= amount.micros,
{
    let rate = icms_rate_bp(state);
    amount.times_rate_bp(rate)
}

/// PIS owed on an amount: 1.65%.
pub fn calculate_pis(amount: Money) -> (r: Money)
    requires
        amount.micros >= 0,
    ensures
        r.micros == (amount.micros * PIS_RATE_BP) / 10_000,
        0 <= r.micros <= amount.micros,
{
    amount.times_rate_bp(PIS_RATE_BP)
}

/// COFINS owed on an amount: 7.60%.
pub fn calculate_cofins(amount: Money) -> (r: Money)
    requires
        amount.micros >= 0,
    ensures
        r.micros == (amount.micros * COFINS_RATE_BP) / 10_000,
        0 <= r.micros <= amount.micros,
{
    amount.times_rate_bp(COFINS_RATE_BP)
}

/// ISS owed on an amount in the given city.
pub fn calculate_iss(amount: Money, city: &str) -> (r: Money)
    requires
        amount.micros >= 0,
    ensures
        r.micros == (amount.micros * spec_iss_rate_bp(spec_upper(city.spec_bytes()))) / 10_000,
        0 <= r.micros <= amount.micros,
{
    let rate = iss_rate_bp(city);
    amount.times_rate_bp(rate)
}

/// The total tax on an amount: ISS + PIS + COFINS for services,
/// ICMS + PIS + COFINS for goods, with the state code doubling as the city
/// key in the service case.
pub fn calculate_total_tax(amount: Money, state: &str, is_service: bool) -> (r: Money)
    requires
        amount.micros >= 0,
    ensures
        is_service ==> r.micros == (amount.micros * spec_iss_rate_bp(
            spec_upper(state.spec_bytes()),
        )) / 10_000 + (amount.micros * PIS_RATE_BP) / 10_000 + (amount.micros * COFINS_RATE_BP)
            / 10_000,
        !is_service ==> r.micros == (amount.micros * spec_icms_rate_bp(
            spec_upper(state.spec_bytes()),
        )) / 10_000 + (amount.micros * PIS_RATE_BP) / 10_000 + (amount.micros * COFINS_RATE_BP)
            / 10_000,
        0 <= r.micros <= amount.micros,
{
    let pis = calculate_pis(amount);
    let cofins = calculate_cofins(amount);
    let main = if is_service {
        calculate_iss(amount, state)
    } else {
        calculate_icms(amount, state)
    };
    let ghost main_rate: int = if is_service {
        spec_iss_rate_bp(spec_upper(state.spec_bytes())) as int
    } else {
        spec_icms_rate_bp(spec_upper(state.spec_bytes())) as int
    };
    proof {
        lemma_tax_components_bounded(
            amount.micros as int,
            main.micros as int,
            main_rate,
            pis.micros as int,
            cofins.micros as int,
        );
    }
    main.plus(pis).plus(cofins)
}

/// Three tax components of at most 20%, 1.65% and 7.6% of a non-negative
/// amount sum to less than the amount itself.
proof fn lemma_tax_components_bounded(amount: int, main: int, rate: int, pis: int, cofins: int)
    requires
        amount >= 0,
        0 <= rate <= 2000,
        main == (amount * rate) / 10_000,
        pis == (amount * 165) / 10_000,
        cofins == (amount * 760) / 10_000,
    ensures
        0 <= main + pis + cofins <= amount,
{
    assert(0 <= main + pis + cofins <= amount) by (nonlinear_arith)
        requires
            amount >= 0,
            0 <= rate <= 2000,
            main == (amount * rate) / 10_000,
            pis == (amount * 165) / 10_000,
            cofins == (amount * 760) / 10_000,
    ;
}

/// The tax types an exemption can reduce.
#[derive(Clone, Copy, Debug, PartialEq, Eq, Hash, Structural)]
pub enum TaxType {
    Icms,
    Pis,
    Cofins,
}

/// A proportional exemption on one tax component, in basis points of the
/// component, with a free-form justification.
#[derive(Clone, Debug)]
pub struct TaxExemption {
    pub tax_type: TaxType,
    pub exemption_rate_bp: u32,
    pub reason: String,
}

/// A full tax breakdown of a gross amount.
#[derive(Clone, Debug)]
pub struct TaxBreakdown {
    pub gross_amount: Money,
    pub icms_amount: Money,
    pub icms_rate_bp: u32,
    pub pis_amount: Money,
    pub pis_rate_bp: u32,
    pub cofins_amount: Money,
    pub cofins_rate_bp: u32,
    pub total_taxes: Money,
    pub net_amount: Money,
    pub currency: String,
}

/// The invariant every breakdown satisfies: the total is the sum of the
/// three components, and the net amount is the gross amount less the total.
pub open spec fn spec_tax_breakdown_wf(b: TaxBreakdown) -> bool {
    &&& b.total_taxes.micros == b.icms_amount.micros + b.pis_amount.micros
        + b.cofins_amount.micros
    &&& b.net_amount.micros == b.gross_amount.micros - b.total_taxes.micros
}

/// Computes the default-rate Brazilian tax breakdown of a gross amount:
/// ICMS at 18%, PIS at 1.65%, COFINS at 7.6%, in BRL.
pub fn calculate_brazilian_taxes(gross_amount: Money) -> (r: TaxBreakdown)
    requires
        gross_amount.micros >= 0,
    ensures
        r.gross_amount == gross_amount,
        r.icms_amount.micros == (gross_amount.micros * 1800) / 10_000,
        r.pis_amount.micros == (gross_amount.micros * PIS_RATE_BP) / 10_000,
        r.cofins_amount.micros == (gross_amount.micros * COFINS_RATE_BP) / 10_000,
        r.icms_rate_bp == 1800 && r.pis_rate_bp == PIS_RATE_BP && r.cofins_rate_bp
            == COFINS_RATE_BP,
        spec_tax_breakdown_wf(*&r),
        r.currency@ == "BRL"@,
{
    let icms = gross_amount.times_rate_bp(1800);
    let pis = gross_amount.times_rate_bp(PIS_RATE_BP);
    let cofins = gross_amount.times_rate_bp(COFINS_RATE_BP);
    proof {
        lemma_tax_components_bounded(
            gross_amount.micros as int,
            icms.micros as int,
            1800,
            pis.micros as int,
            cofins.micros as int,
        );
    }
    let total = icms.plus(pis).plus(cofins);
    let net = gross_amount.minus(total);
    TaxBreakdown {
        gross_amount,
        icms_amount: icms,
        icms_rate_bp: 1800,
        pis_amount: pis,
        pis_rate_bp: PIS_RATE_BP,
        cofins_amount: cofins,
        cofins_rate_bp: COFINS_RATE_BP,
        total_taxes: total,
        net_amount: net,
        currency: brl_currency(),
    }
}

/// The BRL currency tag.
fn brl_currency() -> (r: String)
    ensures
        r@ == "BRL"@,
{
    let mut s = String::new();
    crate::external::push_char(&mut s, 'B');
    crate::external::push_char(&mut s, 'R');
    crate::external::push_char(&mut s, 'L');
    proof {
        reveal_strlit("BRL");
        assert(s@ =~= "BRL"@);
    }
    s
}

/// One exemption step applied to the component triple.
pub open spec fn spec_exemption_step(state: (int, int, int), ex: TaxExemption) -> (int, int, int) {
    match ex.tax_type {
        TaxType::Icms => ((state.0 * (10_000 - ex.exemption_rate_bp)) / 10_000, state.1, state.2),
        TaxType::Pis => (state.0, (state.1 * (10_000 - ex.exemption_rate_bp)) / 10_000, state.2),
        TaxType::Cofins => (state.0, state.1, (state.2 * (10_000 - ex.exemption_rate_bp)) / 10_000),
    }
}

/// The component triple after applying a list of exemptions in order.
pub open spec fn spec_apply_exemptions(state: (int, int, int), exs: Seq<TaxExemption>) -> (
    int,
    int,
    int,
)
    decreases exs.len(),
{
    if exs.len() == 0 {
        state
    } else {
        spec_apply_exemptions(spec_exemption_step(state, exs[0]), exs.drop_first())
    }
}

impl TaxBreakdown {
    /// Applies a list of proportional exemptions in order, scaling the named
    /// component by `1 - rate` at each step, then recomputes the total and
    /// the net amount so the breakdown invariant holds again.
    pub fn apply_exemptions(self, exemptions: &Vec<TaxExemption>) -> (r: TaxBreakdown)
        requires
            0 <= self.icms_amount.micros,
            0 <= self.pis_amount.micros,
            0 <= self.cofins_amount.micros,
            self.icms_amount.micros + self.pis_amount.micros + self.cofins_amount.micros
                <= i64::MAX,
            self.gross_amount.micros >= 0,
            forall|i: int|
                0 <= i < exemptions@.len() ==> (#[trigger] exemptions@[i]).exemption_rate_bp
                    <= 10_000,
        ensures
            ({
                let after = spec_apply_exemptions(
                    (
                        self.icms_amount.micros as int,
                        self.pis_amount.micros as int,
                        self.cofins_amount.micros as int,
                    ),
                    exemptions@,
                );
                &&& r.icms_amount.micros == after.0
                &&& r.pis_amount.micros == after.1
                &&& r.cofins_amount.micros == after.2
                &&& r.total_taxes.micros == after.0 + after.1 + after.2
                &&& r.net_amount.micros == self.gross_amount.micros - r.total_taxes.micros
                &&& r.gross_amount == self.gross_amount
                &&& spec_tax_breakdown_wf(*&r)
            }),
    {
        let ghost initial = (
            self.icms_amount.micros as int,
            self.pis_amount.micros as int,
            self.cofins_amount.micros as int,
        );
        let mut icms = self.icms_amount.micros;
        let mut pis = self.pis_amount.micros;
        let mut cofins = self.cofins_amount.micros;
        let n = exemptions.len();
        let mut i: usize = 0;
        proof {
            assert(exemptions@.skip(0) =~= exemptions@);
        }
        while i < n
            invariant
                i <= n,
                n == exemptions@.len(),
                forall|k: int|
                    0 <= k < exemptions@.len() ==> (#[trigger] exemptions@[k]).exemption_rate_bp
                        <= 10_000,
                0 <= icms <= self.icms_amount.micros,
                0 <= pis <= self.pis_amount.micros,
                0 <= cofins <= self.cofins_amount.micros,
                spec_apply_exemptions(initial, exemptions@) == spec_apply_exemptions(
                    (icms as int, pis as int, cofins as int),
                    exemptions@.skip(i as int),
                ),
            decreases n - i,
        {
            proof {
                assert(exemptions@.skip(i as int)[0] == exemptions@[i as int]);
                assert(exemptions@.skip(i as int).drop_first() =~= exemptions@.skip(i + 1));
            }
            let ex = &exemptions[i];
            let keep_bp = 10_000 - ex.exemption_rate_bp;
            match ex.tax_type {
                TaxType::Icms => {
                    icms = scale_component(icms, keep_bp);
                },
                TaxType::Pis => {
                    pis = scale_component(pis, keep_bp);
                },
                TaxType::Cofins => {
                    cofins = scale_component(cofins, keep_bp);
                },
            }
            i = i + 1;
        }
        proof {
            assert(exemptions@.skip(n as int) =~= Seq::<TaxExemption>::empty());
        }
        let total = icms + pis + cofins;
        let net = self.gross_amount.micros - total;
        TaxBreakdown {
            gross_amount: self.gross_amount,
            icms_amount: Money { micros: icms },
            icms_rate_bp: self.icms_rate_bp,
            pis_amount: Money { micros: pis },
            pis_rate_bp: self.pis_rate_bp,
            cofins_amount: Money { micros: cofins },
            cofins_rate_bp: self.cofins_rate_bp,
            total_taxes: Money { micros: total },
            net_amount: Money { micros: net },
            currency: self.currency,
        }
    }
}

/// Scales a non-negative component by `keep_bp` of 10,000, truncating.
fn scale_component(value: i64, keep_bp: u32) -> (r: i64)
    requires
        value >= 0,
        keep_bp <= 10_000,
    ensures
        r == (value * keep_bp) / 10_000,
        0 <= r <= value,
{
    Money { micros: value }.times_rate_bp(keep_bp).micros
}

} // verus!
