use pleme_core::Money;
use pleme_core::payment::Payment;
use pleme_core::tax::{
    calculate_icms, calculate_pis, calculate_cofins, calculate_iss, calculate_total_tax,
    calculate_brazilian_taxes, TaxExemption, TaxType,
};

#[test]
fn test_brazilian_tax_calculation() {
    let payment = Payment::new(
        "tax-check".to_string(),
        Money::from_cents(100000), // R$ 1,000.00
        Money::zero(),
        0,
    );

    let tax_breakdown = payment.calculate_brazilian_taxes();

    // Verify tax calculations
    assert_eq!(tax_breakdown.gross_amount, Money::from_cents(100000));
    assert_eq!(tax_breakdown.currency, "BRL");

    // ICMS should be 18% of gross amount
    assert_eq!(tax_breakdown.icms_amount, Money::from_cents(18000));

    // Total taxes should be sum of all tax components
    let expected_total = tax_breakdown
        .icms_amount
        .plus(tax_breakdown.pis_amount)
        .plus(tax_breakdown.cofins_amount);
    assert_eq!(tax_breakdown.total_taxes, expected_total);

    // Net amount should be gross minus total taxes
    assert_eq!(
        tax_breakdown.net_amount,
        tax_breakdown.gross_amount.minus(tax_breakdown.total_taxes),
    );
}

#[test]
fn test_goods_tax_scenario_sp() {
    // R$ 1,000.00 of goods in SP: ICMS 180.00, PIS 16.50, COFINS 76.00,
    // total 272.50, net 727.50.
    let amount = Money::from_cents(100000);
    assert_eq!(calculate_icms(amount, "SP"), Money::from_cents(18000));
    assert_eq!(calculate_pis(amount), Money::from_cents(1650));
    assert_eq!(calculate_cofins(amount), Money::from_cents(7600));
    let total = calculate_total_tax(amount, "SP", false);
    assert_eq!(total, Money::from_cents(27250));
    assert_eq!(amount.minus(total), Money::from_cents(72750));
}

#[test]
fn test_icms_rates_by_state() {
    let amount = Money::from_cents(10000); // R$ 100.00
    assert_eq!(calculate_icms(amount, "RJ"), Money::from_cents(2000)); // 20%
    assert_eq!(calculate_icms(amount, "rj"), Money::from_cents(2000)); // case-insensitive
    assert_eq!(calculate_icms(amount, "AM"), Money::from_cents(2000)); // 20%
    assert_eq!(calculate_icms(amount, "RS"), Money::from_cents(1700)); // 17%
    assert_eq!(calculate_icms(amount, "XX"), Money::from_cents(1700)); // default 17%
}

#[test]
fn test_iss_rates_by_city() {
    let amount = Money::from_cents(10000);
    assert_eq!(calculate_iss(amount, "SAO PAULO"), Money::from_cents(500)); // 5%
    assert_eq!(calculate_iss(amount, "sp"), Money::from_cents(500));
    assert_eq!(calculate_iss(amount, "BELO HORIZONTE"), Money::from_cents(300)); // 3%
    assert_eq!(calculate_iss(amount, "CURITIBA"), Money::from_cents(200)); // 2%
    assert_eq!(calculate_iss(amount, "SOMEWHERE"), Money::from_cents(300)); // default 3%
}

#[test]
fn test_service_total_tax() {
    // Services owe ISS + PIS + COFINS; in "SP" the ISS rate is 5%.
    let amount = Money::from_cents(100000);
    let total = calculate_total_tax(amount, "SP", true);
    assert_eq!(total, Money::from_cents(5000 + 1650 + 7600));
}

#[test]
fn test_tax_exemptions() {
    let breakdown = calculate_brazilian_taxes(Money::from_cents(100000));
    let exemptions = vec![
        TaxExemption {
            tax_type: TaxType::Icms,
            exemption_rate_bp: 10_000, // fully exempt
            reason: "export".to_string(),
        },
        TaxExemption {
            tax_type: TaxType::Pis,
            exemption_rate_bp: 5_000, // half
            reason: "partial relief".to_string(),
        },
    ];
    let after = breakdown.apply_exemptions(&exemptions);
    assert_eq!(after.icms_amount, Money::zero());
    assert_eq!(after.pis_amount, Money::from_cents(825));
    assert_eq!(after.cofins_amount, Money::from_cents(7600));
    assert_eq!(after.total_taxes, Money::from_cents(825 + 7600));
    assert_eq!(after.net_amount, after.gross_amount.minus(after.total_taxes));
}
