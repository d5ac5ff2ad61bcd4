use pleme_core::Money;
use pleme_core::shipping::{
    calculate_zone_multiplier, calculate_shipping_cost, estimate_delivery_days, recommend_carrier,
};

#[test]
fn test_zone_multiplier_rule_order() {
    // Same state, whatever the casing.
    assert_eq!(calculate_zone_multiplier("SP", "sp"), 100);
    // Same region.
    assert_eq!(calculate_zone_multiplier("SP", "RJ"), 120);
    assert_eq!(calculate_zone_multiplier("BA", "CE"), 120);
    // Listed adjacent pairs.
    assert_eq!(calculate_zone_multiplier("SP", "PR"), 150); // southeast -> south
    assert_eq!(calculate_zone_multiplier("PR", "SP"), 150); // south -> southeast
    assert_eq!(calculate_zone_multiplier("SP", "GO"), 150); // southeast -> center-west
    // Listed distant pairs.
    assert_eq!(calculate_zone_multiplier("SP", "AM"), 180);
    assert_eq!(calculate_zone_multiplier("AM", "SP"), 180);
    assert_eq!(calculate_zone_multiplier("RS", "PA"), 180); // south -> north
    // Everything else takes the default.
    assert_eq!(calculate_zone_multiplier("GO", "SP"), 160); // center-west -> southeast: not mirrored
    assert_eq!(calculate_zone_multiplier("BA", "AC"), 160); // northeast -> north
    assert_eq!(calculate_zone_multiplier("ZZ", "SP"), 160); // unknown code
}

#[test]
fn test_shipping_cost() {
    // International: flat R$ 50.00.
    assert_eq!(
        calculate_shipping_cost(1, 1000, "SP", "SP", "US"),
        Money::from_cents(5000),
    );
    // Same state, 1 kg: (15.00 + 5.00) * 1.00 = R$ 20.00.
    assert_eq!(
        calculate_shipping_cost(1, 1000, "SP", "SP", "BR"),
        Money::from_cents(2000),
    );
    // Distant pair, 2 kg: (15.00 + 10.00) * 1.80 = R$ 45.00.
    assert_eq!(
        calculate_shipping_cost(3, 2000, "SP", "AM", "br"),
        Money::from_cents(4500),
    );
    // Zero weight still pays the base times the zone.
    assert_eq!(
        calculate_shipping_cost(1, 0, "SP", "RJ", "BR"),
        Money::from_cents(1800),
    );
}

#[test]
fn test_delivery_days() {
    assert_eq!(estimate_delivery_days("SP", "SP", "express"), 1);
    assert_eq!(estimate_delivery_days("SP", "SP", "standard"), 2);
    assert_eq!(estimate_delivery_days("SP", "SP", "economy"), 3);
    // Same region: standard 5 days at 1.20 rounds up to 6.
    assert_eq!(estimate_delivery_days("SP", "RJ", "standard"), 6);
    // Distant pair: express 2 days at 1.80 rounds up to 4.
    assert_eq!(estimate_delivery_days("SP", "AM", "express"), 4);
    // Default service between regions: 7 days at 1.50 rounds up to 11.
    assert_eq!(estimate_delivery_days("SP", "PR", "economy"), 11);
}

#[test]
fn test_recommend_carrier() {
    assert_eq!(recommend_carrier("SP", "SP", 500_000), "Local Courier");
    assert_eq!(recommend_carrier("SP", "RJ", 500), "Correios PAC Mini");
    assert_eq!(recommend_carrier("SP", "RJ", 5_000), "Correios PAC");
    assert_eq!(recommend_carrier("SP", "RJ", 50_000), "Transportadora Regional");
    assert_eq!(recommend_carrier("SP", "RJ", 200_000), "Transportadora Pesada");
}
