//! Shipping zone classification and cost estimation.
//!
//! Brazilian states partition into five regions; the zone multiplier of an
//! ordered (origin, destination) pair follows a fixed rule order: same state,
//! same region, the listed adjacent pairs, the listed distant pairs, then a
//! default. The evaluation order is part of the contract — the rules are not
//! symmetric for every pair, and unlisted pairs silently take the default.

use vstd::prelude::*;
use vstd::string::*;
use crate::money::Money;
use crate::tax::spec_is2;
use crate::text::{spec_upper, upper_bytes, bytes_equal};

verus! {

/// Flat international shipping cost: R$ 50.00.
pub const INTERNATIONAL_COST_MICROS: i64 = 50_000_000;

/// Domestic base cost: R$ 15.00.
pub const BASE_COST_MICROS: i64 = 15_000_000;

/// Weight cost: R$ 5.00 per kilogram, hence 5,000 micros per gram.
pub const MICROS_PER_GRAM: i64 = 5_000;

/// The southeast region: SP, RJ, MG, ES.
pub open spec fn spec_in_southeast(st: Seq<u8>) -> bool {
    ||| spec_is2(st, 0x53, 0x50)
    ||| spec_is2(st, 0x52, 0x4A)
    ||| spec_is2(st, 0x4D, 0x47)
    ||| spec_is2(st, 0x45, 0x53)
}

/// The south region: PR, SC, RS.
pub open spec fn spec_in_south(st: Seq<u8>) -> bool {
    ||| spec_is2(st, 0x50, 0x52)
    ||| spec_is2(st, 0x53, 0x43)
    ||| spec_is2(st, 0x52, 0x53)
}

/// The northeast region: BA, SE, AL, PE, PB, RN, CE, PI, MA.
pub open spec fn spec_in_northeast(st: Seq<u8>) -> bool {
    ||| spec_is2(st, 0x42, 0x41)
    ||| spec_is2(st, 0x53, 0x45)
    ||| spec_is2(st, 0x41, 0x4C)
    ||| spec_is2(st, 0x50, 0x45)
    ||| spec_is2(st, 0x50, 0x42)
    ||| spec_is2(st, 0x52, 0x4E)
    ||| spec_is2(st, 0x43, 0x45)
    ||| spec_is2(st, 0x50, 0x49)
    ||| spec_is2(st, 0x4D, 0x41)
}

/// The north region: AC, AP, AM, PA, RO, RR, TO.
pub open spec fn spec_in_north(st: Seq<u8>) -> bool {
    ||| spec_is2(st, 0x41, 0x43)
    ||| spec_is2(st, 0x41, 0x50)
    ||| spec_is2(st, 0x41, 0x4D)
    ||| spec_is2(st, 0x50, 0x41)
    ||| spec_is2(st, 0x52, 0x4F)
    ||| spec_is2(st, 0x52, 0x52)
    ||| spec_is2(st, 0x54, 0x4F)
}

/// The center-west region: GO, MT, MS, DF.
pub open spec fn spec_in_center(st: Seq<u8>) -> bool {
    ||| spec_is2(st, 0x47, 0x4F)
    ||| spec_is2(st, 0x4D, 0x54)
    ||| spec_is2(st, 0x4D, 0x53)
    ||| spec_is2(st, 0x44, 0x46)
}

/// The zone multiplier of an ordered pair of uppercased state codes, in
/// hundredths: 100 for the same state, 120 within one region, 150 for the
/// listed adjacent pairs, 180 for the listed distant pairs, 160 otherwise.
/// The rules apply in this order and are not symmetric for every pair.
pub open spec fn spec_zone_multiplier(o: Seq<u8>, d: Seq<u8>) -> u32 {
    if o =~= d {
        100
    } else if (spec_in_southeast(o) && spec_in_southeast(d)) || (spec_in_south(o) && spec_in_south(
        d,
    )) || (spec_in_northeast(o) && spec_in_northeast(d)) || (spec_in_north(o) && spec_in_north(d))
        || (spec_in_center(o) && spec_in_center(d)) {
        120
    } else if (spec_in_southeast(o) && (spec_in_south(d) || spec_in_center(d))) || (spec_in_south(o)
        && spec_in_southeast(d)) {
        150
    } else if (spec_in_southeast(o) && spec_in_north(d)) || (spec_in_north(o) && spec_in_southeast(
        d,
    )) || (spec_in_south(o) && spec_in_north(d)) || (spec_in_north(o) && spec_in_south(d)) {
        180
    } else {
        160
    }
}

/// True when the two-byte uppercased code lies in the southeast.
fn in_southeast(u: &Vec<u8>) -> (r: bool)
    ensures
        r == spec_in_southeast(u@),
{
    u.len() == 2 && ((u[0] == 0x53 && u[1] == 0x50) || (u[0] == 0x52 && u[1] == 0x4A) || (u[0]
        == 0x4D && u[1] == 0x47) || (u[0] == 0x45 && u[1] == 0x53))
}

/// True when the two-byte uppercased code lies in the south.
fn in_south(u: &Vec<u8>) -> (r: bool)
    ensures
        r == spec_in_south(u@),
{
    u.len() == 2 && ((u[0] == 0x50 && u[1] == 0x52) || (u[0] == 0x53 && u[1] == 0x43) || (u[0]
        == 0x52 && u[1] == 0x53))
}

/// True when the two-byte uppercased code lies in the northeast.
fn in_northeast(u: &Vec<u8>) -> (r: bool)
    ensures
        r == spec_in_northeast(u@),
{
    u.len() == 2 && ((u[0] == 0x42 && u[1] == 0x41) || (u[0] == 0x53 && u[1] == 0x45) || (u[0]
        == 0x41 && u[1] == 0x4C) || (u[0] == 0x50 && u[1] == 0x45) || (u[0] == 0x50 && u[1] == 0x42)
        || (u[0] == 0x52 && u[1] == 0x4E) || (u[0] == 0x43 && u[1] == 0x45) || (u[0] == 0x50 && u[1]
        == 0x49) || (u[0] == 0x4D && u[1] == 0x41))
}

/// True when the two-byte uppercased code lies in the north.
fn in_north(u: &Vec<u8>) -> (r: bool)
    ensures
        r == spec_in_north(u@),
{
    u.len() == 2 && ((u[0] == 0x41 && u[1] == 0x43) || (u[0] == 0x41 && u[1] == 0x50) || (u[0]
        == 0x41 && u[1] == 0x4D) || (u[0] == 0x50 && u[1] == 0x41) || (u[0] == 0x52 && u[1] == 0x4F)
        || (u[0] == 0x52 && u[1] == 0x52) || (u[0] == 0x54 && u[1] == 0x4F))
}

/// True when the two-byte uppercased code lies in the center-west.
fn in_center(u: &Vec<u8>) -> (r: bool)
    ensures
        r == spec_in_center(u@),
{
    u.len() == 2 && ((u[0] == 0x47 && u[1] == 0x4F) || (u[0] == 0x4D && u[1] == 0x54) || (u[0]
        == 0x4D && u[1] == 0x53) || (u[0] == 0x44 && u[1] == 0x46))
}

/// The zone multiplier of an ordered (origin, destination) pair, in
/// hundredths, after uppercasing both codes.
pub fn calculate_zone_multiplier(origin: &str, dest: &str) -> (r: u32)
    ensures
        r == spec_zone_multiplier(
            spec_upper(origin.spec_bytes()),
            spec_upper(dest.spec_bytes()),
        ),
        100 <= r <= 180,
{
    let o = upper_bytes(origin.as_bytes());
    let d = upper_bytes(dest.as_bytes());
    if bytes_equal(o.as_slice(), d.as_slice()) {
        return 100;
    }
    let o_se = in_southeast(&o);
    let o_s = in_south(&o);
    let o_ne = in_northeast(&o);
    let o_n = in_north(&o);
    let o_c = in_center(&o);
    let d_se = in_southeast(&d);
    let d_s = in_south(&d);
    let d_ne = in_northeast(&d);
    let d_n = in_north(&d);
    let d_c = in_center(&d);
    if (o_se && d_se) || (o_s && d_s) || (o_ne && d_ne) || (o_n && d_n) || (o_c && d_c) {
        120
    } else if (o_se && (d_s || d_c)) || (o_s && d_se) {
        150
    } else if (o_se && d_n) || (o_n && d_se) || (o_s && d_n) || (o_n && d_s) {
        180
    } else {
        160
    }
}

/// The domestic shipping cost in micros: base plus weight cost, scaled by
/// the zone multiplier.
pub open spec fn spec_domestic_cost(weight_grams: int, mult: int) -> int {
    ((BASE_COST_MICROS + weight_grams * MICROS_PER_GRAM) * mult) / 100
}

/// Shipping cost of a consignment: a flat R$ 50.00 outside Brazil;
/// domestically, R$ 15.00 base plus R$ 5.00 per kilogram, scaled by the zone
/// multiplier of the (origin, destination) pair. The item count does not
/// enter the tariff.
pub fn calculate_shipping_cost(
    items_count: i64,
    weight_grams: u64,
    origin_state: &str,
    dest_state: &str,
    country: &str,
) -> (r: Money)
    requires
        weight_grams <= 1_000_000_000_000,
    ensures
        !(spec_upper(country.spec_bytes()) =~= seq![0x42u8, 0x52u8]) ==> r.micros
            == INTERNATIONAL_COST_MICROS,
        spec_upper(country.spec_bytes()) =~= seq![0x42u8, 0x52u8] ==> r.micros
            == spec_domestic_cost(
            weight_grams as int,
            spec_zone_multiplier(
                spec_upper(origin_state.spec_bytes()),
                spec_upper(dest_state.spec_bytes()),
            ) as int,
        ),
{
    let c = upper_bytes(country.as_bytes());
    let br: [u8; 2] = [0x42, 0x52];
    if !bytes_equal(c.as_slice(), br.as_slice()) {
        return Money { micros: INTERNATIONAL_COST_MICROS };
    }
    let weight_cost: i64 = (weight_grams as i64) * MICROS_PER_GRAM;
    let subtotal: i64 = BASE_COST_MICROS + weight_cost;
    let mult = calculate_zone_multiplier(origin_state, dest_state);
    let wide: i128 = (subtotal as i128) * (mult as i128);
    let total: i128 = wide / 100;
    proof {
        assert(0 <= total <= subtotal * 2) by (nonlinear_arith)
            requires
                0 <= subtotal,
                100 <= mult <= 180,
                wide == subtotal * mult,
                total == wide / 100,
        ;
    }
    Money { micros: total as i64 }
}

/// The ceiling of `base * mult / 100` in whole days.
pub open spec fn spec_scaled_days(base: int, mult: int) -> int {
    (base * mult + 99) / 100
}

/// Estimated delivery time in business days: same-state express is one day,
/// same-state standard two, other same-state services three; between states
/// the service base (express 2, standard 5, otherwise 7) is scaled by the
/// zone multiplier, rounded up to a whole day.
pub fn estimate_delivery_days(origin_state: &str, dest_state: &str, service_type: &str) -> (r: u32)
    ensures
        ({
            let o = spec_upper(origin_state.spec_bytes());
            let d = spec_upper(dest_state.spec_bytes());
            let express = service_type.spec_bytes() =~= seq![
                0x65u8,
                0x78u8,
                0x70u8,
                0x72u8,
                0x65u8,
                0x73u8,
                0x73u8,
            ];
            let standard = service_type.spec_bytes() =~= seq![
                0x73u8,
                0x74u8,
                0x61u8,
                0x6Eu8,
                0x64u8,
                0x61u8,
                0x72u8,
                0x64u8,
            ];
            let same = origin_state.spec_bytes() =~= dest_state.spec_bytes();
            if same {
                r == if express {
                    1u32
                } else if standard {
                    2u32
                } else {
                    3u32
                }
            } else {
                r == spec_scaled_days(
                    if express {
                        2int
                    } else if standard {
                        5int
                    } else {
                        7int
                    },
                    spec_zone_multiplier(o, d) as int,
                )
            }
        }),
{
    let express_lit: [u8; 7] = [0x65, 0x78, 0x70, 0x72, 0x65, 0x73, 0x73];
    let standard_lit: [u8; 8] = [0x73, 0x74, 0x61, 0x6E, 0x64, 0x61, 0x72, 0x64];
    let express = bytes_equal(service_type.as_bytes(), express_lit.as_slice());
    let standard = bytes_equal(service_type.as_bytes(), standard_lit.as_slice());
    let same = bytes_equal(origin_state.as_bytes(), dest_state.as_bytes());
    if same && express {
        return 1;
    }
    if same {
        return if express {
            1
        } else if standard {
            2
        } else {
            3
        };
    }
    let mult = calculate_zone_multiplier(origin_state, dest_state);
    let base: u32 = if express {
        2
    } else if standard {
        5
    } else {
        7
    };
    (base * mult + 99) / 100
}

/// The recommended carrier for a route: a local courier within one state,
/// otherwise by weight bracket.
pub fn recommend_carrier(origin: &str, dest: &str, weight_grams: u64) -> (r: &'static str)
    ensures
        origin.spec_bytes() =~= dest.spec_bytes() ==> r@ == "Local Courier"@,
        !(origin.spec_bytes() =~= dest.spec_bytes()) ==> r@ == (if weight_grams < 1_000 {
            "Correios PAC Mini"@
        } else if weight_grams < 30_000 {
            "Correios PAC"@
        } else if weight_grams < 100_000 {
            "Transportadora Regional"@
        } else {
            "Transportadora Pesada"@
        }),
{
    if bytes_equal(origin.as_bytes(), dest.as_bytes()) {
        return "Local Courier";
    }
    if weight_grams < 1_000 {
        "Correios PAC Mini"
    } else if weight_grams < 30_000 {
        "Correios PAC"
    } else if weight_grams < 100_000 {
        "Transportadora Regional"
    } else {
        "Transportadora Pesada"
    }
}

} // verus!
