//! Check-digit and checksum primitives.
//!
//! Three independent primitives are shared by the document validators and the
//! PIX payload encoder: the weighted modulo-11 check digit used by CPF and
//! CNPJ, the CRC16-CCITT checksum that seals a BR Code payload, and the
//! alternating 1x/3x modulo-10 check digit of EAN-13 barcodes. A fourth,
//! cyclic-weight modulo-11 variant covers boleto digit verification.

use vstd::prelude::*;

verus! {

/// CRC16-CCITT generator polynomial.
pub const CRC16_POLYNOMIAL: u16 = 0x1021;

/// CRC16-CCITT initial register value.
pub const CRC16_INITIAL: u16 = 0xFFFF;

/// Modulo-11 reduction shared by CPF and CNPJ check digits: remainders 0 and
/// 1 collapse to 0, every other remainder `n` yields `11 - n`.
pub open spec fn spec_mod11_check(sum: nat) -> nat {
    if sum % 11 <= 1 {
        0
    } else {
        (11 - sum % 11) as nat
    }
}

/// Computes the modulo-11 check digit of a weighted digit sum.
pub fn mod11_check(sum: u32) -> (r: u32)
    ensures
        r == spec_mod11_check(sum as nat),
        r <= 9,
{
    let rem = sum % 11;
    if rem <= 1 {
        0
    } else {
        11 - rem
    }
}

/// One shift step of the CRC16 register: shift left, folding the generator
/// polynomial in when the top bit was set.
pub open spec fn spec_crc16_shift(crc: u16) -> u16 {
    if crc & 0x8000 != 0 {
        (crc << 1) ^ CRC16_POLYNOMIAL
    } else {
        crc << 1
    }
}

/// `n` successive CRC16 shift steps.
pub open spec fn spec_crc16_shifts(crc: u16, n: nat) -> u16
    decreases n,
{
    if n == 0 {
        crc
    } else {
        spec_crc16_shifts(spec_crc16_shift(crc), (n - 1) as nat)
    }
}

/// Folds one input byte into the CRC16 register: the byte enters through the
/// high half, then eight shift steps run.
pub open spec fn spec_crc16_byte(crc: u16, byte: u8) -> u16 {
    spec_crc16_shifts(crc ^ ((byte as u16) << 8), 8)
}

/// CRC16-CCITT of a byte sequence, from the 0xFFFF initial register.
pub open spec fn spec_crc16(data: Seq<u8>) -> u16
    decreases data.len(),
{
    if data.len() == 0 {
        CRC16_INITIAL
    } else {
        spec_crc16_byte(spec_crc16(data.drop_last()), data.last())
    }
}

/// Computes the CRC16-CCITT checksum of `data`, processing each byte
/// most-significant-bit first with polynomial 0x1021 and initial value
/// 0xFFFF.
pub fn crc16_ccitt(data: &[u8]) -> (r: u16)
    ensures
        r == spec_crc16(data@),
{
    let mut crc: u16 = CRC16_INITIAL;
    let len = data.len();
    let mut i: usize = 0;
    while i < len
        invariant
            i <= len,
            len == data@.len(),
            crc == spec_crc16(data@.take(i as int)),
        decreases len - i,
    {
        let byte = data[i];
        crc = crc ^ ((byte as u16) << 8u16);
        let mut j: usize = 0;
        let folded: Ghost<u16> = Ghost(crc);
        while j < 8
            invariant
                j <= 8,
                crc == spec_crc16_shifts(folded@, j as nat),
            decreases 8 - j,
        {
            proof {
                assert(spec_crc16_shifts(folded@, (j + 1) as nat) == spec_crc16_shift(
                    spec_crc16_shifts(folded@, j as nat),
                )) by {
                    lemma_crc16_shifts_snoc(folded@, j as nat);
                }
            }
            if crc & 0x8000 != 0 {
                crc = (crc << 1u16) ^ CRC16_POLYNOMIAL;
            } else {
                crc = crc << 1u16;
            }
            j = j + 1;
        }
        proof {
            assert(data@.take(i + 1).drop_last() =~= data@.take(i as int));
            assert(data@.take(i + 1).last() == data@[i as int]);
        }
        i = i + 1;
    }
    proof {
        assert(data@.take(len as int) =~= data@);
    }
    crc
}

/// Peeling one step off the tail of an iterated shift equals applying one
/// more step to the result.
proof fn lemma_crc16_shifts_snoc(crc: u16, n: nat)
    ensures
        spec_crc16_shifts(crc, n + 1) == spec_crc16_shift(spec_crc16_shifts(crc, n)),
    decreases n,
{
    assert(spec_crc16_shifts(crc, n + 1) == spec_crc16_shifts(spec_crc16_shift(crc), n));
    if n > 0 {
        lemma_crc16_shifts_snoc(spec_crc16_shift(crc), (n - 1) as nat);
        assert(spec_crc16_shifts(crc, n) == spec_crc16_shifts(spec_crc16_shift(crc), (n - 1) as nat));
    }
}

/// The uppercase hexadecimal digit for a value below 16.
pub open spec fn spec_hex_digit_upper(v: u16) -> u8 {
    if v < 10 {
        (0x30 + v) as u8  // '0' .. '9'
    } else {
        (0x41 + (v - 10)) as u8  // 'A' .. 'F'
    }
}

/// A 16-bit value rendered as exactly four uppercase hexadecimal digits,
/// zero-padded, most significant nibble first.
pub open spec fn spec_hex4_upper(v: u16) -> Seq<u8> {
    seq![
        spec_hex_digit_upper((v >> 12) & 0xF),
        spec_hex_digit_upper((v >> 8) & 0xF),
        spec_hex_digit_upper((v >> 4) & 0xF),
        spec_hex_digit_upper(v & 0xF),
    ]
}

/// Renders a CRC16 value as four uppercase hexadecimal digit bytes.
pub fn hex4_upper(v: u16) -> (r: Vec<u8>)
    ensures
        r@ =~= spec_hex4_upper(v),
        crate::text::spec_all_ascii(r@),
{
    proof {
        assert((v >> 12u16) & 0xF < 16 && (v >> 8u16) & 0xF < 16 && (v >> 4u16) & 0xF < 16 && v
            & 0xF < 16) by (bit_vector);
    }
    let mut out: Vec<u8> = Vec::new();
    out.push(hex_digit_upper((v >> 12u16) & 0xF));
    out.push(hex_digit_upper((v >> 8u16) & 0xF));
    out.push(hex_digit_upper((v >> 4u16) & 0xF));
    out.push(hex_digit_upper(v & 0xF));
    proof {
        assert forall|i: int| 0 <= i < out@.len() implies #[trigger] out@[i] < 128 by {
            assert(out@[i] == spec_hex4_upper(v)[i]);
            assert(out@[i] <= 0x46);
        }
    }
    out
}

/// Renders one nibble as an uppercase hexadecimal digit byte.
fn hex_digit_upper(v: u16) -> (r: u8)
    requires
        v < 16,
    ensures
        r == spec_hex_digit_upper(v),
        r <= 0x46,
{
    if v < 10 {
        0x30 + (v as u8)
    } else {
        0x41 + ((v - 10) as u8)
    }
}

/// The lowercase hexadecimal digit for a value below 16.
pub open spec fn spec_hex_digit_lower(v: u8) -> u8 {
    if v < 10 {
        (0x30 + v) as u8  // '0' .. '9'
    } else {
        (0x61 + (v - 10)) as u8  // 'a' .. 'f'
    }
}

/// A byte sequence rendered as lowercase hexadecimal digits, two per byte.
pub open spec fn spec_hex_lower(b: Seq<u8>) -> Seq<u8>
    decreases b.len(),
{
    if b.len() == 0 {
        Seq::empty()
    } else {
        spec_hex_lower(b.drop_last()) + seq![
            spec_hex_digit_lower(b.last() / 16),
            spec_hex_digit_lower(b.last() % 16),
        ]
    }
}

/// Renders a byte string as lowercase hexadecimal digits.
pub fn to_hex_lower(b: &[u8]) -> (r: Vec<u8>)
    ensures
        r@ =~= spec_hex_lower(b@),
        crate::text::spec_all_ascii(r@),
{
    let len = b.len();
    let mut out: Vec<u8> = Vec::new();
    let mut i: usize = 0;
    while i < len
        invariant
            i <= len,
            len == b@.len(),
            out@ =~= spec_hex_lower(b@.take(i as int)),
            crate::text::spec_all_ascii(out@),
        decreases len - i,
    {
        let x = b[i];
        let hi = x / 16;
        let lo = x % 16;
        let ghost prev = out@;
        out.push(hex_digit_lower(hi));
        out.push(hex_digit_lower(lo));
        proof {
            assert(b@.take(i + 1).drop_last() =~= b@.take(i as int));
            assert(b@.take(i + 1).last() == b@[i as int]);
            assert(out@ =~= prev + seq![
                spec_hex_digit_lower(x / 16),
                spec_hex_digit_lower(x % 16),
            ]);
            assert forall|k: int| 0 <= k < out@.len() implies #[trigger] out@[k] < 128 by {
                if k < prev.len() {
                    assert(out@[k] == prev[k]);
                } else if k == prev.len() {
                    assert(out@[k] == spec_hex_digit_lower(x / 16));
                } else {
                    assert(out@[k] == spec_hex_digit_lower(x % 16));
                }
            }
        }
        i = i + 1;
    }
    proof {
        assert(b@.take(len as int) =~= b@);
    }
    out
}

/// Renders one nibble as a lowercase hexadecimal digit byte.
fn hex_digit_lower(v: u8) -> (r: u8)
    requires
        v < 16,
    ensures
        r == spec_hex_digit_lower(v),
        r <= 0x66,
{
    if v < 10 {
        0x30 + v
    } else {
        0x61 + (v - 10)
    }
}

/// Weighted EAN-13 digit sum: digit values at even positions count once, at
/// odd positions three times.
pub open spec fn spec_ean13_sum(digits: Seq<u8>) -> nat
    decreases digits.len(),
{
    if digits.len() == 0 {
        0
    } else {
        let i = (digits.len() - 1) as nat;
        let w: nat = if i % 2 == 0 {
            1
        } else {
            3
        };
        (spec_ean13_sum(digits.drop_last()) + digits.last() * w) as nat
    }
}

/// EAN-13 check digit of a sequence of digit values: `(10 - sum % 10) % 10`.
pub open spec fn spec_ean13_check(digits: Seq<u8>) -> nat {
    (((10 - spec_ean13_sum(digits) % 10) % 10) as nat)
}

/// Computes the EAN-13 check digit over the digit characters of `code`
/// (non-digit bytes are ignored), alternating 1x and 3x weights.
pub fn ean13_check_digit(code: &[u8]) -> (r: u8)
    ensures
        r == spec_ean13_check(crate::documents::spec_digit_values(crate::documents::spec_digits_of(code@))),
        r <= 9,
{
    let digits = crate::documents::digit_values(code);
    let mut sum: u128 = 0;
    let mut i: usize = 0;
    while i < digits.len()
        invariant
            i <= digits@.len(),
            digits@.len() <= code@.len(),
            forall|k: int| 0 <= k < digits@.len() ==> digits@[k] <= 9,
            sum == spec_ean13_sum(digits@.take(i as int)),
            sum <= i * 27,
        decreases digits@.len() - i,
    {
        let d = digits[i];
        proof {
            assert(digits@.take(i + 1).drop_last() =~= digits@.take(i as int));
        }
        if i % 2 == 0 {
            sum = sum + (d as u128);
        } else {
            sum = sum + (d as u128) * 3;
        }
        i = i + 1;
    }
    proof {
        assert(digits@.take(digits@.len() as int) =~= digits@);
    }
    let rem = (sum % 10) as u8;
    (10 - rem) % 10
}

/// Cyclic-weight modulo-11 sum used for boleto digit verification: weights
/// 2 through 9 repeat from the rightmost byte; positions are counted over all
/// bytes, digits or not, but only digit bytes contribute.
pub open spec fn spec_boleto_sum(code: Seq<u8>) -> nat
    decreases code.len(),
{
    if code.len() == 0 {
        0
    } else {
        let contribution: nat = if crate::documents::spec_is_digit(code.first()) {
            ((code.first() - 0x30) * spec_boleto_weight((code.len() - 1) as nat)) as nat
        } else {
            0
        };
        spec_boleto_sum(code.drop_first()) + contribution
    }
}

/// The cyclic weight of the byte at distance `i` from the right end.
pub open spec fn spec_boleto_weight(i: nat) -> nat {
    (i % 8) + 2
}

/// Boleto verification digit of a numeric code: cyclic 2..9 weights over the
/// digits taken right to left, reduced modulo 11 with remainders 0 and 1
/// collapsing to 0.
pub open spec fn spec_boleto_dv(code: Seq<u8>) -> nat {
    let rem = spec_boleto_sum(code) % 11;
    if rem <= 1 {
        0
    } else {
        (11 - rem) as nat
    }
}

/// Computes the boleto verification digit of `code`.
pub fn boleto_dv(code: &[u8]) -> (r: u8)
    ensures
        r == spec_boleto_dv(code@),
        r <= 9,
{
    let len = code.len();
    let mut sum: u128 = 0;
    let mut i: usize = len;
    // Walk right to left so the cyclic weights line up with the distance
    // from the end of the code.
    while i > 0
        invariant
            i <= len,
            len == code@.len(),
            sum == spec_boleto_sum(code@.skip(i as int)),
            sum <= (len - i) * 81,
        decreases i,
    {
        i = i - 1;
        let b = code[i];
        proof {
            assert(code@.skip(i as int).drop_first() =~= code@.skip(i + 1));
            assert(code@.skip(i as int).first() == code@[i as int]);
        }
        if b >= 0x30 && b <= 0x39 {
            let dist = len - 1 - i;
            let w = ((dist % 8) + 2) as u128;
            proof {
                assert(spec_boleto_weight((code@.len() - 1 - i) as nat) == w);
                assert(((b - 0x30) as u128) * w <= 81) by (nonlinear_arith)
                    requires
                        0x30 <= b <= 0x39,
                        2 <= w <= 9,
                ;
            }
            let p = ((b - 0x30) as u128) * w;
            sum = sum + p;
        }
    }
    proof {
        assert(code@.skip(0) =~= code@);
    }
    let rem = (sum % 11) as u8;
    if rem <= 1 {
        0
    } else {
        11 - rem
    }
}

} // verus!
