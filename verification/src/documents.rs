//! Brazilian identity document validation and formatting.
//!
//! CPF, CNPJ, CEP and phone numbers arrive as arbitrary strings; every
//! function first extracts the ASCII digit characters and then judges or
//! formats the digit string. Validation functions are total boolean
//! predicates; formatting functions return the input unchanged whenever the
//! digit count does not match the expected length.

use vstd::prelude::*;
use vstd::string::*;

verus! {

/// True for the ASCII digit bytes `'0'` through `'9'`.
pub open spec fn spec_is_digit(b: u8) -> bool {
    0x30 <= b <= 0x39
}

/// The ASCII digit bytes of `s`, in order, everything else discarded.
pub open spec fn spec_digits_of(s: Seq<u8>) -> Seq<u8>
    decreases s.len(),
{
    if s.len() == 0 {
        Seq::empty()
    } else {
        spec_digits_of(s.drop_last()) + (if spec_is_digit(s.last()) {
            seq![s.last()]
        } else {
            Seq::<u8>::empty()
        })
    }
}

/// Numeric values (0..=9) of a sequence of ASCII digit bytes.
pub open spec fn spec_digit_values(d: Seq<u8>) -> Seq<u8> {
    d.map_values(|b: u8| (b - 0x30) as u8)
}

/// A byte sequence rendered as the sequence of the chars it spells; only
/// meaningful for ASCII bytes.
pub open spec fn spec_ascii_chars(b: Seq<u8>) -> Seq<char> {
    Seq::new(b.len(), |i: int| b[i] as char)
}

/// Collects the ASCII digit bytes of `s`.
pub fn digits_of_bytes(s: &[u8]) -> (r: Vec<u8>)
    ensures
        r@ =~= spec_digits_of(s@),
        r@.len() <= s@.len(),
        forall|i: int| 0 <= i < r@.len() ==> spec_is_digit(#[trigger] r@[i]),
{
    let len = s.len();
    let mut out: Vec<u8> = Vec::new();
    let mut i: usize = 0;
    while i < len
        invariant
            i <= len,
            len == s@.len(),
            out@ =~= spec_digits_of(s@.take(i as int)),
            out@.len() <= i,
            forall|k: int| 0 <= k < out@.len() ==> spec_is_digit(#[trigger] out@[k]),
        decreases len - i,
    {
        let b = s[i];
        proof {
            assert(s@.take(i + 1).drop_last() =~= s@.take(i as int));
            assert(s@.take(i + 1).last() == s@[i as int]);
        }
        if b >= 0x30 && b <= 0x39 {
            out.push(b);
        }
        i = i + 1;
    }
    proof {
        assert(s@.take(len as int) =~= s@);
    }
    out
}

/// Collects the numeric values of the ASCII digits of `s`.
pub fn digit_values(s: &[u8]) -> (r: Vec<u8>)
    ensures
        r@ =~= spec_digit_values(spec_digits_of(s@)),
        r@.len() <= s@.len(),
        forall|i: int| 0 <= i < r@.len() ==> #[trigger] r@[i] <= 9,
{
    let digits = digits_of_bytes(s);
    let n = digits.len();
    let mut out: Vec<u8> = Vec::new();
    let mut i: usize = 0;
    while i < n
        invariant
            i <= n,
            n == digits@.len(),
            digits@.len() <= s@.len(),
            forall|k: int| 0 <= k < digits@.len() ==> spec_is_digit(#[trigger] digits@[k]),
            out@ =~= spec_digit_values(digits@.take(i as int)),
            forall|k: int| 0 <= k < out@.len() ==> #[trigger] out@[k] <= 9,
        decreases n - i,
    {
        out.push(digits[i] - 0x30);
        proof {
            assert(out@ =~= spec_digit_values(digits@.take(i + 1)));
        }
        i = i + 1;
    }
    proof {
        assert(digits@.take(n as int) =~= digits@);
        assert(digits@ =~= spec_digits_of(s@));
    }
    out
}

/// All bytes of `d` equal its first byte.
pub open spec fn spec_all_same(d: Seq<u8>) -> bool {
    forall|i: int| 0 <= i < d.len() ==> #[trigger] d[i] == d[0]
}

/// The published placeholder CPF digit string `12345678909`, which matches
/// the check-digit formula but names no real registration and is rejected as
/// a known invalid pattern, like the all-identical strings.
pub open spec fn spec_known_invalid_cpf(d: Seq<u8>) -> bool {
    &&& d.len() == 11
    &&& d[0] == 0x31
    &&& d[1] == 0x32
    &&& d[2] == 0x33
    &&& d[3] == 0x34
    &&& d[4] == 0x35
    &&& d[5] == 0x36
    &&& d[6] == 0x37
    &&& d[7] == 0x38
    &&& d[8] == 0x39
    &&& d[9] == 0x30
    &&& d[10] == 0x39
}

/// First CPF weighted sum: digit values 0..=8 against weights 10 down to 2.
pub open spec fn spec_cpf_sum1(v: Seq<u8>) -> int {
    v[0] * 10 + v[1] * 9 + v[2] * 8 + v[3] * 7 + v[4] * 6 + v[5] * 5 + v[6] * 4 + v[7] * 3 + v[8]
        * 2
}

/// Second CPF weighted sum: digit values 0..=9 against weights 11 down to 2.
pub open spec fn spec_cpf_sum2(v: Seq<u8>) -> int {
    v[0] * 11 + v[1] * 10 + v[2] * 9 + v[3] * 8 + v[4] * 7 + v[5] * 6 + v[6] * 5 + v[7] * 4 + v[8]
        * 3 + v[9] * 2
}

/// A CPF digit string is valid when it has exactly 11 digits, is not one of
/// the known invalid patterns (all-identical digits or the published
/// placeholder string), and both check digits match the modulo-11 formula.
pub open spec fn spec_cpf_valid(d: Seq<u8>) -> bool {
    let v = spec_digit_values(d);
    &&& d.len() == 11
    &&& !spec_all_same(d)
    &&& !spec_known_invalid_cpf(d)
    &&& v[9] == crate::checksum::spec_mod11_check(spec_cpf_sum1(v) as nat)
    &&& v[10] == crate::checksum::spec_mod11_check(spec_cpf_sum2(v) as nat)
}

/// Validates a Brazilian CPF: extracts the digits of `cpf` and accepts
/// exactly the valid 11-digit strings as given by [`spec_cpf_valid`].
#[verifier::rlimit(50)]
pub fn validate_cpf(cpf: &str) -> (r: bool)
    ensures
        r == spec_cpf_valid(spec_digits_of(cpf.spec_bytes())),
{
    let bytes = cpf.as_bytes();
    let d = digits_of_bytes(bytes);
    if d.len() != 11 {
        return false;
    }
    if all_same(&d) {
        return false;
    }
    if d[0] == 0x31 && d[1] == 0x32 && d[2] == 0x33 && d[3] == 0x34 && d[4] == 0x35 && d[5] == 0x36
        && d[6] == 0x37 && d[7] == 0x38 && d[8] == 0x39 && d[9] == 0x30 && d[10] == 0x39 {
        return false;
    }
    let v = digit_values(bytes);
    proof {
        assert(v@.len() == 11);
    }
    let sum1: u32 = (v[0] as u32) * 10 + (v[1] as u32) * 9 + (v[2] as u32) * 8 + (v[3] as u32) * 7
        + (v[4] as u32) * 6 + (v[5] as u32) * 5 + (v[6] as u32) * 4 + (v[7] as u32) * 3 + (
    v[8] as u32) * 2;
    let check1 = crate::checksum::mod11_check(sum1);
    if (v[9] as u32) != check1 {
        return false;
    }
    let sum2: u32 = (v[0] as u32) * 11 + (v[1] as u32) * 10 + (v[2] as u32) * 9 + (v[3] as u32) * 8
        + (v[4] as u32) * 7 + (v[5] as u32) * 6 + (v[6] as u32) * 5 + (v[7] as u32) * 4 + (
    v[8] as u32) * 3 + (v[9] as u32) * 2;
    let check2 = crate::checksum::mod11_check(sum2);
    (v[10] as u32) == check2
}

/// True when every byte of `d` equals its first byte.
fn all_same(d: &Vec<u8>) -> (r: bool)
    requires
        d@.len() > 0,
    ensures
        r == spec_all_same(d@),
{
    let n = d.len();
    let first = d[0];
    let mut i: usize = 0;
    while i < n
        invariant
            i <= n,
            n == d@.len(),
            n > 0,
            first == d@[0],
            forall|k: int| 0 <= k < i ==> #[trigger] d@[k] == d@[0],
        decreases n - i,
    {
        if d[i] != first {
            return false;
        }
        i = i + 1;
    }
    true
}

/// First CNPJ weighted sum: digit values 0..=11 against the fixed weights
/// 5,4,3,2,9,8,7,6,5,4,3,2.
pub open spec fn spec_cnpj_sum1(v: Seq<u8>) -> int {
    v[0] * 5 + v[1] * 4 + v[2] * 3 + v[3] * 2 + v[4] * 9 + v[5] * 8 + v[6] * 7 + v[7] * 6 + v[8]
        * 5 + v[9] * 4 + v[10] * 3 + v[11] * 2
}

/// Second CNPJ weighted sum: digit values 0..=12 against the fixed weights
/// 6,5,4,3,2,9,8,7,6,5,4,3,2.
pub open spec fn spec_cnpj_sum2(v: Seq<u8>) -> int {
    v[0] * 6 + v[1] * 5 + v[2] * 4 + v[3] * 3 + v[4] * 2 + v[5] * 9 + v[6] * 8 + v[7] * 7 + v[8]
        * 6 + v[9] * 5 + v[10] * 4 + v[11] * 3 + v[12] * 2
}

/// A CNPJ digit string is valid when it has exactly 14 digits, not all
/// identical, and both check digits match the modulo-11 formula.
pub open spec fn spec_cnpj_valid(d: Seq<u8>) -> bool {
    let v = spec_digit_values(d);
    &&& d.len() == 14
    &&& !spec_all_same(d)
    &&& v[12] == crate::checksum::spec_mod11_check(spec_cnpj_sum1(v) as nat)
    &&& v[13] == crate::checksum::spec_mod11_check(spec_cnpj_sum2(v) as nat)
}

/// Validates a Brazilian CNPJ: extracts the digits of `cnpj` and accepts
/// exactly the valid 14-digit strings as given by [`spec_cnpj_valid`].
#[verifier::rlimit(50)]
pub fn validate_cnpj(cnpj: &str) -> (r: bool)
    ensures
        r == spec_cnpj_valid(spec_digits_of(cnpj.spec_bytes())),
{
    let bytes = cnpj.as_bytes();
    let d = digits_of_bytes(bytes);
    if d.len() != 14 {
        return false;
    }
    if all_same(&d) {
        return false;
    }
    let v = digit_values(bytes);
    proof {
        assert(v@.len() == 14);
    }
    let sum1: u32 = (v[0] as u32) * 5 + (v[1] as u32) * 4 + (v[2] as u32) * 3 + (v[3] as u32) * 2
        + (v[4] as u32) * 9 + (v[5] as u32) * 8 + (v[6] as u32) * 7 + (v[7] as u32) * 6 + (
    v[8] as u32) * 5 + (v[9] as u32) * 4 + (v[10] as u32) * 3 + (v[11] as u32) * 2;
    proof {
        assert(sum1 == spec_cnpj_sum1(v@));
    }
    let check1 = crate::checksum::mod11_check(sum1);
    if (v[12] as u32) != check1 {
        return false;
    }
    let sum2: u32 = (v[0] as u32) * 6 + (v[1] as u32) * 5 + (v[2] as u32) * 4 + (v[3] as u32) * 3
        + (v[4] as u32) * 2 + (v[5] as u32) * 9 + (v[6] as u32) * 8 + (v[7] as u32) * 7 + (
    v[8] as u32) * 6 + (v[9] as u32) * 5 + (v[10] as u32) * 4 + (v[11] as u32) * 3 + (
    v[12] as u32) * 2;
    proof {
        assert(sum2 == spec_cnpj_sum2(v@));
    }
    let check2 = crate::checksum::mod11_check(sum2);
    (v[13] as u32) == check2
}

/// Validates a Brazilian CEP: exactly 8 digits after extraction.
pub fn validate_cep(cep: &str) -> (r: bool)
    ensures
        r == (spec_digits_of(cep.spec_bytes()).len() == 8),
{
    let d = digits_of_bytes(cep.as_bytes());
    d.len() == 8
}

/// A Brazilian phone digit string is valid with 10 digits (landline), with
/// 11 digits whose third digit is at least 6 (mobile prefix), or with 13
/// digits starting in the country code 55.
pub open spec fn spec_phone_valid(d: Seq<u8>) -> bool {
    if d.len() == 10 {
        true
    } else if d.len() == 11 {
        d[2] >= 0x36
    } else if d.len() == 13 {
        d[0] == 0x35 && d[1] == 0x35
    } else {
        false
    }
}

/// Validates a Brazilian phone number over its extracted digits, as given by
/// [`spec_phone_valid`].
pub fn validate_brazilian_phone(phone: &str) -> (r: bool)
    ensures
        r == spec_phone_valid(spec_digits_of(phone.spec_bytes())),
{
    let d = digits_of_bytes(phone.as_bytes());
    if d.len() == 10 {
        true
    } else if d.len() == 11 {
        d[2] >= 0x36
    } else if d.len() == 13 {
        d[0] == 0x35 && d[1] == 0x35
    } else {
        false
    }
}

/// The display form of a CPF digit string: `XXX.XXX.XXX-XX`.
pub open spec fn spec_fmt_cpf(d: Seq<u8>) -> Seq<u8> {
    d.subrange(0, 3) + seq![0x2Eu8] + d.subrange(3, 6) + seq![0x2Eu8] + d.subrange(6, 9) + seq![
        0x2Du8,
    ] + d.subrange(9, 11)
}

/// The display form of a CNPJ digit string: `XX.XXX.XXX/XXXX-XX`.
pub open spec fn spec_fmt_cnpj(d: Seq<u8>) -> Seq<u8> {
    d.subrange(0, 2) + seq![0x2Eu8] + d.subrange(2, 5) + seq![0x2Eu8] + d.subrange(5, 8) + seq![
        0x2Fu8,
    ] + d.subrange(8, 12) + seq![0x2Du8] + d.subrange(12, 14)
}

/// The display form of a CEP digit string: `XXXXX-XXX`.
pub open spec fn spec_fmt_cep(d: Seq<u8>) -> Seq<u8> {
    d.subrange(0, 5) + seq![0x2Du8] + d.subrange(5, 8)
}

/// The display form of a 10-digit landline: `(XX) XXXX-XXXX`.
pub open spec fn spec_fmt_phone10(d: Seq<u8>) -> Seq<u8> {
    seq![0x28u8] + d.subrange(0, 2) + seq![0x29u8, 0x20u8] + d.subrange(2, 6) + seq![0x2Du8]
        + d.subrange(6, 10)
}

/// The display form of an 11-digit mobile number: `(XX) X XXXX-XXXX`.
pub open spec fn spec_fmt_phone11(d: Seq<u8>) -> Seq<u8> {
    seq![0x28u8] + d.subrange(0, 2) + seq![0x29u8, 0x20u8] + d.subrange(2, 3) + seq![0x20u8]
        + d.subrange(3, 7) + seq![0x2Du8] + d.subrange(7, 11)
}

/// The display form of a 13-digit number with country code:
/// `+XX (XX) X XXXX-XXXX`.
pub open spec fn spec_fmt_phone13(d: Seq<u8>) -> Seq<u8> {
    seq![0x2Bu8] + d.subrange(0, 2) + seq![0x20u8, 0x28u8] + d.subrange(2, 4) + seq![
        0x29u8,
        0x20u8,
    ] + d.subrange(4, 5) + seq![0x20u8] + d.subrange(5, 9) + seq![0x2Du8] + d.subrange(9, 13)
}

/// Appends `d[from..to]` to `out`, keeping the buffer ASCII when the
/// digits are.
fn push_digit_range(out: &mut Vec<u8>, d: &Vec<u8>, from: usize, to: usize)
    requires
        from <= to <= d@.len(),
        crate::text::spec_all_ascii(old(out)@),
        forall|i: int| 0 <= i < d@.len() ==> spec_is_digit(#[trigger] d@[i]),
    ensures
        final(out)@ =~= old(out)@ + d@.subrange(from as int, to as int),
        crate::text::spec_all_ascii(final(out)@),
{
    let mut j = from;
    while j < to
        invariant
            from <= j <= to <= d@.len(),
            forall|i: int| 0 <= i < d@.len() ==> spec_is_digit(#[trigger] d@[i]),
            out@ =~= old(out)@ + d@.subrange(from as int, j as int),
            crate::text::spec_all_ascii(out@),
        decreases to - j,
    {
        let ghost prev = out@;
        out.push(d[j]);
        proof {
            assert(d@.subrange(from as int, j + 1) =~= d@.subrange(from as int, j as int).push(
                d@[j as int],
            ));
            assert forall|i: int| 0 <= i < out@.len() implies #[trigger] out@[i] < 128 by {
                if i < prev.len() {
                    assert(out@[i] == prev[i]);
                } else {
                    assert(out@[i] == d@[j as int]);
                }
            }
        }
        j = j + 1;
    }
}

/// Appends one ASCII separator byte to `out`, keeping the buffer ASCII.
fn push_sep(out: &mut Vec<u8>, b: u8)
    requires
        b < 128,
        crate::text::spec_all_ascii(old(out)@),
    ensures
        final(out)@ =~= old(out)@ + seq![b],
        crate::text::spec_all_ascii(final(out)@),
{
    let ghost prev = out@;
    out.push(b);
    proof {
        assert(out@ =~= prev + seq![b]);
        assert forall|i: int| 0 <= i < out@.len() implies #[trigger] out@[i] < 128 by {
            if i < prev.len() {
                assert(out@[i] == prev[i]);
            } else {
                assert(out@[i] == b);
            }
        }
    }
}

/// Formats a CPF for display as `XXX.XXX.XXX-XX` when exactly 11 digits are
/// present; any other input passes through unchanged.
pub fn format_cpf(cpf: &str) -> (r: String)
    ensures
        spec_digits_of(cpf.spec_bytes()).len() == 11 ==> r@ =~= spec_ascii_chars(
            spec_fmt_cpf(spec_digits_of(cpf.spec_bytes())),
        ),
        spec_digits_of(cpf.spec_bytes()).len() != 11 ==> r@ == cpf@,
{
    let d = digits_of_bytes(cpf.as_bytes());
    if d.len() != 11 {
        return cpf.to_owned();
    }
    let mut buf: Vec<u8> = Vec::new();
    push_digit_range(&mut buf, &d, 0, 3);
    push_sep(&mut buf, 0x2E);
    push_digit_range(&mut buf, &d, 3, 6);
    push_sep(&mut buf, 0x2E);
    push_digit_range(&mut buf, &d, 6, 9);
    push_sep(&mut buf, 0x2D);
    push_digit_range(&mut buf, &d, 9, 11);
    proof {
        assert(buf@ =~= spec_fmt_cpf(d@));
    }
    crate::text::ascii_string(&buf)
}

/// Formats a CNPJ for display as `XX.XXX.XXX/XXXX-XX` when exactly 14 digits
/// are present; any other input passes through unchanged.
pub fn format_cnpj(cnpj: &str) -> (r: String)
    ensures
        spec_digits_of(cnpj.spec_bytes()).len() == 14 ==> r@ =~= spec_ascii_chars(
            spec_fmt_cnpj(spec_digits_of(cnpj.spec_bytes())),
        ),
        spec_digits_of(cnpj.spec_bytes()).len() != 14 ==> r@ == cnpj@,
{
    let d = digits_of_bytes(cnpj.as_bytes());
    if d.len() != 14 {
        return cnpj.to_owned();
    }
    let mut buf: Vec<u8> = Vec::new();
    push_digit_range(&mut buf, &d, 0, 2);
    push_sep(&mut buf, 0x2E);
    push_digit_range(&mut buf, &d, 2, 5);
    push_sep(&mut buf, 0x2E);
    push_digit_range(&mut buf, &d, 5, 8);
    push_sep(&mut buf, 0x2F);
    push_digit_range(&mut buf, &d, 8, 12);
    push_sep(&mut buf, 0x2D);
    push_digit_range(&mut buf, &d, 12, 14);
    proof {
        assert(buf@ =~= spec_fmt_cnpj(d@));
    }
    crate::text::ascii_string(&buf)
}

/// Formats a CEP for display as `XXXXX-XXX` when exactly 8 digits are
/// present; any other input passes through unchanged.
pub fn format_cep(cep: &str) -> (r: String)
    ensures
        spec_digits_of(cep.spec_bytes()).len() == 8 ==> r@ =~= spec_ascii_chars(
            spec_fmt_cep(spec_digits_of(cep.spec_bytes())),
        ),
        spec_digits_of(cep.spec_bytes()).len() != 8 ==> r@ == cep@,
{
    let d = digits_of_bytes(cep.as_bytes());
    if d.len() != 8 {
        return cep.to_owned();
    }
    let mut buf: Vec<u8> = Vec::new();
    push_digit_range(&mut buf, &d, 0, 5);
    push_sep(&mut buf, 0x2D);
    push_digit_range(&mut buf, &d, 5, 8);
    proof {
        assert(buf@ =~= spec_fmt_cep(d@));
    }
    crate::text::ascii_string(&buf)
}

/// Formats a Brazilian phone number for display in its 10-, 11- or 13-digit
/// layout; any other digit count passes through unchanged.
pub fn format_brazilian_phone(phone: &str) -> (r: String)
    ensures
        spec_digits_of(phone.spec_bytes()).len() == 10 ==> r@ =~= spec_ascii_chars(
            spec_fmt_phone10(spec_digits_of(phone.spec_bytes())),
        ),
        spec_digits_of(phone.spec_bytes()).len() == 11 ==> r@ =~= spec_ascii_chars(
            spec_fmt_phone11(spec_digits_of(phone.spec_bytes())),
        ),
        spec_digits_of(phone.spec_bytes()).len() == 13 ==> r@ =~= spec_ascii_chars(
            spec_fmt_phone13(spec_digits_of(phone.spec_bytes())),
        ),
        !(spec_digits_of(phone.spec_bytes()).len() == 10 || spec_digits_of(
            phone.spec_bytes(),
        ).len() == 11 || spec_digits_of(phone.spec_bytes()).len() == 13) ==> r@ == phone@,
{
    let d = digits_of_bytes(phone.as_bytes());
    let mut buf: Vec<u8> = Vec::new();
    if d.len() == 10 {
        push_sep(&mut buf, 0x28);
        push_digit_range(&mut buf, &d, 0, 2);
        push_sep(&mut buf, 0x29);
        push_sep(&mut buf, 0x20);
        push_digit_range(&mut buf, &d, 2, 6);
        push_sep(&mut buf, 0x2D);
        push_digit_range(&mut buf, &d, 6, 10);
        proof {
            assert(buf@ =~= spec_fmt_phone10(d@));
        }
        crate::text::ascii_string(&buf)
    } else if d.len() == 11 {
        push_sep(&mut buf, 0x28);
        push_digit_range(&mut buf, &d, 0, 2);
        push_sep(&mut buf, 0x29);
        push_sep(&mut buf, 0x20);
        push_digit_range(&mut buf, &d, 2, 3);
        push_sep(&mut buf, 0x20);
        push_digit_range(&mut buf, &d, 3, 7);
        push_sep(&mut buf, 0x2D);
        push_digit_range(&mut buf, &d, 7, 11);
        proof {
            assert(buf@ =~= spec_fmt_phone11(d@));
        }
        crate::text::ascii_string(&buf)
    } else if d.len() == 13 {
        push_sep(&mut buf, 0x2B);
        push_digit_range(&mut buf, &d, 0, 2);
        push_sep(&mut buf, 0x20);
        push_sep(&mut buf, 0x28);
        push_digit_range(&mut buf, &d, 2, 4);
        push_sep(&mut buf, 0x29);
        push_sep(&mut buf, 0x20);
        push_digit_range(&mut buf, &d, 4, 5);
        push_sep(&mut buf, 0x20);
        push_digit_range(&mut buf, &d, 5, 9);
        push_sep(&mut buf, 0x2D);
        push_digit_range(&mut buf, &d, 9, 13);
        proof {
            assert(buf@ =~= spec_fmt_phone13(d@));
        }
        crate::text::ascii_string(&buf)
    } else {
        phone.to_owned()
    }
}

/// Strips all formatting from a document string, keeping only its digits.
pub fn strip_formatting(s: &str) -> (r: String)
    ensures
        r@ =~= spec_ascii_chars(spec_digits_of(s.spec_bytes())),
{
    let d = digits_of_bytes(s.as_bytes());
    crate::text::ascii_string(&d)
}

/// The permissive email shape the chain validator applies: at least five
/// bytes, exactly one `@` which is neither first nor last, and at least one
/// dot somewhere. The stricter per-byte pattern is [`spec_email_pattern`],
/// checked by [`validate_email`].
pub open spec fn spec_email_valid(b: Seq<u8>) -> bool {
    &&& b.len() >= 5
    &&& spec_count_byte(b, 0x40) == 1
    &&& b[0] != 0x40
    &&& b[b.len() - 1] != 0x40
    &&& exists|i: int| 0 <= i < b.len() && b[i] == 0x2E
}

/// How many times `target` occurs in `b`.
pub open spec fn spec_count_byte(b: Seq<u8>, target: u8) -> nat
    decreases b.len(),
{
    if b.len() == 0 {
        0
    } else {
        spec_count_byte(b.drop_last(), target) + (if b.last() == target {
            1nat
        } else {
            0nat
        })
    }
}

/// Validates an email address shape as given by [`spec_email_valid`].
pub fn is_valid_email(email: &str) -> (r: bool)
    ensures
        r == spec_email_valid(email.spec_bytes()),
{
    let b = email.as_bytes();
    let len = b.len();
    if len < 5 {
        return false;
    }
    let mut ats: u64 = 0;
    let mut has_dot = false;
    let mut i: usize = 0;
    while i < len
        invariant
            i <= len,
            len == b@.len(),
            ats == spec_count_byte(b@.take(i as int), 0x40),
            ats <= i,
            has_dot == exists|k: int| 0 <= k < i && b@[k] == 0x2E,
        decreases len - i,
    {
        proof {
            assert(b@.take(i + 1).drop_last() =~= b@.take(i as int));
            assert(b@.take(i + 1).last() == b@[i as int]);
        }
        if b[i] == 0x40 {
            ats = ats + 1;
        }
        if b[i] == 0x2E {
            has_dot = true;
        }
        i = i + 1;
    }
    proof {
        assert(b@.take(len as int) =~= b@);
    }
    ats == 1 && has_dot && b[0] != 0x40 && b[len - 1] != 0x40
}

/// An ASCII letter.
pub open spec fn spec_is_alpha(b: u8) -> bool {
    (0x41 <= b <= 0x5A) || (0x61 <= b <= 0x7A)
}

/// A byte admitted in the local part of a strict email address: a letter, a
/// digit, or one of `.` `_` `%` `+` `-`.
pub open spec fn spec_is_local_byte(b: u8) -> bool {
    spec_is_alpha(b) || spec_is_digit(b) || b == 0x2E || b == 0x5F || b == 0x25 || b == 0x2B || b
        == 0x2D
}

/// A byte admitted in the domain of a strict email address: a letter, a
/// digit, a dot or a dash.
pub open spec fn spec_is_domain_byte(b: u8) -> bool {
    spec_is_alpha(b) || spec_is_digit(b) || b == 0x2E || b == 0x2D
}

/// One decomposition of `b` as a strict email: local bytes up to the `@` at
/// `i`, domain bytes up to the final dot at `k`, and at least two letters
/// after it.
pub open spec fn spec_email_split(b: Seq<u8>, i: int, k: int) -> bool {
    &&& 1 <= i
    &&& i + 2 <= k
    &&& k + 3 <= b.len()
    &&& b[i] == 0x40
    &&& b[k] == 0x2E
    &&& (forall|j: int| 0 <= j < i ==> spec_is_local_byte(#[trigger] b[j]))
    &&& (forall|j: int| i < j < k ==> spec_is_domain_byte(#[trigger] b[j]))
    &&& (forall|j: int| k < j < b.len() ==> spec_is_alpha(#[trigger] b[j]))
}

/// The strict email shape: one or more local bytes, an `@`, a non-empty
/// domain, a dot, and a top-level label of at least two letters.
pub open spec fn spec_email_pattern(b: Seq<u8>) -> bool {
    exists|i: int, k: int| spec_email_split(b, i, k)
}

/// Validates an email address against the strict pattern of
/// [`spec_email_pattern`]: `local@domain.tld` with the byte classes above.
pub fn validate_email(email: &str) -> (r: bool)
    ensures
        r == spec_email_pattern(email.spec_bytes()),
{
    let b = email.as_bytes();
    let ghost bv = email.spec_bytes();
    let len = b.len();
    // The local and domain classes exclude `@`, so any match puts its `@` at
    // the first `@` of the string.
    let mut i: usize = 0;
    while i < len && b[i] != 0x40
        invariant
            bv == email.spec_bytes(),
            i <= len,
            len == bv.len(),
            b@ == bv,
            forall|j: int| 0 <= j < i ==> #[trigger] bv[j] != 0x40,
        decreases len - i,
    {
        i = i + 1;
    }
    if i == len {
        proof {
            assert forall|i2: int, k2: int| !spec_email_split(bv, i2, k2) by {
                if spec_email_split(bv, i2, k2) {
                    assert(0 <= i2 < bv.len() && bv[i2] == 0x40);
                }
            }
        }
        return false;
    }
    if i == 0 {
        proof {
            assert forall|i2: int, k2: int| !spec_email_split(bv, i2, k2) by {
                if spec_email_split(bv, i2, k2) {
                    assert(spec_is_local_byte(bv[0]));
                    assert(bv[0] == 0x40);
                }
            }
        }
        return false;
    }
    // Check the local part.
    let mut j: usize = 0;
    while j < i
        invariant
            bv == email.spec_bytes(),
            j <= i < len,
            len == bv.len(),
            b@ == bv,
            bv[i as int] == 0x40,
            forall|m: int| 0 <= m < i ==> #[trigger] bv[m] != 0x40,
            forall|m: int| 0 <= m < j ==> spec_is_local_byte(#[trigger] bv[m]),
        decreases i - j,
    {
        let c = b[j];
        let local_ok = (c >= 0x41 && c <= 0x5A) || (c >= 0x61 && c <= 0x7A) || (c >= 0x30 && c
            <= 0x39) || c == 0x2E || c == 0x5F || c == 0x25 || c == 0x2B || c == 0x2D;
        if !local_ok {
            proof {
                assert forall|i2: int, k2: int| !spec_email_split(bv, i2, k2) by {
                    if spec_email_split(bv, i2, k2) {
                        lemma_email_at_unique(bv, i as int, i2, k2);
                        assert(spec_is_local_byte(bv[j as int]));
                    }
                }
            }
            return false;
        }
        j = j + 1;
    }
    // Find the last dot after the `@`: every byte past a matching dot is a
    // letter, so a match's dot is the last one.
    let mut t: usize = i + 1;
    let mut last_dot: usize = 0;
    let mut has_dot = false;
    while t < len
        invariant
            bv == email.spec_bytes(),
            i < t <= len,
            i < len,
            len == bv.len(),
            b@ == bv,
            has_dot ==> (i < last_dot < t && bv[last_dot as int] == 0x2E && forall|m: int|
                last_dot < m < t ==> #[trigger] bv[m] != 0x2E),
            !has_dot ==> forall|m: int| i < m < t ==> #[trigger] bv[m] != 0x2E,
        decreases len - t,
    {
        if b[t] == 0x2E {
            last_dot = t;
            has_dot = true;
        }
        t = t + 1;
    }
    if !has_dot {
        proof {
            assert forall|i2: int, k2: int| !spec_email_split(bv, i2, k2) by {
                if spec_email_split(bv, i2, k2) {
                    lemma_email_at_unique(bv, i as int, i2, k2);
                    assert(i < k2 < bv.len() && bv[k2] == 0x2E);
                }
            }
        }
        return false;
    }
    let k = last_dot;
    proof {
        assert forall|i2: int, k2: int|
            spec_email_split(bv, i2, k2) implies i2 == i as int && k2 == k as int by {
            lemma_email_at_unique(bv, i as int, i2, k2);
            assert(bv[k2] == 0x2E && i < k2 < bv.len());
            if k2 < k as int {
                assert(spec_is_alpha(bv[k as int]));
                assert(bv[k as int] == 0x2E);
            }
            if k2 > k as int {
                assert(bv[k2] != 0x2E);
            }
        }
    }
    if k < i + 2 || len - k < 3 {
        proof {
            assert forall|i2: int, k2: int| !spec_email_split(bv, i2, k2) by {
                if spec_email_split(bv, i2, k2) {
                    assert(i2 == i as int && k2 == k as int);
                }
            }
        }
        return false;
    }
    // Check the domain part between the `@` and the final dot.
    let mut m: usize = i + 1;
    while m < k
        invariant
            bv == email.spec_bytes(),
            i < m <= k < len,
            len == bv.len(),
            b@ == bv,
            forall|i2: int, k2: int|
                spec_email_split(bv, i2, k2) ==> i2 == i as int && k2 == k as int,
            forall|x: int| i < x < m ==> spec_is_domain_byte(#[trigger] bv[x]),
        decreases k - m,
    {
        let c = b[m];
        let domain_ok = (c >= 0x41 && c <= 0x5A) || (c >= 0x61 && c <= 0x7A) || (c >= 0x30 && c
            <= 0x39) || c == 0x2E || c == 0x2D;
        if !domain_ok {
            proof {
                assert forall|i2: int, k2: int| !spec_email_split(bv, i2, k2) by {
                    if spec_email_split(bv, i2, k2) {
                        assert(spec_is_domain_byte(bv[m as int]));
                    }
                }
            }
            return false;
        }
        m = m + 1;
    }
    // Check the top-level label: letters only.
    let mut a: usize = k + 1;
    while a < len
        invariant
            bv == email.spec_bytes(),
            k < a <= len,
            k < len,
            len == bv.len(),
            b@ == bv,
            forall|i2: int, k2: int|
                spec_email_split(bv, i2, k2) ==> i2 == i as int && k2 == k as int,
            forall|x: int| k < x < a ==> spec_is_alpha(#[trigger] bv[x]),
        decreases len - a,
    {
        let c = b[a];
        let alpha_ok = (c >= 0x41 && c <= 0x5A) || (c >= 0x61 && c <= 0x7A);
        if !alpha_ok {
            proof {
                assert forall|i2: int, k2: int| !spec_email_split(bv, i2, k2) by {
                    if spec_email_split(bv, i2, k2) {
                        assert(spec_is_alpha(bv[a as int]));
                    }
                }
            }
            return false;
        }
        a = a + 1;
    }
    proof {
        assert(spec_email_split(bv, i as int, k as int));
    }
    true
}

/// In any strict-email decomposition the `@` sits at the string's first `@`.
proof fn lemma_email_at_unique(b: Seq<u8>, first_at: int, i2: int, k2: int)
    requires
        spec_email_split(b, i2, k2),
        0 <= first_at < b.len(),
        b[first_at] == 0x40,
        forall|j: int| 0 <= j < first_at ==> #[trigger] b[j] != 0x40,
    ensures
        i2 == first_at,
{
    if i2 < first_at {
        assert(b[i2] != 0x40);
    }
    if i2 > first_at {
        if first_at < i2 {
            assert(spec_is_local_byte(b[first_at]));
        }
    }
}

/// The kinds of document this kernel validates and formats.
#[derive(Clone, Copy, Debug, PartialEq, Eq, Hash, Structural)]
pub enum DocumentKind {
    Cpf,
    Cnpj,
    Cep,
    Phone,
}

/// What a document string of each kind must satisfy.
pub open spec fn spec_document_valid(kind: DocumentKind, d: Seq<u8>) -> bool {
    match kind {
        DocumentKind::Cpf => spec_cpf_valid(d),
        DocumentKind::Cnpj => spec_cnpj_valid(d),
        DocumentKind::Cep => d.len() == 8,
        DocumentKind::Phone => spec_phone_valid(d),
    }
}

/// Validates a document of the given kind over its extracted digits.
pub fn validate_document(kind: DocumentKind, s: &str) -> (r: bool)
    ensures
        r == spec_document_valid(kind, spec_digits_of(s.spec_bytes())),
{
    match kind {
        DocumentKind::Cpf => validate_cpf(s),
        DocumentKind::Cnpj => validate_cnpj(s),
        DocumentKind::Cep => validate_cep(s),
        DocumentKind::Phone => validate_brazilian_phone(s),
    }
}

/// Formats a document of the given kind for display; inputs with the wrong
/// digit count pass through unchanged.
pub fn format_document(kind: DocumentKind, s: &str) -> (r: String)
    ensures
        ({
            let d = spec_digits_of(s.spec_bytes());
            match kind {
                DocumentKind::Cpf => if d.len() == 11 {
                    r@ =~= spec_ascii_chars(spec_fmt_cpf(d))
                } else {
                    r@ == s@
                },
                DocumentKind::Cnpj => if d.len() == 14 {
                    r@ =~= spec_ascii_chars(spec_fmt_cnpj(d))
                } else {
                    r@ == s@
                },
                DocumentKind::Cep => if d.len() == 8 {
                    r@ =~= spec_ascii_chars(spec_fmt_cep(d))
                } else {
                    r@ == s@
                },
                DocumentKind::Phone => if d.len() == 10 {
                    r@ =~= spec_ascii_chars(spec_fmt_phone10(d))
                } else if d.len() == 11 {
                    r@ =~= spec_ascii_chars(spec_fmt_phone11(d))
                } else if d.len() == 13 {
                    r@ =~= spec_ascii_chars(spec_fmt_phone13(d))
                } else {
                    r@ == s@
                },
            }
        }),
{
    match kind {
        DocumentKind::Cpf => format_cpf(s),
        DocumentKind::Cnpj => format_cnpj(s),
        DocumentKind::Cep => format_cep(s),
        DocumentKind::Phone => format_brazilian_phone(s),
    }
}

/// A CPF digit string with all-identical digits is never valid, and for
/// every other well-formed candidate outside the published placeholder,
/// validity is exactly the agreement of the last two digits with the two
/// computed modulo-11 check digits.
pub proof fn lemma_cpf_acceptance(d: Seq<u8>)
    requires
        d.len() == 11,
        forall|i: int| 0 <= i < d.len() ==> spec_is_digit(#[trigger] d[i]),
    ensures
        spec_all_same(d) ==> !spec_cpf_valid(d),
        !spec_all_same(d) && !spec_known_invalid_cpf(d) ==> (spec_cpf_valid(d) <==> {
            let v = spec_digit_values(d);
            v[9] == crate::checksum::spec_mod11_check(spec_cpf_sum1(v) as nat) && v[10]
                == crate::checksum::spec_mod11_check(spec_cpf_sum2(v) as nat)
        }),
{
}

/// Digit extraction distributes over concatenation.
pub proof fn lemma_digits_of_concat(a: Seq<u8>, b: Seq<u8>)
    ensures
        spec_digits_of(a + b) =~= spec_digits_of(a) + spec_digits_of(b),
    decreases b.len(),
{
    if b.len() == 0 {
        assert(a + b =~= a);
    } else {
        lemma_digits_of_concat(a, b.drop_last());
        assert((a + b).drop_last() =~= a + b.drop_last());
        assert((a + b).last() == b.last());
    }
}

/// Digit extraction leaves a pure digit string unchanged.
pub proof fn lemma_digits_of_digits(d: Seq<u8>)
    requires
        forall|i: int| 0 <= i < d.len() ==> spec_is_digit(#[trigger] d[i]),
    ensures
        spec_digits_of(d) =~= d,
    decreases d.len(),
{
    if d.len() > 0 {
        lemma_digits_of_digits(d.drop_last());
    }
}

/// Formatting a valid 11-digit string and stripping the formatting again
/// yields the very digit string back: `strip ∘ format` is the identity on
/// 11-digit inputs.
pub proof fn lemma_cpf_format_strip_roundtrip(d: Seq<u8>)
    requires
        d.len() == 11,
        forall|i: int| 0 <= i < d.len() ==> spec_is_digit(#[trigger] d[i]),
    ensures
        spec_digits_of(spec_fmt_cpf(d)) =~= d,
{
    let dot = seq![0x2Eu8];
    let dash = seq![0x2Du8];
    let p1 = d.subrange(0, 3);
    let p2 = d.subrange(3, 6);
    let p3 = d.subrange(6, 9);
    let p4 = d.subrange(9, 11);
    lemma_digits_of_concat(p1 + dot + p2 + dot + p3 + dash, p4);
    lemma_digits_of_concat(p1 + dot + p2 + dot + p3, dash);
    lemma_digits_of_concat(p1 + dot + p2 + dot, p3);
    lemma_digits_of_concat(p1 + dot + p2, dot);
    lemma_digits_of_concat(p1 + dot, p2);
    lemma_digits_of_concat(p1, dot);
    lemma_digits_of_digits(p1);
    lemma_digits_of_digits(p2);
    lemma_digits_of_digits(p3);
    lemma_digits_of_digits(p4);
    assert(dot.drop_last() =~= Seq::<u8>::empty());
    assert(dash.drop_last() =~= Seq::<u8>::empty());
    assert(spec_digits_of(Seq::<u8>::empty()) =~= Seq::<u8>::empty());
    assert(spec_digits_of(dot) =~= Seq::<u8>::empty());
    assert(spec_digits_of(dash) =~= Seq::<u8>::empty());
    assert(spec_digits_of(spec_fmt_cpf(d)) =~= p1 + p2 + p3 + p4);
    assert(p1 + p2 + p3 + p4 =~= d);
}

} // verus!
