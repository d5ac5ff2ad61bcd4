//! Exact fixed-point money values.
//!
//! A [`Money`] carries an amount of Brazilian reais as an integer count of
//! millionths of a real (micros). Six fractional digits make every product of
//! a two-decimal amount with a four-decimal tax or zone rate exact, so no
//! binary floating point is ever needed.

use vstd::prelude::*;
use vstd::string::*;

verus! {

/// Micros per whole real.
pub const MICROS_PER_REAL: i64 = 1_000_000;

/// Micros per centavo (hundredth of a real).
pub const MICROS_PER_CENT: i64 = 10_000;

/// A monetary amount with fixed-point semantics: `micros` millionths of one
/// Brazilian real. Negative values stand for signed ledger deltas.
#[derive(Clone, Copy, Debug, PartialEq, Eq, Structural)]
pub struct Money {
    pub micros: i64,
}

impl Money {
    /// The zero amount.
    pub fn zero() -> (r: Money)
        ensures
            r.micros == 0,
    {
        Money { micros: 0 }
    }

    /// Amount given in centavos (hundredths of a real).
    pub fn from_cents(cents: i64) -> (r: Money)
        requires
            cents * MICROS_PER_CENT <= i64::MAX,
            cents * MICROS_PER_CENT >= i64::MIN,
        ensures
            r.micros == cents * MICROS_PER_CENT,
    {
        Money { micros: cents * MICROS_PER_CENT }
    }

    /// Amount given in whole reais.
    pub fn from_reais(reais: i64) -> (r: Money)
        requires
            reais * MICROS_PER_REAL <= i64::MAX,
            reais * MICROS_PER_REAL >= i64::MIN,
        ensures
            r.micros == reais * MICROS_PER_REAL,
    {
        Money { micros: reais * MICROS_PER_REAL }
    }

    /// Exact sum of two amounts.
    pub fn plus(self, other: Money) -> (r: Money)
        requires
            self.micros + other.micros <= i64::MAX,
            self.micros + other.micros >= i64::MIN,
        ensures
            r.micros == self.micros + other.micros,
    {
        Money { micros: self.micros + other.micros }
    }

    /// Exact difference of two amounts.
    pub fn minus(self, other: Money) -> (r: Money)
        requires
            self.micros - other.micros <= i64::MAX,
            self.micros - other.micros >= i64::MIN,
        ensures
            r.micros == self.micros - other.micros,
    {
        Money { micros: self.micros - other.micros }
    }

    /// Applies a rate given in basis points of a percent-of-one: `bp` of
    /// 10,000 parts. The quotient is truncated toward zero; for non-negative
    /// amounts whose fraction stops at the centavo and rates of at most four
    /// decimal digits the result is exact.
    pub fn times_rate_bp(self, bp: u32) -> (r: Money)
        requires
            self.micros >= 0,
            bp <= 10_000,
        ensures
            r.micros == (self.micros * bp) / 10_000,
            0 <= r.micros <= self.micros,
    {
        proof {
            assert(self.micros * bp <= i64::MAX * 10_000) by (nonlinear_arith)
                requires
                    0 <= self.micros <= i64::MAX,
                    bp <= 10_000,
            ;
            assert(self.micros * bp >= 0) by (nonlinear_arith)
                requires
                    self.micros >= 0,
                    bp >= 0,
            ;
        }
        let wide: i128 = (self.micros as i128) * (bp as i128);
        let q: i128 = wide / 10_000;
        proof {
            assert(q <= self.micros) by (nonlinear_arith)
                requires
                    self.micros >= 0,
                    bp <= 10_000,
                    wide == self.micros * bp,
                    q == wide / 10_000,
            ;
            assert(q >= 0);
        }
        Money { micros: q as i64 }
    }

    /// True when this amount is strictly smaller than `other`.
    pub fn lt(self, other: Money) -> (r: bool)
        ensures
            r == (self.micros < other.micros),
    {
        self.micros < other.micros
    }

    /// True when this amount is at most `other`.
    pub fn le(self, other: Money) -> (r: bool)
        ensures
            r == (self.micros <= other.micros),
    {
        self.micros <= other.micros
    }

    /// True for amounts at or below zero.
    pub fn is_non_positive(self) -> (r: bool)
        ensures
            r == (self.micros <= 0),
    {
        self.micros <= 0
    }
}

/// Digit groups of an integer rendering, separated by `.` every three digits
/// from the right: `1234` becomes `1.234`.
pub open spec fn spec_grouped(d: Seq<u8>) -> Seq<u8>
    decreases d.len(),
{
    if d.len() <= 3 {
        d
    } else {
        spec_grouped(d.take(d.len() - 3)) + seq![0x2Eu8] + d.skip(d.len() - 3)
    }
}

/// The Brazilian display rendering of a non-negative amount truncated to the
/// centavo: `R$ `, the grouped integer digits, a comma, and exactly two
/// fraction digits.
pub open spec fn spec_format_brl(micros: int) -> Seq<u8> {
    let cents = micros / (MICROS_PER_CENT as int);
    seq![0x52u8, 0x24u8, 0x20u8] + spec_grouped(crate::text::spec_dec_digits((cents / 100) as nat))
        + seq![0x2Cu8] + crate::text::spec_dec_padded((cents % 100) as nat, 2)
}

/// The plain machine rendering of a non-negative amount truncated to the
/// centavo: integer digits, a dot, and exactly two fraction digits.
pub open spec fn spec_plain_amount(micros: int) -> Seq<u8> {
    let cents = micros / (MICROS_PER_CENT as int);
    crate::text::spec_dec_digits((cents / 100) as nat) + seq![0x2Eu8]
        + crate::text::spec_dec_padded((cents % 100) as nat, 2)
}

/// Groups the first `end` digit bytes of `d` in threes from the right,
/// inserting `.` separators.
fn group_thousands(d: &Vec<u8>, end: usize) -> (r: Vec<u8>)
    requires
        end <= d@.len(),
        forall|i: int| 0 <= i < d@.len() ==> crate::documents::spec_is_digit(#[trigger] d@[i]),
    ensures
        r@ =~= spec_grouped(d@.take(end as int)),
        crate::text::spec_all_ascii(r@),
    decreases end,
{
    let mut out: Vec<u8> = Vec::new();
    if end <= 3 {
        let mut j: usize = 0;
        while j < end
            invariant
                j <= end <= d@.len(),
                forall|i: int| 0 <= i < d@.len() ==> crate::documents::spec_is_digit(
                    #[trigger] d@[i],
                ),
                out@ =~= d@.subrange(0, j as int),
                crate::text::spec_all_ascii(out@),
            decreases end - j,
        {
            let ghost prev = out@;
            out.push(d[j]);
            proof {
                assert(out@ =~= d@.subrange(0, j + 1));
                assert forall|i: int| 0 <= i < out@.len() implies #[trigger] out@[i] < 128 by {
                    assert(out@[i] == d@[i]);
                }
            }
            j = j + 1;
        }
        proof {
            assert(d@.subrange(0, end as int) =~= d@.take(end as int));
        }
    } else {
        out = group_thousands(d, end - 3);
        let ghost head = out@;
        out.push(0x2E);
        let mut j: usize = end - 3;
        while j < end
            invariant
                3 < end,
                end - 3 <= j <= end <= d@.len(),
                forall|i: int| 0 <= i < d@.len() ==> crate::documents::spec_is_digit(
                    #[trigger] d@[i],
                ),
                out@ =~= head + seq![0x2Eu8] + d@.subrange(end - 3, j as int),
                crate::text::spec_all_ascii(out@),
            decreases end - j,
        {
            let ghost prev = out@;
            out.push(d[j]);
            proof {
                let ghost from0: int = end as int - 3;
                assert(d@.subrange(from0, j + 1) =~= d@.subrange(from0, j as int) + seq![
                    d@[j as int],
                ]);
                assert(out@ =~= head + seq![0x2Eu8] + d@.subrange(end - 3, j + 1));
                assert forall|i: int| 0 <= i < out@.len() implies #[trigger] out@[i] < 128 by {
                    if i < prev.len() {
                        assert(out@[i] == prev[i]);
                    } else {
                        assert(out@[i] == d@[j as int]);
                    }
                }
            }
            j = j + 1;
        }
        proof {
            assert(d@.take(end as int).take(end - 3) =~= d@.take(end - 3));
            assert(d@.take(end as int).skip(end - 3) =~= d@.subrange(end - 3, end as int));
        }
    }
    out
}

impl Money {
    /// Renders a non-negative amount in the Brazilian display format
    /// `R$ 1.234,56`: thousands separated by `.`, two fraction digits after
    /// a `,`, fractions beyond the centavo truncated.
    pub fn format_brl(self) -> (r: String)
        requires
            self.micros >= 0,
        ensures
            r@ =~= crate::documents::spec_ascii_chars(spec_format_brl(self.micros as int)),
    {
        let cents = self.micros / MICROS_PER_CENT;
        let int_part = (cents / 100) as u64;
        let frac = (cents % 100) as u64;
        let mut digits: Vec<u8> = Vec::new();
        crate::text::push_dec(&mut digits, int_part);
        proof {
            crate::text::lemma_dec_digits_are_digits(int_part as nat);
        }
        let n = digits.len();
        let mut buf = group_thousands(&digits, n);
        let grouped: Ghost<Seq<u8>> = Ghost(buf@);
        buf.push(0x2C);
        let ghost before_frac = buf@;
        crate::text::push_dec_padded(&mut buf, frac, 2);
        proof {
            crate::text::lemma_dec_padded_are_digits(frac as nat, 2);
            assert(digits@.take(n as int) =~= digits@);
            assert(buf@ =~= grouped@ + seq![0x2Cu8] + crate::text::spec_dec_padded(
                frac as nat,
                2,
            ));
            assert forall|i: int| 0 <= i < buf@.len() implies #[trigger] buf@[i] < 128 by {
                if i < grouped@.len() {
                    assert(buf@[i] == grouped@[i]);
                } else if i == grouped@.len() {
                    assert(buf@[i] == 0x2C);
                } else {
                    assert(buf@[i] == crate::text::spec_dec_padded(frac as nat, 2)[i - grouped@.len()
                        - 1]);
                }
            }
        }
        let mut full: Vec<u8> = Vec::new();
        full.push(0x52);
        full.push(0x24);
        full.push(0x20);
        crate::text::push_bytes(&mut full, buf.as_slice());
        proof {
            assert(full@ =~= seq![0x52u8, 0x24u8, 0x20u8] + buf@);
            assert(full@ =~= spec_format_brl(self.micros as int));
            assert forall|i: int| 0 <= i < full@.len() implies #[trigger] full@[i] < 128 by {
                if i >= 3 {
                    assert(full@[i] == buf@[i - 3]);
                }
            }
        }
        crate::text::ascii_string(&full)
    }

    /// Parses an amount in the Brazilian display format, inverting
    /// [`Self::format_brl`]: currency marks, spaces and thousands dots are
    /// discarded, the decimal comma becomes a dot, and the remainder must be
    /// an optionally signed decimal number of at most six fraction digits
    /// whose value fits this fixed-point type.
    pub fn parse_brl(s: &str) -> (r: Result<Money, crate::errors::PaymentError>)
        ensures
            ({
                let c = spec_clean_brl(s.spec_bytes());
                if spec_amount_shape(c) && i64::MIN <= spec_amount_micros(c) <= i64::MAX {
                    r matches Ok(m) && m.micros == spec_amount_micros(c)
                } else {
                    r matches Err(e) && e == crate::errors::PaymentError::InvalidAmount
                }
            }),
    {
        let c = clean_brl(s.as_bytes());
        parse_amount(&c)
    }

    /// Renders a non-negative amount as plain digits with a dot and two
    /// fraction digits, `1234.56`, as a payload amount field expects.
    pub fn plain_amount(self) -> (r: Vec<u8>)
        requires
            self.micros >= 0,
        ensures
            r@ =~= spec_plain_amount(self.micros as int),
            crate::text::spec_all_ascii(r@),
    {
        let cents = self.micros / MICROS_PER_CENT;
        let int_part = (cents / 100) as u64;
        let frac = (cents % 100) as u64;
        let mut buf: Vec<u8> = Vec::new();
        crate::text::push_dec(&mut buf, int_part);
        let ghost ints = buf@;
        buf.push(0x2E);
        crate::text::push_dec_padded(&mut buf, frac, 2);
        proof {
            crate::text::lemma_dec_digits_are_digits(int_part as nat);
            crate::text::lemma_dec_padded_are_digits(frac as nat, 2);
            assert(buf@ =~= ints + seq![0x2Eu8] + crate::text::spec_dec_padded(frac as nat, 2));
            assert forall|i: int| 0 <= i < buf@.len() implies #[trigger] buf@[i] < 128 by {
                if i < ints.len() {
                    assert(buf@[i] == ints[i]);
                } else if i == ints.len() {
                    assert(buf@[i] == 0x2E);
                } else {
                    assert(buf@[i] == crate::text::spec_dec_padded(frac as nat, 2)[i - ints.len()
                        - 1]);
                }
            }
        }
        buf
    }
}

/// The cleaning step of BRL parsing: every `R$` pair and every space and
/// thousands dot is dropped, the decimal comma becomes a dot, all other
/// bytes stay.
pub open spec fn spec_clean_brl(s: Seq<u8>) -> Seq<u8>
    decreases s.len(),
{
    if s.len() == 0 {
        Seq::empty()
    } else if s.len() >= 2 && s[0] == 0x52 && s[1] == 0x24 {
        spec_clean_brl(s.skip(2))
    } else if s[0] == 0x20 || s[0] == 0x2E {
        spec_clean_brl(s.skip(1))
    } else if s[0] == 0x2C {
        seq![0x2Eu8] + spec_clean_brl(s.skip(1))
    } else {
        seq![s[0]] + spec_clean_brl(s.skip(1))
    }
}

/// Applies the BRL cleaning step to a byte string.
fn clean_brl(s: &[u8]) -> (r: Vec<u8>)
    ensures
        r@ =~= spec_clean_brl(s@),
{
    let len = s.len();
    let mut out: Vec<u8> = Vec::new();
    let mut i: usize = 0;
    proof {
        assert(s@.skip(0) =~= s@);
    }
    while i < len
        invariant
            i <= len,
            len == s@.len(),
            spec_clean_brl(s@) =~= out@ + spec_clean_brl(s@.skip(i as int)),
        decreases len - i,
    {
        proof {
            assert(s@.skip(i as int)[0] == s@[i as int]);
            assert(s@.skip(i as int).skip(1) =~= s@.skip(i + 1));
            if i + 1 < len {
                assert(s@.skip(i as int)[1] == s@[i + 1]);
                assert(s@.skip(i as int).skip(2) =~= s@.skip(i + 2));
            }
        }
        if s[i] == 0x52 && i + 1 < len && s[i + 1] == 0x24 {
            i = i + 2;
        } else if s[i] == 0x20 || s[i] == 0x2E {
            i = i + 1;
        } else if s[i] == 0x2C {
            out.push(0x2E);
            i = i + 1;
        } else {
            out.push(s[i]);
            i = i + 1;
        }
    }
    proof {
        assert(s@.skip(len as int) =~= Seq::<u8>::empty());
        assert(spec_clean_brl(Seq::<u8>::empty()) =~= Seq::<u8>::empty());
        assert(out@ + Seq::<u8>::empty() =~= out@);
    }
    out
}

/// Every byte of `d` is an ASCII digit.
pub open spec fn spec_all_digits(d: Seq<u8>) -> bool {
    forall|i: int| 0 <= i < d.len() ==> crate::documents::spec_is_digit(#[trigger] d[i])
}

/// The numeric value of a string of ASCII digit bytes.
pub open spec fn spec_digits_val(d: Seq<u8>) -> int
    decreases d.len(),
{
    if d.len() == 0 {
        0
    } else {
        spec_digits_val(d.drop_last()) * 10 + (d.last() - 0x30)
    }
}

/// Ten to the `n`.
pub open spec fn spec_pow10(n: nat) -> int
    decreases n,
{
    if n == 0 {
        1
    } else {
        10 * spec_pow10((n - 1) as nat)
    }
}

/// The index of the first dot of `c`, or its length when no dot occurs.
pub open spec fn spec_first_dot(c: Seq<u8>) -> int
    decreases c.len(),
{
    if c.len() == 0 {
        0
    } else if c[0] == 0x2E {
        0
    } else {
        1 + spec_first_dot(c.drop_first())
    }
}

/// The digits-and-dot part of a cleaned amount: the sign, if any, removed.
pub open spec fn spec_amount_body(c: Seq<u8>) -> Seq<u8> {
    if c.len() > 0 && (c[0] == 0x2B || c[0] == 0x2D) {
        c.drop_first()
    } else {
        c
    }
}

/// A cleaned amount is negative when it starts with a minus sign.
pub open spec fn spec_amount_neg(c: Seq<u8>) -> bool {
    c.len() > 0 && c[0] == 0x2D
}

/// A cleaned amount is well shaped when, after the optional sign, at least
/// one integer digit comes first, and a dot, if present, is followed by one
/// to six fraction digits and nothing else.
pub open spec fn spec_amount_shape(c: Seq<u8>) -> bool {
    let b = spec_amount_body(c);
    let k = spec_first_dot(b);
    &&& k >= 1
    &&& spec_all_digits(b.take(k))
    &&& (k == b.len() || (1 <= b.len() - k - 1 <= 6 && spec_all_digits(b.skip(k + 1))))
}

/// The value in micros of a well-shaped cleaned amount: the integer digits
/// scaled by a million, plus the fraction digits scaled to the sixth place,
/// negated under a minus sign.
pub open spec fn spec_amount_micros(c: Seq<u8>) -> int {
    let b = spec_amount_body(c);
    let k = spec_first_dot(b);
    let intv = spec_digits_val(b.take(k));
    let frv = if k == b.len() {
        0int
    } else {
        spec_digits_val(b.skip(k + 1)) * spec_pow10((6 - (b.len() - k - 1)) as nat)
    };
    let v = intv * 1_000_000 + frv;
    if spec_amount_neg(c) {
        -v
    } else {
        v
    }
}

/// The first-dot index is within bounds, lands on a dot when inside, and
/// nothing before it is a dot.
proof fn lemma_first_dot(c: Seq<u8>)
    ensures
        0 <= spec_first_dot(c) <= c.len(),
        spec_first_dot(c) < c.len() ==> c[spec_first_dot(c)] == 0x2E,
        forall|i: int| 0 <= i < spec_first_dot(c) ==> #[trigger] c[i] != 0x2E,
    decreases c.len(),
{
    if c.len() > 0 && c[0] != 0x2E {
        lemma_first_dot(c.drop_first());
        assert forall|i: int| 0 <= i < spec_first_dot(c) implies #[trigger] c[i] != 0x2E by {
            if i > 0 {
                assert(c[i] == c.drop_first()[i - 1]);
            }
        }
    }
}

/// The value of a digit string is non-negative.
proof fn lemma_digits_val_nonneg(d: Seq<u8>)
    requires
        spec_all_digits(d),
    ensures
        spec_digits_val(d) >= 0,
    decreases d.len(),
{
    if d.len() > 0 {
        lemma_digits_val_nonneg(d.drop_last());
        assert(spec_digits_val(d.drop_last()) * 10 >= 0) by (nonlinear_arith)
            requires
                spec_digits_val(d.drop_last()) >= 0,
        ;
    }
}

/// Appending digits never shrinks the value: a prefix is worth at most the
/// whole string.
proof fn lemma_digits_val_prefix(d: Seq<u8>, j: int)
    requires
        spec_all_digits(d),
        0 <= j <= d.len(),
    ensures
        spec_digits_val(d.take(j)) <= spec_digits_val(d),
    decreases d.len(),
{
    if j < d.len() {
        assert(spec_all_digits(d.drop_last()));
        assert(d.drop_last().take(j) =~= d.take(j));
        lemma_digits_val_prefix(d.drop_last(), j);
        lemma_digits_val_nonneg(d.drop_last());
        assert(spec_digits_val(d.drop_last()) * 10 >= spec_digits_val(d.drop_last()))
            by (nonlinear_arith)
            requires
                spec_digits_val(d.drop_last()) >= 0,
        ;
    } else {
        assert(d.take(j) =~= d);
    }
}

/// Exact powers of ten up to the sixth, for fraction scaling.
fn pow10_small(n: usize) -> (r: i64)
    requires
        n <= 6,
    ensures
        r == spec_pow10(n as nat),
        1 <= r <= 1_000_000,
{
    let table: [i64; 7] = [1, 10, 100, 1_000, 10_000, 100_000, 1_000_000];
    proof {
        assert(spec_pow10(0) == 1);
        assert(spec_pow10(1) == 10);
        assert(spec_pow10(2) == 100);
        assert(spec_pow10(3) == 1_000);
        assert(spec_pow10(4) == 10_000);
        assert(spec_pow10(5) == 100_000);
        assert(spec_pow10(6) == 1_000_000);
    }
    table[n]
}

/// Parses a cleaned amount byte string into micros, as
/// [`spec_amount_shape`] and [`spec_amount_micros`] describe.
#[verifier::rlimit(100)]
fn parse_amount(c: &Vec<u8>) -> (r: Result<Money, crate::errors::PaymentError>)
    ensures
        ({
            if spec_amount_shape(c@) && i64::MIN <= spec_amount_micros(c@) <= i64::MAX {
                r matches Ok(m) && m.micros == spec_amount_micros(c@)
            } else {
                r matches Err(e) && e == crate::errors::PaymentError::InvalidAmount
            }
        }),
{
    let len = c.len();
    let ghost b = spec_amount_body(c@);
    let mut start: usize = 0;
    let mut neg = false;
    if len > 0 && (c[0] == 0x2B || c[0] == 0x2D) {
        neg = c[0] == 0x2D;
        start = 1;
    }
    proof {
        assert(b =~= c@.skip(start as int));
        assert(neg == spec_amount_neg(c@));
        lemma_first_dot(b);
    }
    // Find the first dot at or after `start`.
    let mut k: usize = start;
    while k < len && c[k] != 0x2E
        invariant
            start <= k <= len,
            len == c@.len(),
            b =~= c@.skip(start as int),
            spec_first_dot(b) == (k - start) + spec_first_dot(c@.skip(k as int)),
            forall|i: int| start <= i < k ==> #[trigger] c@[i] != 0x2E,
        decreases len - k,
    {
        proof {
            assert(c@.skip(k as int)[0] == c@[k as int]);
            assert(c@.skip(k as int).drop_first() =~= c@.skip(k + 1));
        }
        k = k + 1;
    }
    proof {
        if k == len {
            assert(c@.skip(k as int) =~= Seq::<u8>::empty());
            assert(spec_first_dot(b) == b.len());
        } else {
            assert(c@.skip(k as int)[0] == c@[k as int]);
            assert(spec_first_dot(c@.skip(k as int)) == 0);
            assert(spec_first_dot(b) == k - start);
        }
    }
    let ghost kk = spec_first_dot(b);
    if k == start {
        // Empty input, leading dot, or sign directly followed by a dot or
        // the end: no integer digit.
        return Err(crate::errors::PaymentError::InvalidAmount);
    }
    // Integer digits: verify and accumulate, rejecting early once the value
    // can no longer fit (more digits only grow it).
    let mut intv: i128 = 0;
    let mut j: usize = start;
    while j < k
        invariant
            start <= j <= k <= len,
            len == c@.len(),
            b == spec_amount_body(c@),
            b =~= c@.skip(start as int),
            neg == spec_amount_neg(c@),
            kk == spec_first_dot(b),
            kk == k - start,
            kk <= b.len(),
            spec_all_digits(b.take(j - start)),
            intv == spec_digits_val(b.take(j - start)),
            0 <= intv <= 200_000_000_000_000_000,
        decreases k - j,
    {
        let d = c[j];
        if !(d >= 0x30 && d <= 0x39) {
            proof {
                assert(b.take(kk)[j - start] == c@[j as int]);
                assert(!spec_all_digits(b.take(kk)));
            }
            return Err(crate::errors::PaymentError::InvalidAmount);
        }
        if intv > 10_000_000_000_000_000 {
            // Even without the remaining digits the amount exceeds the
            // representable range.
            proof {
                lemma_digits_val_monotone_reject(b, j - start, kk, neg, c@);
            }
            return Err(crate::errors::PaymentError::InvalidAmount);
        }
        proof {
            assert(b.take(j + 1 - start).drop_last() =~= b.take(j - start));
            assert(b.take(j + 1 - start).last() == c@[j as int]);
        }
        intv = intv * 10 + ((d - 0x30) as i128);
        j = j + 1;
    }
    proof {
        assert(b.take(kk) =~= b.take(k - start));
    }
    // Fraction digits, when a dot is present.
    let mut frv: i128 = 0;
    if k < len {
        let fl = len - k - 1;
        if fl < 1 || fl > 6 {
            return Err(crate::errors::PaymentError::InvalidAmount);
        }
        let ghost frac = b.skip(kk + 1);
        proof {
            assert(b.skip(kk + 1) =~= c@.skip(k + 1));
        }
        let mut fv: i64 = 0;
        let mut t: usize = k + 1;
        while t < len
            invariant
                k + 1 <= t <= len,
                len == c@.len(),
                b == spec_amount_body(c@),
                b =~= c@.skip(start as int),
                neg == spec_amount_neg(c@),
                kk == spec_first_dot(b),
                kk == k - start,
                kk < b.len(),
                frac == b.skip(kk + 1),
                frac =~= c@.skip(k + 1),
                frac.len() == len - k - 1 <= 6,
                spec_all_digits(frac.take(t - k - 1)),
                fv == spec_digits_val(frac.take(t - k - 1)),
                0 <= fv < 1_000_000,
            decreases len - t,
        {
            let d = c[t];
            if !(d >= 0x30 && d <= 0x39) {
                proof {
                    assert(frac[t - k - 1] == c@[t as int]);
                    assert(!spec_all_digits(frac));
                }
                return Err(crate::errors::PaymentError::InvalidAmount);
            }
            proof {
                assert(frac.take(t - k).drop_last() =~= frac.take(t - k - 1));
                assert(frac.take(t - k).last() == c@[t as int]);
                assert(fv * 10 + (d - 0x30) < 10_000_000) by (nonlinear_arith)
                    requires
                        0 <= fv < 1_000_000,
                        0x30 <= d <= 0x39,
                ;
                assert forall|x: int| 0 <= x < t - k implies crate::documents::spec_is_digit(
                    #[trigger] frac.take(t - k)[x],
                ) by {
                    if x < t - k - 1 {
                        assert(frac.take(t - k)[x] == frac.take(t - k - 1)[x]);
                    } else {
                        assert(frac.take(t - k)[x] == c@[t as int]);
                    }
                }
                lemma_frac_bound(frac, t - k);
            }
            fv = fv * 10 + ((d - 0x30) as i64);
            t = t + 1;
        }
        proof {
            assert(frac.take(len - k - 1) =~= frac);
        }
        let scale = pow10_small(6 - fl);
        proof {
            assert(fv * scale == spec_digits_val(frac) * spec_pow10((6 - (b.len() - kk
                - 1)) as nat));
            assert(0 <= fv * scale <= 1_000_000_000_000) by (nonlinear_arith)
                requires
                    0 <= fv < 1_000_000,
                    1 <= scale <= 1_000_000,
            ;
        }
        frv = (fv as i128) * (scale as i128);
    }
    // Combine, negate, and range-check.
    proof {
        assert(intv * 1_000_000 <= 200_000_000_000_000_000_000_000) by (nonlinear_arith)
            requires
                0 <= intv <= 200_000_000_000_000_000,
        ;
        assert(intv * 1_000_000 >= 0) by (nonlinear_arith)
            requires
                intv >= 0,
        ;
    }
    let total: i128 = intv * 1_000_000 + frv;
    let signed: i128 = if neg {
        -total
    } else {
        total
    };
    proof {
        assert(spec_amount_shape(c@));
        assert(signed == spec_amount_micros(c@));
    }
    if signed > i64::MAX as i128 || signed < i64::MIN as i128 {
        return Err(crate::errors::PaymentError::InvalidAmount);
    }
    Ok(Money { micros: signed as i64 })
}

/// Once an integer-digit prefix already exceeds the guard, the final amount
/// lies outside the representable range whatever the remaining digits and
/// the fraction are.
proof fn lemma_digits_val_monotone_reject(b: Seq<u8>, j: int, kk: int, neg: bool, c: Seq<u8>)
    requires
        0 <= j <= kk <= b.len(),
        spec_all_digits(b.take(j)),
        spec_digits_val(b.take(j)) > 10_000_000_000_000_000,
        kk == spec_first_dot(b),
        b == spec_amount_body(c),
        neg == spec_amount_neg(c),
    ensures
        spec_amount_shape(c) ==> !(i64::MIN <= spec_amount_micros(c) <= i64::MAX),
{
    if spec_amount_shape(c) {
        let intseq = b.take(kk);
        assert(intseq.take(j) =~= b.take(j));
        lemma_digits_val_prefix(intseq, j);
        let intv = spec_digits_val(intseq);
        assert(intv > 10_000_000_000_000_000);
        let frv = if kk == b.len() {
            0int
        } else {
            spec_digits_val(b.skip(kk + 1)) * spec_pow10((6 - (b.len() - kk - 1)) as nat)
        };
        if kk < b.len() {
            lemma_digits_val_nonneg(b.skip(kk + 1));
            lemma_pow10_pos((6 - (b.len() - kk - 1)) as nat);
            assert(frv >= 0) by (nonlinear_arith)
                requires
                    spec_digits_val(b.skip(kk + 1)) >= 0,
                    spec_pow10((6 - (b.len() - kk - 1)) as nat) >= 1,
                    frv == spec_digits_val(b.skip(kk + 1)) * spec_pow10(
                        (6 - (b.len() - kk - 1)) as nat,
                    ),
            ;
        }
        assert(intv * 1_000_000 > 10_000_000_000_000_000_000_000) by (nonlinear_arith)
            requires
                intv > 10_000_000_000_000_000,
        ;
    }
}

/// Ten to any power is positive.
proof fn lemma_pow10_pos(n: nat)
    ensures
        spec_pow10(n) >= 1,
    decreases n,
{
    if n > 0 {
        lemma_pow10_pos((n - 1) as nat);
    }
}

/// A strict prefix of a short fraction keeps its value under the bound.
proof fn lemma_frac_bound(frac: Seq<u8>, upto: int)
    requires
        spec_all_digits(frac.take(upto)),
        0 <= upto <= frac.len() <= 6,
    ensures
        spec_digits_val(frac.take(upto)) < 1_000_000,
    decreases upto,
{
    if upto == 0 {
        assert(frac.take(0) =~= Seq::<u8>::empty());
    } else {
        assert(frac.take(upto).drop_last() =~= frac.take(upto - 1));
        assert(spec_all_digits(frac.take(upto - 1)));
        lemma_frac_bound_aux(frac, upto);
    }
}

/// The value of `upto` digits is below ten to the `upto`.
proof fn lemma_frac_bound_aux(frac: Seq<u8>, upto: int)
    requires
        spec_all_digits(frac.take(upto)),
        0 <= upto <= frac.len() <= 6,
    ensures
        spec_digits_val(frac.take(upto)) < spec_pow10(upto as nat),
        spec_pow10(upto as nat) <= 1_000_000,
    decreases upto,
{
    if upto == 0 {
        assert(frac.take(0) =~= Seq::<u8>::empty());
    } else {
        assert(frac.take(upto).drop_last() =~= frac.take(upto - 1));
        assert(spec_all_digits(frac.take(upto - 1)));
        lemma_frac_bound_aux(frac, upto - 1);
        let prev = spec_digits_val(frac.take(upto - 1));
        let dig = frac.take(upto).last() - 0x30;
        assert(prev * 10 + dig < 10 * spec_pow10((upto - 1) as nat)) by (nonlinear_arith)
            requires
                prev < spec_pow10((upto - 1) as nat),
                0 <= dig <= 9,
                prev >= 0 || true,
        ;
        assert(spec_pow10(upto as nat) == 10 * spec_pow10((upto - 1) as nat));
        lemma_pow10_chain(upto as nat);
    }
}

/// Powers of ten up to the sixth stay at or below one million.
proof fn lemma_pow10_chain(n: nat)
    requires
        n <= 6,
    ensures
        spec_pow10(n) <= 1_000_000,
{
    assert(spec_pow10(0) == 1);
    assert(spec_pow10(1) == 10);
    assert(spec_pow10(2) == 100);
    assert(spec_pow10(3) == 1_000);
    assert(spec_pow10(4) == 10_000);
    assert(spec_pow10(5) == 100_000);
    assert(spec_pow10(6) == 1_000_000);
}

/// Every byte of `g` is an ASCII digit or a thousands dot.
pub open spec fn spec_digits_or_dots(g: Seq<u8>) -> bool {
    forall|i: int|
        0 <= i < g.len() ==> (crate::documents::spec_is_digit(#[trigger] g[i]) || g[i] == 0x2E)
}

/// Cleaning a digits-and-dots block followed by anything keeps exactly the
/// digits of the block and then cleans the rest.
proof fn lemma_clean_digits_dots(g: Seq<u8>, t: Seq<u8>)
    requires
        spec_digits_or_dots(g),
    ensures
        spec_clean_brl(g + t) =~= crate::documents::spec_digits_of(g) + spec_clean_brl(t),
    decreases g.len(),
{
    if g.len() == 0 {
        assert(g + t =~= t);
        assert(crate::documents::spec_digits_of(g) =~= Seq::<u8>::empty());
    } else {
        let b = g[0];
        let g2 = g.drop_first();
        assert(spec_digits_or_dots(g2)) by {
            assert forall|i: int|
                0 <= i < g2.len() implies (crate::documents::spec_is_digit(#[trigger] g2[i])
                || g2[i] == 0x2E) by {
                assert(g2[i] == g[i + 1]);
            }
        }
        lemma_clean_digits_dots(g2, t);
        assert((g + t)[0] == b);
        assert((g + t).skip(1) =~= g2 + t);
        crate::documents::lemma_digits_of_concat(seq![b], g2);
        assert(seq![b] + g2 =~= g);
        assert(seq![b].drop_last() =~= Seq::<u8>::empty());
        assert(crate::documents::spec_digits_of(Seq::<u8>::empty()) =~= Seq::<u8>::empty());
        if b == 0x2E {
            assert(crate::documents::spec_digits_of(seq![b]) =~= Seq::<u8>::empty());
            assert(spec_clean_brl(g + t) =~= spec_clean_brl(g2 + t));
        } else {
            assert(crate::documents::spec_is_digit(b));
            assert(b != 0x52 && b != 0x24 && b != 0x20 && b != 0x2C);
            assert(crate::documents::spec_digits_of(seq![b]) =~= seq![b]);
            assert(spec_clean_brl(g + t) =~= seq![b] + spec_clean_brl(g2 + t));
        }
    }
}

/// The digit groups of an all-digit string hold only digits and dots, and
/// dropping the dots gives the digits back.
proof fn lemma_grouped_bytes(d: Seq<u8>)
    requires
        forall|i: int| 0 <= i < d.len() ==> crate::documents::spec_is_digit(#[trigger] d[i]),
    ensures
        spec_digits_or_dots(spec_grouped(d)),
        crate::documents::spec_digits_of(spec_grouped(d)) =~= d,
    decreases d.len(),
{
    crate::documents::lemma_digits_of_digits(d);
    if d.len() > 3 {
        let head = d.take(d.len() - 3);
        let tail = d.skip(d.len() - 3);
        assert(forall|i: int|
            0 <= i < head.len() ==> crate::documents::spec_is_digit(#[trigger] head[i]));
        lemma_grouped_bytes(head);
        let g = spec_grouped(d);
        let gh = spec_grouped(head);
        assert(g =~= gh + seq![0x2Eu8] + tail);
        assert forall|i: int|
            0 <= i < g.len() implies (crate::documents::spec_is_digit(#[trigger] g[i]) || g[i]
            == 0x2E) by {
            if i < gh.len() {
                assert(g[i] == gh[i]);
            } else if i == gh.len() {
                assert(g[i] == 0x2E);
            } else {
                assert(g[i] == tail[i - gh.len() - 1]);
                assert(tail[i - gh.len() - 1] == d[d.len() - 3 + (i - gh.len() - 1)]);
            }
        }
        crate::documents::lemma_digits_of_concat(gh + seq![0x2Eu8], tail);
        crate::documents::lemma_digits_of_concat(gh, seq![0x2Eu8]);
        assert(seq![0x2Eu8].drop_last() =~= Seq::<u8>::empty());
        assert(crate::documents::spec_digits_of(Seq::<u8>::empty()) =~= Seq::<u8>::empty());
        assert(crate::documents::spec_digits_of(seq![0x2Eu8]) =~= Seq::<u8>::empty());
        assert(forall|i: int|
            0 <= i < tail.len() ==> crate::documents::spec_is_digit(#[trigger] tail[i]));
        crate::documents::lemma_digits_of_digits(tail);
        assert(crate::documents::spec_digits_of(g) =~= head + tail);
        assert(head + tail =~= d);
    }
}

/// The first dot of an all-digit block followed by a dot sits right after
/// the block.
proof fn lemma_first_dot_after_digits(d: Seq<u8>, rest: Seq<u8>)
    requires
        forall|i: int| 0 <= i < d.len() ==> crate::documents::spec_is_digit(#[trigger] d[i]),
        rest.len() > 0,
        rest[0] == 0x2E,
    ensures
        spec_first_dot(d + rest) == d.len(),
    decreases d.len(),
{
    if d.len() == 0 {
        assert(d + rest =~= rest);
    } else {
        let d2 = d.drop_first();
        assert(forall|i: int|
            0 <= i < d2.len() ==> crate::documents::spec_is_digit(#[trigger] d2[i]));
        lemma_first_dot_after_digits(d2, rest);
        assert((d + rest)[0] == d[0]);
        assert(d[0] != 0x2E);
        assert((d + rest).drop_first() =~= d2 + rest);
    }
}

/// The numeric value of the shortest decimal rendering is the number itself.
proof fn lemma_digits_val_of_dec(n: nat)
    ensures
        spec_digits_val(crate::text::spec_dec_digits(n)) == n,
    decreases n,
{
    if n < 10 {
        assert(crate::text::spec_dec_digits(n) =~= seq![(0x30 + n) as u8]);
        assert(seq![(0x30 + n) as u8].drop_last() =~= Seq::<u8>::empty());
        assert(spec_digits_val(Seq::<u8>::empty()) == 0);
        assert(spec_digits_val(seq![(0x30 + n) as u8]) == ((0x30 + n) as u8) - 0x30);
    } else {
        lemma_digits_val_of_dec(n / 10);
        let head = crate::text::spec_dec_digits(n / 10);
        let s = crate::text::spec_dec_digits(n);
        assert(s =~= head + seq![(0x30 + n % 10) as u8]);
        assert(s.drop_last() =~= head);
        assert(s.last() == (0x30 + n % 10) as u8);
    }
}

/// Parsing inverts formatting: cleaning and reading back a formatted
/// amount succeeds and returns the amount truncated to the centavo.
pub proof fn lemma_parse_inverts_format(micros: int)
    requires
        0 <= micros <= i64::MAX,
    ensures
        ({
            let c = spec_clean_brl(spec_format_brl(micros));
            &&& spec_amount_shape(c)
            &&& spec_amount_micros(c) == (micros / (MICROS_PER_CENT as int)) * (
            MICROS_PER_CENT as int)
        }),
{
    let cents = micros / (MICROS_PER_CENT as int);
    let ip = cents / 100;
    let fr = cents % 100;
    let d = crate::text::spec_dec_digits(ip as nat);
    let g = spec_grouped(d);
    let f2 = crate::text::spec_dec_padded(fr as nat, 2);
    let s = spec_format_brl(micros);
    crate::text::lemma_dec_digits_are_digits(ip as nat);
    crate::text::lemma_dec_padded_are_digits(fr as nat, 2);
    lemma_grouped_bytes(d);
    // Clean the currency mark and the space away.
    let tail1 = g + seq![0x2Cu8] + f2;
    assert(s =~= seq![0x52u8, 0x24u8, 0x20u8] + tail1);
    assert(spec_clean_brl(s) =~= spec_clean_brl(seq![0x20u8] + tail1)) by {
        assert(s[0] == 0x52 && s[1] == 0x24);
        assert(s.skip(2) =~= seq![0x20u8] + tail1);
    }
    assert(spec_clean_brl(seq![0x20u8] + tail1) =~= spec_clean_brl(tail1)) by {
        assert((seq![0x20u8] + tail1)[0] == 0x20);
        assert((seq![0x20u8] + tail1).skip(1) =~= tail1);
    }
    // Clean the grouped digits: thousands dots drop, digits stay.
    assert(tail1 =~= g + (seq![0x2Cu8] + f2));
    lemma_clean_digits_dots(g, seq![0x2Cu8] + f2);
    // The comma becomes the decimal dot; the two fraction digits stay.
    assert(spec_clean_brl(seq![0x2Cu8] + f2) =~= seq![0x2Eu8] + spec_clean_brl(f2)) by {
        assert((seq![0x2Cu8] + f2)[0] == 0x2C);
        assert((seq![0x2Cu8] + f2).skip(1) =~= f2);
    }
    lemma_clean_digits_dots(f2, Seq::<u8>::empty());
    assert(f2 + Seq::<u8>::empty() =~= f2);
    crate::documents::lemma_digits_of_digits(f2);
    assert(spec_clean_brl(Seq::<u8>::empty()) =~= Seq::<u8>::empty());
    assert(spec_clean_brl(f2) =~= f2);
    let c = spec_clean_brl(s);
    assert(c =~= d + (seq![0x2Eu8] + f2));
    // Shape: one or more integer digits, the dot, two fraction digits.
    assert(d.len() >= 1) by {
        if ip < 10 {
        } else {
        }
    }
    assert(c[0] == d[0]);
    assert(crate::documents::spec_is_digit(d[0]));
    assert(c[0] != 0x2B && c[0] != 0x2D);
    assert(spec_amount_body(c) == c);
    assert(!spec_amount_neg(c));
    lemma_first_dot_after_digits(d, seq![0x2Eu8] + f2);
    let k = spec_first_dot(c);
    assert(k == d.len());
    assert(c.take(k) =~= d);
    assert(c.skip(k + 1) =~= f2);
    assert(spec_all_digits(d));
    assert(spec_all_digits(f2));
    assert(f2.len() == 2);
    assert(spec_amount_shape(c));
    // Value: the integer digits scaled by a million plus the fraction
    // scaled to the sixth place give the centavo-truncated amount.
    lemma_digits_val_of_dec(ip as nat);
    assert(spec_digits_val(c.take(k)) == ip);
    assert(spec_digits_val(f2) == fr) by {
        assert(f2 =~= crate::text::spec_dec_padded((fr as nat) / 10, 1) + seq![
            (0x30 + (fr as nat) % 10) as u8,
        ]);
        assert(crate::text::spec_dec_padded((fr as nat) / 10, 1)
            =~= crate::text::spec_dec_padded(((fr as nat) / 10) / 10, 0) + seq![
            (0x30 + ((fr as nat) / 10) % 10) as u8,
        ]);
        assert(crate::text::spec_dec_padded(((fr as nat) / 10) / 10, 0) =~= Seq::<u8>::empty());
        let tens = crate::text::spec_dec_padded((fr as nat) / 10, 1);
        assert(tens =~= seq![(0x30 + ((fr as nat) / 10) % 10) as u8]);
        assert(tens.drop_last() =~= Seq::<u8>::empty());
        assert(spec_digits_val(Seq::<u8>::empty()) == 0);
        assert(tens.last() == (0x30 + ((fr as nat) / 10) % 10) as u8);
        assert(spec_digits_val(tens) == ((fr as nat) / 10) % 10);
        assert(f2.drop_last() =~= tens);
        assert(f2.last() == (0x30 + (fr as nat) % 10) as u8);
        assert(spec_digits_val(f2) == (((fr as nat) / 10) % 10) * 10 + (fr as nat) % 10);
        assert(0 <= fr < 100);
        assert((fr / 10) % 10 == fr / 10);
        assert((fr / 10) * 10 + fr % 10 == fr);
    }
    assert(spec_pow10(4) == 10_000) by {
        assert(spec_pow10(0) == 1);
        assert(spec_pow10(1) == 10);
        assert(spec_pow10(2) == 100);
        assert(spec_pow10(3) == 1_000);
    }
    assert(spec_amount_micros(c) == ip * 1_000_000 + fr * 10_000);
    assert(ip * 1_000_000 + fr * 10_000 == cents * 10_000) by (nonlinear_arith)
        requires
            ip == cents / 100,
            fr == cents % 100,
    ;
}

} // verus!
