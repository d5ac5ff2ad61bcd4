//! Structured identifier generation and parsing.
//!
//! Identifiers have a deterministic format and non-deterministic content:
//! `{prefix}-{timestamp}-{random-suffix}` in general, with domain-specific
//! layouts for order numbers, invoice numbers, tracking codes, SKUs and
//! EAN-13 barcodes. Parsing splits on `-` and only checks the segment count
//! and prefix, never temporal plausibility. The formatting core is pure and
//! fully pinned down; the public generators feed it the clock and fresh
//! randomness.

use vstd::prelude::*;
use vstd::string::*;
use crate::documents::spec_ascii_chars;
use crate::external::{ClockReading, spec_clock_reading_wf, clock_now, uuid_simple, random_u32, random_below};
use crate::text::{spec_all_ascii, spec_dec_padded, push_dec_padded, push_dec, ascii_string, push_bytes};

verus! {

/// The timestamp layout `YYYYMMDDHHMMSS` of a clock reading.
pub open spec fn spec_ts14(c: ClockReading) -> Seq<u8> {
    spec_dec_padded(c.year as nat, 4) + spec_dec_padded(c.month as nat, 2) + spec_dec_padded(
        c.day as nat,
        2,
    ) + spec_dec_padded(c.hour as nat, 2) + spec_dec_padded(c.minute as nat, 2) + spec_dec_padded(
        c.second as nat,
        2,
    )
}

/// Appends the fourteen-digit timestamp of a clock reading.
fn push_ts14(out: &mut Vec<u8>, c: &ClockReading)
    ensures
        final(out)@ =~= old(out)@ + spec_ts14(*c),
        spec_all_ascii(old(out)@) ==> spec_all_ascii(final(out)@),
{
    push_dec_padded(out, c.year as u64, 4);
    push_dec_padded(out, c.month as u64, 2);
    push_dec_padded(out, c.day as u64, 2);
    push_dec_padded(out, c.hour as u64, 2);
    push_dec_padded(out, c.minute as u64, 2);
    push_dec_padded(out, c.second as u64, 2);
}

/// The general identifier layout: prefix, timestamp and suffix joined by
/// dashes.
pub open spec fn spec_identifier(prefix: Seq<u8>, c: ClockReading, suffix: Seq<u8>) -> Seq<u8> {
    prefix + seq![0x2Du8] + spec_ts14(c) + seq![0x2Du8] + suffix
}

/// Builds `{prefix}-{timestamp}-{suffix}` from a clock reading and a
/// ready-made suffix.
pub fn format_identifier(prefix: &str, c: &ClockReading, suffix: &Vec<u8>) -> (r: String)
    requires
        prefix.is_ascii(),
        spec_all_ascii(suffix@),
    ensures
        r@ =~= spec_ascii_chars(spec_identifier(prefix.spec_bytes(), *c, suffix@)),
{
    proof {
        crate::pix::lemma_str_bytes_ascii(prefix);
    }
    let mut buf: Vec<u8> = Vec::new();
    push_bytes(&mut buf, prefix.as_bytes());
    buf.push(0x2D);
    proof {
        lemma_push_ascii(buf@, 0x2D);
    }
    push_ts14(&mut buf, c);
    buf.push(0x2D);
    proof {
        lemma_push_ascii(buf@, 0x2D);
    }
    push_bytes(&mut buf, suffix.as_slice());
    proof {
        assert(buf@ =~= spec_identifier(prefix.spec_bytes(), *c, suffix@));
    }
    ascii_string(&buf)
}

/// A buffer stays ASCII after pushing an ASCII byte (stated on the buffer
/// after the push).
proof fn lemma_push_ascii(cur: Seq<u8>, b: u8)
    requires
        b < 128,
        cur.len() > 0,
        cur.last() == b,
        spec_all_ascii(cur.drop_last()),
    ensures
        spec_all_ascii(cur),
{
    assert forall|i: int| 0 <= i < cur.len() implies #[trigger] cur[i] < 128 by {
        if i < cur.len() - 1 {
            assert(cur[i] == cur.drop_last()[i]);
        }
    }
}

/// A fresh identifier `{prefix}-{YYYYMMDDHHMMSS}-{XXXXXXXX}`: the current
/// UTC timestamp and eight uppercase hexadecimal characters of a fresh
/// random token.
pub fn generate_identifier(prefix: &str) -> (r: String)
    requires
        prefix.is_ascii(),
    ensures
        exists|c: ClockReading, suffix: Seq<u8>|
            spec_clock_reading_wf(c) && suffix.len() == 8 && spec_all_ascii(suffix) && r@
                =~= spec_ascii_chars(#[trigger] spec_identifier(prefix.spec_bytes(), c, suffix)),
{
    let c = clock_now();
    let token = uuid_simple();
    let token_str = token.as_str();
    proof {
        crate::pix::lemma_str_bytes_ascii(token_str);
    }
    let upper = crate::text::upper_bytes(token_str.as_bytes());
    let mut suffix: Vec<u8> = Vec::new();
    crate::text::push_prefix(&mut suffix, upper.as_slice(), 8);
    proof {
        assert forall|i: int| 0 <= i < suffix@.len() implies #[trigger] suffix@[i] < 128 by {
            assert(suffix@[i] == upper@[i]);
        }
    }
    let r = format_identifier(prefix, &c, &suffix);
    proof {
        assert(spec_clock_reading_wf(c) && suffix@.len() == 8 && spec_all_ascii(suffix@) && r@
            =~= spec_ascii_chars(spec_identifier(prefix.spec_bytes(), c, suffix@)));
    }
    r
}

/// The bytes of the customer code prefix, `CLI`.
pub open spec fn spec_cli_prefix() -> Seq<u8> {
    seq![0x43u8, 0x4Cu8, 0x49u8]
}

/// A fresh customer code, prefixed `CLI`.
pub fn generate_customer_code() -> (r: String)
    ensures
        exists|c: ClockReading, suffix: Seq<u8>|
            spec_clock_reading_wf(c) && suffix.len() == 8 && spec_all_ascii(suffix) && r@
                =~= spec_ascii_chars(#[trigger] spec_identifier(spec_cli_prefix(), c, suffix)),
{
    proof {
        broadcast use vstd::string::is_ascii_spec_bytes;

        reveal_strlit("CLI");
        assert(vstd::utf8::is_ascii_chars("CLI"@));
    }
    let r = generate_identifier("CLI");
    proof {
        broadcast use vstd::string::is_ascii_spec_bytes;

        reveal_strlit("CLI");
        assert(vstd::utf8::is_ascii_chars("CLI"@));
        assert(vstd::string::is_ascii("CLI"));
        assert("CLI".spec_bytes() =~= spec_cli_prefix());
    }
    r
}

/// The order number layout `PED-YYYYMMDD####`.
pub open spec fn spec_order_number(c: ClockReading, seq4: u32) -> Seq<u8> {
    seq![0x50u8, 0x45u8, 0x44u8, 0x2Du8] + spec_dec_padded(c.year as nat, 4) + spec_dec_padded(
        c.month as nat,
        2,
    ) + spec_dec_padded(c.day as nat, 2) + spec_dec_padded(seq4 as nat, 4)
}

/// Builds an order number from a clock reading and a four-digit sequence
/// number.
pub fn format_order_number(c: &ClockReading, seq4: u32) -> (r: String)
    requires
        seq4 < 10_000,
    ensures
        r@ =~= spec_ascii_chars(spec_order_number(*c, seq4)),
{
    let mut buf: Vec<u8> = Vec::new();
    let head: [u8; 4] = [0x50, 0x45, 0x44, 0x2D];
    push_bytes(&mut buf, head.as_slice());
    proof {
        assert(spec_all_ascii(head@));
    }
    push_dec_padded(&mut buf, c.year as u64, 4);
    push_dec_padded(&mut buf, c.month as u64, 2);
    push_dec_padded(&mut buf, c.day as u64, 2);
    push_dec_padded(&mut buf, seq4 as u64, 4);
    proof {
        assert(buf@ =~= spec_order_number(*c, seq4));
    }
    ascii_string(&buf)
}

/// A fresh order number for today's date with a random four-digit tail.
pub fn generate_order_number() -> (r: String)
    ensures
        exists|c: ClockReading, seq4: u32|
            spec_clock_reading_wf(c) && seq4 < 10_000 && r@ =~= spec_ascii_chars(
                #[trigger] spec_order_number(c, seq4),
            ),
{
    let c = clock_now();
    let seq4 = random_u32() % 10_000;
    format_order_number(&c, seq4)
}

/// The invoice number layout `NF-YYYYMM-######`.
pub open spec fn spec_invoice_number(c: ClockReading, seq6: u32) -> Seq<u8> {
    seq![0x4Eu8, 0x46u8, 0x2Du8] + spec_dec_padded(c.year as nat, 4) + spec_dec_padded(
        c.month as nat,
        2,
    ) + seq![0x2Du8] + spec_dec_padded(seq6 as nat, 6)
}

/// Builds an invoice number from a clock reading and a six-digit sequence
/// number.
pub fn format_invoice_number(c: &ClockReading, seq6: u32) -> (r: String)
    requires
        seq6 < 1_000_000,
    ensures
        r@ =~= spec_ascii_chars(spec_invoice_number(*c, seq6)),
{
    let mut buf: Vec<u8> = Vec::new();
    let head: [u8; 3] = [0x4E, 0x46, 0x2D];
    push_bytes(&mut buf, head.as_slice());
    proof {
        assert(spec_all_ascii(head@));
    }
    push_dec_padded(&mut buf, c.year as u64, 4);
    push_dec_padded(&mut buf, c.month as u64, 2);
    buf.push(0x2D);
    proof {
        lemma_push_ascii(buf@, 0x2D);
    }
    push_dec_padded(&mut buf, seq6 as u64, 6);
    proof {
        assert(buf@ =~= spec_invoice_number(*c, seq6));
    }
    ascii_string(&buf)
}

/// The next sequential slot for an invoice; drawn at random here, where no
/// shared counter exists.
pub fn get_next_sequential() -> (r: u32)
    ensures
        r < 1_000_000,
{
    random_u32() % 1_000_000
}

/// A fresh invoice number for this month.
pub fn generate_invoice_number() -> (r: String)
    ensures
        exists|c: ClockReading, seq6: u32|
            spec_clock_reading_wf(c) && seq6 < 1_000_000 && r@ =~= spec_ascii_chars(
                #[trigger] spec_invoice_number(c, seq6),
            ),
{
    let c = clock_now();
    let seq6 = get_next_sequential();
    format_invoice_number(&c, seq6)
}

/// The 32-symbol tracking alphabet: uppercase letters and digits with the
/// ambiguous I, O, 0 and 1 left out.
pub open spec fn spec_tracking_alphabet() -> Seq<u8> {
    seq![
        0x41u8, 0x42u8, 0x43u8, 0x44u8, 0x45u8, 0x46u8, 0x47u8, 0x48u8, 0x4Au8, 0x4Bu8, 0x4Cu8,
        0x4Du8, 0x4Eu8, 0x50u8, 0x51u8, 0x52u8, 0x53u8, 0x54u8, 0x55u8, 0x56u8, 0x57u8, 0x58u8,
        0x59u8, 0x5Au8, 0x32u8, 0x33u8, 0x34u8, 0x35u8, 0x36u8, 0x37u8, 0x38u8, 0x39u8,
    ]
}

/// One four-symbol chunk of a tracking code.
pub open spec fn spec_tracking_chunk(idx: Seq<u8>, from: int) -> Seq<u8> {
    Seq::new(4, |i: int| spec_tracking_alphabet()[idx[from + i] as int])
}

/// The tracking code layout `BR-XXXX-XXXX-XXXX-XXXX` over sixteen alphabet
/// indices.
pub open spec fn spec_tracking_code(idx: Seq<u8>) -> Seq<u8> {
    seq![0x42u8, 0x52u8, 0x2Du8] + spec_tracking_chunk(idx, 0) + seq![0x2Du8]
        + spec_tracking_chunk(idx, 4) + seq![0x2Du8] + spec_tracking_chunk(idx, 8) + seq![0x2Du8]
        + spec_tracking_chunk(idx, 12)
}

/// Builds a tracking code from sixteen alphabet indices.
pub fn format_tracking_code(idx: &Vec<u8>) -> (r: String)
    requires
        idx@.len() == 16,
        forall|i: int| 0 <= i < 16 ==> #[trigger] idx@[i] < 32,
    ensures
        r@ =~= spec_ascii_chars(spec_tracking_code(idx@)),
{
    let table: [u8; 32] = [
        0x41, 0x42, 0x43, 0x44, 0x45, 0x46, 0x47, 0x48, 0x4A, 0x4B, 0x4C, 0x4D, 0x4E, 0x50, 0x51,
        0x52, 0x53, 0x54, 0x55, 0x56, 0x57, 0x58, 0x59, 0x5A, 0x32, 0x33, 0x34, 0x35, 0x36, 0x37,
        0x38, 0x39,
    ];
    proof {
        assert(table@ =~= spec_tracking_alphabet());
    }
    let mut buf: Vec<u8> = Vec::new();
    let head: [u8; 3] = [0x42, 0x52, 0x2D];
    push_bytes(&mut buf, head.as_slice());
    proof {
        assert(spec_all_ascii(head@));
    }
    let mut chunk: usize = 0;
    while chunk < 4
        invariant
            chunk <= 4,
            idx@.len() == 16,
            forall|i: int| 0 <= i < 16 ==> #[trigger] idx@[i] < 32,
            table@ =~= spec_tracking_alphabet(),
            spec_all_ascii(buf@),
            buf@ =~= seq![0x42u8, 0x52u8, 0x2Du8] + spec_tracking_prefix(idx@, chunk as int),
        decreases 4 - chunk,
    {
        if chunk > 0 {
            buf.push(0x2D);
            proof {
                lemma_push_ascii(buf@, 0x2D);
            }
        }
        let base = chunk * 4;
        let mut j: usize = 0;
        while j < 4
            invariant
                j <= 4,
                base == chunk * 4,
                chunk < 4,
                idx@.len() == 16,
                forall|i: int| 0 <= i < 16 ==> #[trigger] idx@[i] < 32,
                table@ =~= spec_tracking_alphabet(),
                spec_all_ascii(buf@),
                buf@ =~= seq![0x42u8, 0x52u8, 0x2Du8] + spec_tracking_prefix(idx@, chunk as int) + (
                if chunk > 0 {
                    seq![0x2Du8]
                } else {
                    Seq::<u8>::empty()
                }) + Seq::new(j as nat, |i: int| spec_tracking_alphabet()[idx@[base + i] as int]),
            decreases 4 - j,
        {
            let b = table[idx[base + j] as usize];
            buf.push(b);
            proof {
                assert(b == spec_tracking_alphabet()[idx@[base + j as int] as int]);
                assert(b < 128);
                lemma_push_ascii(buf@, b);
                assert(buf@ =~= seq![0x42u8, 0x52u8, 0x2Du8] + spec_tracking_prefix(
                    idx@,
                    chunk as int,
                ) + (if chunk > 0 {
                    seq![0x2Du8]
                } else {
                    Seq::<u8>::empty()
                }) + Seq::new((j + 1) as nat, |i: int| spec_tracking_alphabet()[idx@[base + i] as int]));
            }
            j = j + 1;
        }
        proof {
            assert(Seq::new(4, |i: int| spec_tracking_alphabet()[idx@[base + i] as int])
                =~= spec_tracking_chunk(idx@, chunk as int * 4));
            lemma_tracking_prefix_step(idx@, chunk as int);
            assert(buf@ =~= seq![0x42u8, 0x52u8, 0x2Du8] + spec_tracking_prefix(
                idx@,
                chunk as int + 1,
            ));
        }
        chunk = chunk + 1;
    }
    proof {
        lemma_tracking_prefix_full(idx@);
        assert(buf@ =~= spec_tracking_code(idx@));
    }
    ascii_string(&buf)
}

/// The first `chunks` dash-joined chunks of a tracking code body.
pub open spec fn spec_tracking_prefix(idx: Seq<u8>, chunks: int) -> Seq<u8>
    decreases chunks,
{
    if chunks <= 0 {
        Seq::empty()
    } else if chunks == 1 {
        spec_tracking_chunk(idx, 0)
    } else {
        spec_tracking_prefix(idx, chunks - 1) + seq![0x2Du8] + spec_tracking_chunk(
            idx,
            (chunks - 1) * 4,
        )
    }
}

/// One more chunk extends the prefix by a dash and that chunk.
proof fn lemma_tracking_prefix_step(idx: Seq<u8>, chunk: int)
    requires
        0 <= chunk < 4,
    ensures
        spec_tracking_prefix(idx, chunk + 1) =~= spec_tracking_prefix(idx, chunk) + (if chunk > 0 {
            seq![0x2Du8]
        } else {
            Seq::<u8>::empty()
        }) + spec_tracking_chunk(idx, chunk * 4),
{
}

/// The four-chunk prefix is the whole code body.
proof fn lemma_tracking_prefix_full(idx: Seq<u8>)
    ensures
        seq![0x42u8, 0x52u8, 0x2Du8] + spec_tracking_prefix(idx, 4) =~= spec_tracking_code(idx),
{
    assert(spec_tracking_prefix(idx, 1) =~= spec_tracking_chunk(idx, 0));
    assert(spec_tracking_prefix(idx, 2) =~= spec_tracking_prefix(idx, 1) + seq![0x2Du8]
        + spec_tracking_chunk(idx, 4));
    assert(spec_tracking_prefix(idx, 3) =~= spec_tracking_prefix(idx, 2) + seq![0x2Du8]
        + spec_tracking_chunk(idx, 8));
    assert(spec_tracking_prefix(idx, 4) =~= spec_tracking_prefix(idx, 3) + seq![0x2Du8]
        + spec_tracking_chunk(idx, 12));
}

/// A fresh tracking code of sixteen random alphabet symbols.
pub fn generate_tracking_code() -> (r: String)
    ensures
        exists|idx: Seq<u8>|
            idx.len() == 16 && (forall|i: int| 0 <= i < 16 ==> #[trigger] idx[i] < 32) && r@
                =~= spec_ascii_chars(#[trigger] spec_tracking_code(idx)),
{
    let mut idx: Vec<u8> = Vec::new();
    let mut i: usize = 0;
    while i < 16
        invariant
            i <= 16,
            idx@.len() == i,
            forall|k: int| 0 <= k < i ==> #[trigger] idx@[k] < 32,
        decreases 16 - i,
    {
        idx.push(random_below(32) as u8);
        i = i + 1;
    }
    format_tracking_code(&idx)
}

/// The SKU layout `{CATEGORY}-YYMM#####`.
pub open spec fn spec_sku(category: Seq<u8>, c: ClockReading, seq5: u32) -> Seq<u8> {
    crate::text::spec_upper(category) + seq![0x2Du8] + spec_dec_padded((c.year % 100) as nat, 2)
        + spec_dec_padded(c.month as nat, 2) + spec_dec_padded(seq5 as nat, 5)
}

/// Builds a product SKU from an uppercased category, a clock reading and a
/// five-digit sequence number.
pub fn format_sku(category: &str, c: &ClockReading, seq5: u32) -> (r: String)
    requires
        category.is_ascii(),
        seq5 < 100_000,
    ensures
        r@ =~= spec_ascii_chars(spec_sku(category.spec_bytes(), *c, seq5)),
{
    proof {
        crate::pix::lemma_str_bytes_ascii(category);
    }
    let upper = crate::text::upper_bytes(category.as_bytes());
    let mut buf: Vec<u8> = Vec::new();
    push_bytes(&mut buf, upper.as_slice());
    proof {
        assert forall|i: int| 0 <= i < upper@.len() implies #[trigger] upper@[i] < 128 by {
            assert(upper@[i] == crate::text::spec_upper(category.spec_bytes())[i]);
        }
        assert(spec_all_ascii(buf@));
    }
    buf.push(0x2D);
    proof {
        lemma_push_ascii(buf@, 0x2D);
    }
    push_dec_padded(&mut buf, (c.year % 100) as u64, 2);
    push_dec_padded(&mut buf, c.month as u64, 2);
    push_dec_padded(&mut buf, seq5 as u64, 5);
    proof {
        assert(buf@ =~= spec_sku(category.spec_bytes(), *c, seq5));
    }
    ascii_string(&buf)
}

/// A fresh SKU for a category with this month's stamp and a random tail.
pub fn generate_sku(category: &str) -> (r: String)
    requires
        category.is_ascii(),
    ensures
        exists|c: ClockReading, seq5: u32|
            spec_clock_reading_wf(c) && seq5 < 100_000 && r@ =~= spec_ascii_chars(
                #[trigger] spec_sku(category.spec_bytes(), c, seq5),
            ),
{
    let c = clock_now();
    let seq5 = random_u32() % 65_536;
    format_sku(category, &c, seq5)
}

/// The transaction id layout `TXN-{epoch}-{token12}`.
pub open spec fn spec_transaction_id(epoch: int, token: Seq<u8>) -> Seq<u8> {
    seq![0x54u8, 0x58u8, 0x4Eu8, 0x2Du8] + crate::text::spec_dec_digits(epoch as nat) + seq![
        0x2Du8,
    ] + token
}

/// A fresh transaction id: the epoch second and twelve characters of a
/// fresh random token.
pub fn generate_transaction_id() -> (r: String)
    ensures
        exists|epoch: int, token: Seq<u8>|
            0 <= epoch && token.len() == 12 && spec_all_ascii(token) && r@ =~= spec_ascii_chars(
                #[trigger] spec_transaction_id(epoch, token),
            ),
{
    let c = clock_now();
    let fresh = uuid_simple();
    let fresh_str = fresh.as_str();
    proof {
        crate::pix::lemma_str_bytes_ascii(fresh_str);
    }
    let mut token: Vec<u8> = Vec::new();
    crate::text::push_prefix(&mut token, fresh_str.as_bytes(), 12);
    proof {
        assert forall|i: int| 0 <= i < token@.len() implies #[trigger] token@[i] < 128 by {
            assert(token@[i] == fresh_str.spec_bytes()[i]);
        }
    }
    let mut buf: Vec<u8> = Vec::new();
    let head: [u8; 4] = [0x54, 0x58, 0x4E, 0x2D];
    push_bytes(&mut buf, head.as_slice());
    proof {
        assert(spec_all_ascii(head@));
    }
    // A clock set before 1970 reads as instant zero here; the contract only
    // promises some non-negative epoch.
    let secs: u64 = if c.epoch_secs >= 0 {
        c.epoch_secs as u64
    } else {
        0
    };
    push_dec(&mut buf, secs);
    proof {
        crate::text::lemma_dec_digits_are_digits(secs as nat);
    }
    buf.push(0x2D);
    proof {
        lemma_push_ascii(buf@, 0x2D);
    }
    push_bytes(&mut buf, token.as_slice());
    let r = ascii_string(&buf);
    proof {
        assert(buf@ =~= spec_transaction_id(secs as int, token@));
        assert(0 <= secs as int && token@.len() == 12 && spec_all_ascii(token@) && r@
            =~= spec_ascii_chars(spec_transaction_id(secs as int, token@)));
    }
    r
}

/// The bytes of the NFe key prefix, `NFE`.
pub open spec fn spec_nfe_prefix() -> Seq<u8> {
    seq![0x4Eu8, 0x46u8, 0x45u8]
}

/// The NFe access key layout `NFE-{timestamp}-{XXXXXXXX}`.
pub fn generate_nfe_key() -> (r: String)
    ensures
        exists|c: ClockReading, suffix: Seq<u8>|
            spec_clock_reading_wf(c) && suffix.len() == 8 && spec_all_ascii(suffix) && r@
                =~= spec_ascii_chars(#[trigger] spec_identifier(spec_nfe_prefix(), c, suffix)),
{
    proof {
        broadcast use vstd::string::is_ascii_spec_bytes;

        reveal_strlit("NFE");
        assert(vstd::utf8::is_ascii_chars("NFE"@));
    }
    let r = generate_identifier("NFE");
    proof {
        broadcast use vstd::string::is_ascii_spec_bytes;

        reveal_strlit("NFE");
        assert(vstd::utf8::is_ascii_chars("NFE"@));
        assert(vstd::string::is_ascii("NFE"));
        assert("NFE".spec_bytes() =~= spec_nfe_prefix());
    }
    r
}

/// The EAN-13 barcode body: country code, manufacturer code and a
/// zero-padded five-digit product code, closed by the modulo-10 check digit
/// of all the digits so far.
pub open spec fn spec_barcode(country: Seq<u8>, manufacturer: Seq<u8>, product: u32) -> Seq<u8> {
    let base = country + manufacturer + spec_dec_padded(product as nat, 5);
    base + seq![
        (0x30 + crate::checksum::spec_ean13_check(
            crate::documents::spec_digit_values(crate::documents::spec_digits_of(base)),
        )) as u8,
    ]
}

/// Builds an EAN-13 compatible barcode from its parts.
pub fn format_barcode(country_code: &str, manufacturer_code: &str, product: u32) -> (r: String)
    requires
        country_code.is_ascii(),
        manufacturer_code.is_ascii(),
        product < 100_000,
    ensures
        r@ =~= spec_ascii_chars(
            spec_barcode(country_code.spec_bytes(), manufacturer_code.spec_bytes(), product),
        ),
{
    proof {
        crate::pix::lemma_str_bytes_ascii(country_code);
        crate::pix::lemma_str_bytes_ascii(manufacturer_code);
    }
    let mut base: Vec<u8> = Vec::new();
    push_bytes(&mut base, country_code.as_bytes());
    push_bytes(&mut base, manufacturer_code.as_bytes());
    push_dec_padded(&mut base, product as u64, 5);
    let check = crate::checksum::ean13_check_digit(base.as_slice());
    let mut buf = base;
    let check_byte: u8 = 0x30 + check;
    buf.push(check_byte);
    proof {
        lemma_push_ascii(buf@, check_byte);
        assert(buf@ =~= spec_barcode(
            country_code.spec_bytes(),
            manufacturer_code.spec_bytes(),
            product,
        ));
    }
    ascii_string(&buf)
}

/// A fresh barcode for a country and manufacturer with a random product
/// code.
pub fn generate_barcode(country_code: &str, manufacturer_code: &str) -> (r: String)
    requires
        country_code.is_ascii(),
        manufacturer_code.is_ascii(),
    ensures
        exists|product: u32|
            product < 10_000 && r@ =~= spec_ascii_chars(
                #[trigger] spec_barcode(
                    country_code.spec_bytes(),
                    manufacturer_code.spec_bytes(),
                    product,
                ),
            ),
{
    let product = random_u32() % 10_000;
    format_barcode(country_code, manufacturer_code, product)
}

/// The 32-symbol lowercase short-code alphabet, with the ambiguous l, o, 0
/// and 1 left out.
pub open spec fn spec_short_alphabet() -> Seq<u8> {
    seq![
        0x61u8, 0x62u8, 0x63u8, 0x64u8, 0x65u8, 0x66u8, 0x67u8, 0x68u8, 0x69u8, 0x6Au8, 0x6Bu8,
        0x6Du8, 0x6Eu8, 0x70u8, 0x71u8, 0x72u8, 0x73u8, 0x74u8, 0x75u8, 0x76u8, 0x77u8, 0x78u8,
        0x79u8, 0x7Au8, 0x32u8, 0x33u8, 0x34u8, 0x35u8, 0x36u8, 0x37u8, 0x38u8, 0x39u8,
    ]
}

/// A fresh short code of `length` random symbols for URLs.
pub fn generate_short_code(length: usize) -> (r: String)
    ensures
        r@.len() == length,
        forall|i: int| 0 <= i < r@.len() ==> spec_short_alphabet().contains(#[trigger] r@[i] as u8),
{
    let table: [u8; 32] = [
        0x61, 0x62, 0x63, 0x64, 0x65, 0x66, 0x67, 0x68, 0x69, 0x6A, 0x6B, 0x6D, 0x6E, 0x70, 0x71,
        0x72, 0x73, 0x74, 0x75, 0x76, 0x77, 0x78, 0x79, 0x7A, 0x32, 0x33, 0x34, 0x35, 0x36, 0x37,
        0x38, 0x39,
    ];
    proof {
        assert(table@ =~= spec_short_alphabet());
    }
    let mut buf: Vec<u8> = Vec::new();
    let mut i: usize = 0;
    while i < length
        invariant
            i <= length,
            buf@.len() == i,
            table@ =~= spec_short_alphabet(),
            forall|k: int| 0 <= k < i ==> spec_short_alphabet().contains(#[trigger] buf@[k]),
            spec_all_ascii(buf@),
        decreases length - i,
    {
        let pick = random_below(32) as usize;
        let b = table[pick];
        buf.push(b);
        proof {
            assert(spec_short_alphabet()[pick as int] == b);
            assert(spec_short_alphabet().contains(b));
            lemma_push_ascii(buf@, b);
        }
        i = i + 1;
    }
    let r = ascii_string(&buf);
    proof {
        assert forall|i2: int| 0 <= i2 < r@.len() implies spec_short_alphabet().contains(
            #[trigger] r@[i2] as u8,
        ) by {
            assert(r@[i2] == buf@[i2] as char);
            assert(buf@[i2] < 128);
            assert(r@[i2] as u8 == buf@[i2]);
        }
    }
    r
}

/// The index of the first dash of `s`, or its length when no dash occurs.
pub open spec fn spec_first_dash(s: Seq<char>) -> int
    decreases s.len(),
{
    if s.len() == 0 {
        0
    } else if s[0] == '-' {
        0
    } else {
        1 + spec_first_dash(s.drop_first())
    }
}

/// Finds the first dash of `s` at or after `from`, or the length.
fn find_dash(s: &str, from: usize, len: usize) -> (r: usize)
    requires
        from <= len,
        len == s@.len(),
    ensures
        from <= r <= len,
        r - from == spec_first_dash(s@.skip(from as int)),
{
    let mut k = from;
    proof {
        lemma_first_dash_bounds(s@.skip(from as int));
    }
    while k < len && s.get_char(k) != '-'
        invariant
            from <= k <= len,
            len == s@.len(),
            spec_first_dash(s@.skip(from as int)) == (k - from) + spec_first_dash(
                s@.skip(k as int),
            ),
        decreases len - k,
    {
        proof {
            assert(s@.skip(k as int)[0] == s@[k as int]);
            assert(s@.skip(k as int).drop_first() =~= s@.skip(k + 1));
        }
        k = k + 1;
    }
    proof {
        if k == len {
            assert(s@.skip(k as int) =~= Seq::<char>::empty());
        } else {
            assert(s@.skip(k as int)[0] == s@[k as int]);
        }
        lemma_first_dash_bounds(s@.skip(from as int));
    }
    k
}

/// The first-dash index is within bounds.
proof fn lemma_first_dash_bounds(s: Seq<char>)
    ensures
        0 <= spec_first_dash(s) <= s.len(),
    decreases s.len(),
{
    if s.len() > 0 && s[0] != '-' {
        lemma_first_dash_bounds(s.drop_first());
    }
}

/// Splits an identifier on dashes and returns its first three segments when
/// it has at least three, that is, at least two dashes.
pub fn parse_identifier(identifier: &str) -> (r: Option<(String, String, String)>)
    ensures
        ({
            let s = identifier@;
            let k1 = spec_first_dash(s);
            let k2 = k1 + 1 + spec_first_dash(s.skip(k1 + 1));
            let k3 = k2 + 1 + spec_first_dash(s.skip(k2 + 1));
            if k1 < s.len() && k2 < s.len() {
                r matches Some(parts) && parts.0@ == s.subrange(0, k1) && parts.1@ == s.subrange(
                    k1 + 1,
                    k2,
                ) && parts.2@ == s.subrange(k2 + 1, if k3 < s.len() {
                    k3
                } else {
                    s.len() as int
                })
            } else {
                r is None
            }
        }),
{
    let len = identifier.unicode_len();
    let k1 = find_dash(identifier, 0, len);
    proof {
        assert(identifier@.skip(0) =~= identifier@);
    }
    if k1 == len {
        return None;
    }
    let k2 = find_dash(identifier, k1 + 1, len);
    if k2 == len {
        return None;
    }
    let k3 = find_dash(identifier, k2 + 1, len);
    let first = identifier.substring_char(0, k1).to_owned();
    let second = identifier.substring_char(k1 + 1, k2).to_owned();
    let third = identifier.substring_char(k2 + 1, k3).to_owned();
    Some((first, second, third))
}

/// Validates an identifier's format: at least three dash-separated
/// segments, the first equal to the expected prefix, a timestamp segment of
/// at least eight characters, and a non-empty unique part. Temporal
/// plausibility is never checked.
pub fn is_valid_identifier(identifier: &str, expected_prefix: &str) -> (r: bool)
    ensures
        ({
            let s = identifier@;
            let k1 = spec_first_dash(s);
            let k2 = k1 + 1 + spec_first_dash(s.skip(k1 + 1));
            let k3 = k2 + 1 + spec_first_dash(s.skip(k2 + 1));
            let third_end = if k3 < s.len() {
                k3
            } else {
                s.len() as int
            };
            r == (k1 < s.len() && k2 < s.len() && s.subrange(0, k1) =~= expected_prefix@ && k2 - k1
                - 1 >= 8 && third_end - (k2 + 1) > 0)
        }),
{
    let ghost s = identifier@;
    let ghost gk1 = spec_first_dash(s);
    let ghost gk2 = gk1 + 1 + spec_first_dash(s.skip(gk1 + 1));
    let ghost gk3 = gk2 + 1 + spec_first_dash(s.skip(gk2 + 1));
    let ghost gend = if gk3 < s.len() {
        gk3
    } else {
        s.len() as int
    };
    match parse_identifier(identifier) {
        Some((prefix, timestamp, unique)) => {
            proof {
                assert(gk1 < s.len() && gk2 < s.len());
                assert(prefix@ == s.subrange(0, gk1));
                assert(timestamp@ == s.subrange(gk1 + 1, gk2));
                assert(unique@ == s.subrange(gk2 + 1, gend));
            }
            let plen = prefix.as_str().unicode_len();
            let elen = expected_prefix.unicode_len();
            if plen != elen {
                return false;
            }
            let mut i: usize = 0;
            while i < plen
                invariant
                    i <= plen,
                    gk1 < s.len() && gk2 < s.len(),
                    s == identifier@,
                    gk1 == spec_first_dash(s),
                    gk2 == gk1 + 1 + spec_first_dash(s.skip(gk1 + 1)),
                    gk3 == gk2 + 1 + spec_first_dash(s.skip(gk2 + 1)),
                    gend == if gk3 < s.len() {
                        gk3
                    } else {
                        s.len() as int
                    },
                    prefix@ == s.subrange(0, gk1),
                    timestamp@ == s.subrange(gk1 + 1, gk2),
                    unique@ == s.subrange(gk2 + 1, gend),
                    plen == prefix@.len() == expected_prefix@.len(),
                    forall|k: int| 0 <= k < i ==> #[trigger] prefix@[k] == expected_prefix@[k],
                decreases plen - i,
            {
                if prefix.as_str().get_char(i) != expected_prefix.get_char(i) {
                    return false;
                }
                i = i + 1;
            }
            proof {
                assert(prefix@ =~= expected_prefix@);
            }
            let tlen = timestamp.as_str().unicode_len();
            let ulen = unique.as_str().unicode_len();
            let res = tlen >= 8 && ulen > 0;
            proof {
                lemma_first_dash_bounds(s);
                lemma_first_dash_bounds(s.skip(gk1 + 1));
                lemma_first_dash_bounds(s.skip(gk2 + 1));
                assert(tlen == gk2 - gk1 - 1);
                assert(ulen == gend - (gk2 + 1));
                assert(s.subrange(0, gk1) =~= expected_prefix@);
            }
            res
        },
        None => false,
    }
}

} // verus!
