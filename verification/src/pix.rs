//! PIX BR Code payload encoding.
//!
//! A PIX charge is serialized as the EMV-MPM style text payload the Brazilian
//! Central Bank specifies: a sequence of tag-length-value fields whose length
//! fields are always two ASCII digits, closed by a CRC16-CCITT checksum over
//! the whole payload including its own `6304` tag-length prefix, rendered as
//! four uppercase hexadecimal digits. This is a wire-compatibility surface:
//! any deviation breaks third-party QR scanners.

use vstd::prelude::*;
use vstd::string::*;
use crate::checksum::{spec_crc16, spec_hex4_upper, crc16_ccitt, hex4_upper};
use crate::errors::PaymentError;
use crate::money::Money;
use crate::external::utf8_string;
use crate::text::{spec_all_ascii, push_bytes, push_dec_padded};

verus! {

/// The PIX key types admitted by the Central Bank directory.
#[derive(Clone, Copy, Debug, PartialEq, Eq, Hash, Structural)]
pub enum PixKeyType {
    Cpf,
    Cnpj,
    Email,
    Phone,
    Random,
}

/// What a PIX key must satisfy for its type: CPF and CNPJ keys pass the
/// document validators, an email key holds an `@` within 77 bytes, a phone
/// key has exactly 11 digits, and a random (EVP) key is an opaque 32-byte
/// token.
pub open spec fn spec_pix_key_ok(kind: PixKeyType, b: Seq<u8>) -> bool {
    match kind {
        PixKeyType::Cpf => crate::documents::spec_cpf_valid(crate::documents::spec_digits_of(b)),
        PixKeyType::Cnpj => crate::documents::spec_cnpj_valid(crate::documents::spec_digits_of(b)),
        PixKeyType::Email => (exists|i: int| 0 <= i < b.len() && b[i] == 0x40) && b.len() <= 77,
        PixKeyType::Phone => crate::documents::spec_digits_of(b).len() == 11,
        PixKeyType::Random => b.len() == 32,
    }
}

/// Validates a PIX key against the validator of its type, as given by
/// [`spec_pix_key_ok`].
pub fn validate_pix_key(key: &str, kind: PixKeyType) -> (r: Result<(), PaymentError>)
    ensures
        spec_pix_key_ok(kind, key.spec_bytes()) ==> r is Ok,
        !spec_pix_key_ok(kind, key.spec_bytes()) ==> (r matches Err(e) && e
            == PaymentError::InvalidPixKey),
{
    let ok = match kind {
        PixKeyType::Cpf => crate::documents::validate_cpf(key),
        PixKeyType::Cnpj => crate::documents::validate_cnpj(key),
        PixKeyType::Email => {
            let has_at = contains_at(key.as_bytes());
            has_at && key.as_bytes().len() <= 77
        },
        PixKeyType::Phone => {
            let d = crate::documents::digits_of_bytes(key.as_bytes());
            d.len() == 11
        },
        PixKeyType::Random => key.as_bytes().len() == 32,
    };
    if ok {
        Ok(())
    } else {
        Err(PaymentError::InvalidPixKey)
    }
}

/// True when `b` holds an `@` byte.
fn contains_at(b: &[u8]) -> (r: bool)
    ensures
        r == exists|i: int| 0 <= i < b@.len() && b@[i] == 0x40,
{
    let len = b.len();
    let mut i: usize = 0;
    while i < len
        invariant
            i <= len,
            len == b@.len(),
            forall|k: int| 0 <= k < i ==> #[trigger] b@[k] != 0x40,
        decreases len - i,
    {
        if b[i] == 0x40 {
            return true;
        }
        i = i + 1;
    }
    false
}

/// The fixed merchant account GUI, `BR.GOV.BCB.PIX`, as the nested field
/// `0014BR.GOV.BCB.PIX`.
pub open spec fn spec_pix_gui() -> Seq<u8> {
    seq![
        0x30u8, 0x30u8, 0x31u8, 0x34u8, 0x42u8, 0x52u8, 0x2Eu8, 0x47u8, 0x4Fu8, 0x56u8, 0x2Eu8,
        0x42u8, 0x43u8, 0x42u8, 0x2Eu8, 0x50u8, 0x49u8, 0x58u8,
    ]
}

/// A TLV length rendered as exactly two ASCII digits.
pub open spec fn spec_len2(n: nat) -> Seq<u8> {
    crate::text::spec_dec_padded(n, 2)
}

/// The nested merchant account information: the GUI field followed by the
/// PIX key as field `01`.
pub open spec fn spec_merchant_info(key: Seq<u8>) -> Seq<u8> {
    spec_pix_gui() + seq![0x30u8, 0x31u8] + spec_len2(key.len()) + key
}

/// The payload up to and including the `6304` CRC tag-length prefix: format
/// indicator `000201`, dynamic initiation `010212`, merchant account field
/// `26`, category code `52040000`, currency `5303986` (BRL), amount field
/// `54`, country `5802BR`, merchant name field `59` truncated to 25 bytes,
/// and the additional-data template `62` holding the transaction id as
/// field `05`.
pub open spec fn spec_pix_base(
    key: Seq<u8>,
    amount_micros: int,
    merchant: Seq<u8>,
    txid: Seq<u8>,
) -> Seq<u8> {
    let mi = spec_merchant_info(key);
    let amt = crate::money::spec_plain_amount(amount_micros);
    let name = if merchant.len() <= 25 {
        merchant
    } else {
        merchant.take(25)
    };
    let add = seq![0x30u8, 0x35u8] + spec_len2(txid.len()) + txid;
    seq![0x30u8, 0x30u8, 0x30u8, 0x32u8, 0x30u8, 0x31u8]  // 000201
     + seq![0x30u8, 0x31u8, 0x30u8, 0x32u8, 0x31u8, 0x32u8]  // 010212
     + seq![0x32u8, 0x36u8] + spec_len2(mi.len()) + mi + seq![
        0x35u8,
        0x32u8,
        0x30u8,
        0x34u8,
        0x30u8,
        0x30u8,
        0x30u8,
        0x30u8,
    ]  // 52040000
     + seq![0x35u8, 0x33u8, 0x30u8, 0x33u8, 0x39u8, 0x38u8, 0x36u8]  // 5303986
     + seq![0x35u8, 0x34u8] + spec_len2(amt.len()) + amt + seq![
        0x35u8,
        0x38u8,
        0x30u8,
        0x32u8,
        0x42u8,
        0x52u8,
    ]  // 5802BR
     + seq![0x35u8, 0x39u8] + spec_len2(name.len()) + name + seq![0x36u8, 0x32u8] + spec_len2(
        add.len(),
    ) + add + seq![0x36u8, 0x33u8, 0x30u8, 0x34u8]  // 6304

}

/// The complete payload: the base closed by the CRC16-CCITT of the base,
/// rendered as four uppercase hexadecimal digits.
pub open spec fn spec_pix_payload(
    key: Seq<u8>,
    amount_micros: int,
    merchant: Seq<u8>,
    txid: Seq<u8>,
) -> Seq<u8> {
    let base = spec_pix_base(key, amount_micros, merchant, txid);
    base + spec_hex4_upper(spec_crc16(base))
}

/// Builds the PIX BR Code payload for a key, a non-negative amount, a
/// merchant name (truncated to its first 25 bytes, which must end on a
/// character boundary) and a transaction id. The result is pinned through
/// its UTF-8 bytes, the payload's wire form.
#[verifier::rlimit(100)]
pub fn build_pix_payload(pix_key: &str, amount: Money, merchant_name: &str, txid: &str) -> (r:
    String)
    requires
        amount.micros >= 0,
        vstd::utf8::is_char_boundary(
            merchant_name.spec_bytes(),
            if merchant_name.spec_bytes().len() <= 25 {
                merchant_name.spec_bytes().len() as int
            } else {
                25
            },
        ),
    ensures
        vstd::utf8::encode_utf8(r@) =~= spec_pix_payload(
            pix_key.spec_bytes(),
            amount.micros as int,
            merchant_name.spec_bytes(),
            txid.spec_bytes(),
        ),
{
    let key = pix_key.as_bytes();
    let merchant = merchant_name.as_bytes();
    let tx = txid.as_bytes();
    // Merchant account information, nested.
    let mut mi: Vec<u8> = Vec::new();
    let gui: [u8; 18] = [
        0x30, 0x30, 0x31, 0x34, 0x42, 0x52, 0x2E, 0x47, 0x4F, 0x56, 0x2E, 0x42, 0x43, 0x42, 0x2E,
        0x50, 0x49, 0x58,
    ];
    push_bytes(&mut mi, gui.as_slice());
    proof {
        assert(gui@ =~= spec_pix_gui());
        assert(spec_all_ascii(gui@));
    }
    let f01: [u8; 2] = [0x30, 0x31];
    push_bytes(&mut mi, f01.as_slice());
    push_len2(&mut mi, key.len());
    push_bytes(&mut mi, key);
    proof {
        assert(mi@ =~= spec_merchant_info(pix_key.spec_bytes()));
    }
    // Amount, rendered to exactly two fraction digits.
    let amt = amount.plain_amount();
    // Merchant name, truncated at the 25-byte character boundary.
    let name_len = if merchant.len() <= 25 {
        merchant.len()
    } else {
        25
    };
    let (name, _rest) = merchant_name.split_at(name_len);
    // Additional data template: transaction id as field 05.
    let mut add: Vec<u8> = Vec::new();
    let f05: [u8; 2] = [0x30, 0x35];
    push_bytes(&mut add, f05.as_slice());
    push_len2(&mut add, tx.len());
    push_bytes(&mut add, tx);
    // Assemble the payload base.
    let mut buf: Vec<u8> = Vec::new();
    let head: [u8; 12] = [0x30, 0x30, 0x30, 0x32, 0x30, 0x31, 0x30, 0x31, 0x30, 0x32, 0x31, 0x32];
    push_bytes(&mut buf, head.as_slice());
    let t26: [u8; 2] = [0x32, 0x36];
    push_bytes(&mut buf, t26.as_slice());
    push_len2(&mut buf, mi.len());
    push_bytes(&mut buf, mi.as_slice());
    let mcc_cur: [u8; 15] = [
        0x35, 0x32, 0x30, 0x34, 0x30, 0x30, 0x30, 0x30, 0x35, 0x33, 0x30, 0x33, 0x39, 0x38, 0x36,
    ];
    push_bytes(&mut buf, mcc_cur.as_slice());
    let t54: [u8; 2] = [0x35, 0x34];
    push_bytes(&mut buf, t54.as_slice());
    push_len2(&mut buf, amt.len());
    push_bytes(&mut buf, amt.as_slice());
    let country: [u8; 6] = [0x35, 0x38, 0x30, 0x32, 0x42, 0x52];
    push_bytes(&mut buf, country.as_slice());
    let t59: [u8; 2] = [0x35, 0x39];
    push_bytes(&mut buf, t59.as_slice());
    push_len2(&mut buf, name_len);
    push_bytes(&mut buf, name.as_bytes());
    let t62: [u8; 2] = [0x36, 0x32];
    push_bytes(&mut buf, t62.as_slice());
    push_len2(&mut buf, add.len());
    push_bytes(&mut buf, add.as_slice());
    let crc_prefix: [u8; 4] = [0x36, 0x33, 0x30, 0x34];
    push_bytes(&mut buf, crc_prefix.as_slice());
    proof {
        lemma_name_take(merchant_name.spec_bytes(), name_len as int);
        assert(buf@ =~= spec_pix_base(
            pix_key.spec_bytes(),
            amount.micros as int,
            merchant_name.spec_bytes(),
            txid.spec_bytes(),
        ));
    }
    // Compute the CRC over everything so far, 6304 prefix included, and
    // close the payload with its four uppercase hex digits.
    let crc = crc16_ccitt(buf.as_slice());
    let hex = hex4_upper(crc);
    push_bytes(&mut buf, hex.as_slice());
    // The buffer interleaves ASCII runs with the three caller texts, so it
    // encodes the character sequence that alternates them: valid UTF-8.
    proof {
        lemma_payload_is_utf8(
            pix_key@,
            merchant_name.spec_bytes(),
            name@,
            txid@,
            amount.micros as int,
            buf@,
        );
    }
    utf8_string(buf)
}

/// A payload buffer that equals the payload byte layout is valid UTF-8: it
/// alternates ASCII runs with the UTF-8 encodings of the key, the truncated
/// merchant name and the transaction id, so it encodes the character
/// sequence that alternates them.
#[verifier::rlimit(100)]
proof fn lemma_payload_is_utf8(
    keyc: Seq<char>,
    merchb: Seq<u8>,
    namec: Seq<char>,
    txc: Seq<char>,
    amount_micros: int,
    buf: Seq<u8>,
)
    requires
        vstd::utf8::encode_utf8(namec) == (if merchb.len() <= 25 {
            merchb
        } else {
            merchb.take(25)
        }),
        buf =~= spec_pix_payload(
            vstd::utf8::encode_utf8(keyc),
            amount_micros,
            merchb,
            vstd::utf8::encode_utf8(txc),
        ),
    ensures
        exists|s: Seq<char>| buf == vstd::utf8::encode_utf8(s),
{
    let keyb = vstd::utf8::encode_utf8(keyc);
    let txb = vstd::utf8::encode_utf8(txc);
    let nameb = vstd::utf8::encode_utf8(namec);
    let mi_len = spec_merchant_info(keyb).len();
    let amtb = crate::money::spec_plain_amount(amount_micros);
    let addb = seq![0x30u8, 0x35u8] + spec_len2(txb.len()) + txb;
    let crc_spec = spec_crc16(spec_pix_base(keyb, amount_micros, merchb, txb));
    let l1 = seq![
        0x30u8, 0x30u8, 0x30u8, 0x32u8, 0x30u8, 0x31u8, 0x30u8, 0x31u8, 0x30u8, 0x32u8, 0x31u8,
        0x32u8, 0x32u8, 0x36u8,
    ];
    let l2 = seq![
        0x35u8, 0x32u8, 0x30u8, 0x34u8, 0x30u8, 0x30u8, 0x30u8, 0x30u8, 0x35u8, 0x33u8, 0x30u8,
        0x33u8, 0x39u8, 0x38u8, 0x36u8, 0x35u8, 0x34u8,
    ];
    let l3 = seq![0x35u8, 0x38u8, 0x30u8, 0x32u8, 0x42u8, 0x52u8, 0x35u8, 0x39u8];
    let a1 = l1 + spec_len2(mi_len) + spec_pix_gui() + seq![0x30u8, 0x31u8] + spec_len2(keyb.len());
    let a2 = l2 + spec_len2(amtb.len()) + amtb + l3 + spec_len2(nameb.len());
    let a3 = seq![0x36u8, 0x32u8] + spec_len2(addb.len()) + seq![0x30u8, 0x35u8] + spec_len2(
        txb.len(),
    );
    let a4 = seq![0x36u8, 0x33u8, 0x30u8, 0x34u8] + spec_hex4_upper(crc_spec);
    crate::text::lemma_padded_ascii(mi_len, 2);
    crate::text::lemma_padded_ascii(keyb.len(), 2);
    crate::text::lemma_padded_ascii(amtb.len(), 2);
    crate::text::lemma_padded_ascii(nameb.len(), 2);
    crate::text::lemma_padded_ascii(addb.len(), 2);
    crate::text::lemma_padded_ascii(txb.len(), 2);
    assert(spec_all_ascii(l1));
    assert(spec_all_ascii(l2));
    assert(spec_all_ascii(l3));
    assert(spec_all_ascii(spec_pix_gui()));
    assert(spec_all_ascii(seq![0x30u8, 0x31u8]));
    assert(spec_all_ascii(seq![0x30u8, 0x35u8]));
    assert(spec_all_ascii(seq![0x36u8, 0x32u8]));
    assert(spec_all_ascii(seq![0x36u8, 0x33u8, 0x30u8, 0x34u8]));
    lemma_plain_amount_ascii(amount_micros);
    lemma_hex4_ascii(crc_spec);
    crate::text::lemma_ascii_concat(l1, spec_len2(mi_len));
    crate::text::lemma_ascii_concat(l1 + spec_len2(mi_len), spec_pix_gui());
    crate::text::lemma_ascii_concat(l1 + spec_len2(mi_len) + spec_pix_gui(), seq![0x30u8, 0x31u8]);
    crate::text::lemma_ascii_concat(
        l1 + spec_len2(mi_len) + spec_pix_gui() + seq![0x30u8, 0x31u8],
        spec_len2(keyb.len()),
    );
    assert(spec_all_ascii(a1));
    crate::text::lemma_ascii_concat(l2, spec_len2(amtb.len()));
    crate::text::lemma_ascii_concat(l2 + spec_len2(amtb.len()), amtb);
    crate::text::lemma_ascii_concat(l2 + spec_len2(amtb.len()) + amtb, l3);
    crate::text::lemma_ascii_concat(l2 + spec_len2(amtb.len()) + amtb + l3, spec_len2(nameb.len()));
    assert(spec_all_ascii(a2));
    crate::text::lemma_ascii_concat(seq![0x36u8, 0x32u8], spec_len2(addb.len()));
    crate::text::lemma_ascii_concat(
        seq![0x36u8, 0x32u8] + spec_len2(addb.len()),
        seq![0x30u8, 0x35u8],
    );
    crate::text::lemma_ascii_concat(
        seq![0x36u8, 0x32u8] + spec_len2(addb.len()) + seq![0x30u8, 0x35u8],
        spec_len2(txb.len()),
    );
    assert(spec_all_ascii(a3));
    crate::text::lemma_ascii_concat(
        seq![0x36u8, 0x33u8, 0x30u8, 0x34u8],
        spec_hex4_upper(crc_spec),
    );
    assert(spec_all_ascii(a4));
    let c1 = crate::documents::spec_ascii_chars(a1);
    let c2 = crate::documents::spec_ascii_chars(a2);
    let c3 = crate::documents::spec_ascii_chars(a3);
    let c4 = crate::documents::spec_ascii_chars(a4);
    let w = c1 + keyc + c2 + namec + c3 + txc + c4;
    lemma_encode_utf8_concat(c1 + keyc + c2 + namec + c3 + txc, c4);
    lemma_encode_utf8_concat(c1 + keyc + c2 + namec + c3, txc);
    lemma_encode_utf8_concat(c1 + keyc + c2 + namec, c3);
    lemma_encode_utf8_concat(c1 + keyc + c2, namec);
    lemma_encode_utf8_concat(c1 + keyc, c2);
    lemma_encode_utf8_concat(c1, keyc);
    lemma_ascii_chars_encode(a1);
    lemma_ascii_chars_encode(a2);
    lemma_ascii_chars_encode(a3);
    lemma_ascii_chars_encode(a4);
    assert(vstd::utf8::encode_utf8(w) =~= a1 + keyb + a2 + nameb + a3 + txb + a4);
    assert(buf =~= a1 + keyb + a2 + nameb + a3 + txb + a4);
    assert(buf == vstd::utf8::encode_utf8(w));
}

/// The plain amount rendering is ASCII: digits, a dot, two digits.
proof fn lemma_plain_amount_ascii(micros: int)
    ensures
        spec_all_ascii(crate::money::spec_plain_amount(micros)),
{
    let cents = micros / 10_000;
    let d = crate::text::spec_dec_digits((cents / 100) as nat);
    let f = crate::text::spec_dec_padded((cents % 100) as nat, 2);
    crate::text::lemma_dec_digits_are_digits((cents / 100) as nat);
    assert(spec_all_ascii(d)) by {
        assert forall|i: int| 0 <= i < d.len() implies #[trigger] d[i] < 128 by {
            assert(crate::documents::spec_is_digit(d[i]));
        }
    }
    crate::text::lemma_padded_ascii((cents % 100) as nat, 2);
    assert(spec_all_ascii(seq![0x2Eu8]));
    crate::text::lemma_ascii_concat(d, seq![0x2Eu8]);
    crate::text::lemma_ascii_concat(d + seq![0x2Eu8], f);
}

/// Four uppercase hexadecimal digits are ASCII.
proof fn lemma_hex4_ascii(v: u16)
    ensures
        spec_all_ascii(spec_hex4_upper(v)),
{
    assert((v >> 12u16) & 0xF < 16 && (v >> 8u16) & 0xF < 16 && (v >> 4u16) & 0xF < 16 && v & 0xF
        < 16) by (bit_vector);
    let h = spec_hex4_upper(v);
    assert forall|i: int| 0 <= i < h.len() implies #[trigger] h[i] < 128 by {
        if i == 0 {
            assert(h[0] == crate::checksum::spec_hex_digit_upper((v >> 12u16) & 0xF));
        } else if i == 1 {
            assert(h[1] == crate::checksum::spec_hex_digit_upper((v >> 8u16) & 0xF));
        } else if i == 2 {
            assert(h[2] == crate::checksum::spec_hex_digit_upper((v >> 4u16) & 0xF));
        } else {
            assert(h[3] == crate::checksum::spec_hex_digit_upper(v & 0xF));
        }
    }
}


/// Appends a TLV length as exactly two ASCII digits.
fn push_len2(out: &mut Vec<u8>, n: usize)
    ensures
        final(out)@ =~= old(out)@ + spec_len2(n as nat),
        spec_all_ascii(old(out)@) ==> spec_all_ascii(final(out)@),
{
    push_dec_padded(out, (n % 100) as u64, 2);
    proof {
        lemma_len2_mod(n as nat);
    }
}

/// Two ASCII digits: the tens digit then the ones digit.
proof fn lemma_padded2(m: nat)
    ensures
        crate::text::spec_dec_padded(m, 2) =~= seq![
            (0x30 + (m / 10) % 10) as u8,
            (0x30 + m % 10) as u8,
        ],
{
    assert(crate::text::spec_dec_padded(m / 10, 0) =~= Seq::<u8>::empty());
    assert(crate::text::spec_dec_padded(m / 10, 1) =~= crate::text::spec_dec_padded((m / 10) / 10, 0)
        + seq![(0x30 + (m / 10) % 10) as u8]);
    assert(crate::text::spec_dec_padded(m, 2) =~= crate::text::spec_dec_padded(m / 10, 1) + seq![
        (0x30 + m % 10) as u8,
    ]);
}

/// Two-digit padding only ever sees the value modulo 100.
proof fn lemma_len2_mod(n: nat)
    ensures
        crate::text::spec_dec_padded(n % 100, 2) =~= crate::text::spec_dec_padded(n, 2),
{
    lemma_padded2(n);
    lemma_padded2(n % 100);
    assert((n % 100) % 10 == n % 10) by (nonlinear_arith);
    assert((n % 100) / 10 % 10 == (n / 10) % 10) by (nonlinear_arith);
}

/// For an ASCII string the byte view is the character view, byte for byte;
/// in particular every byte is below 128.
pub proof fn lemma_str_bytes_ascii(s: &str)
    requires
        s.is_ascii(),
    ensures
        spec_all_ascii(s.spec_bytes()),
        s.spec_bytes().len() == s@.len(),
{
    broadcast use vstd::string::is_ascii_spec_bytes;

    assert forall|i: int| 0 <= i < s.spec_bytes().len() implies #[trigger] s.spec_bytes()[i]
        < 128 by {
        assert(s.spec_bytes()[i] == s@[i] as u8);
        assert(vstd::utf8::is_ascii_chars(s@));
        assert('\0' <= s@[i] <= '\u{7f}');
    }
}

/// The CRC trailer of a payload is self-consistent: running the CRC16
/// algorithm again over the payload up to and including the `6304` prefix
/// reproduces exactly the four hexadecimal digits the payload ends in.
pub proof fn lemma_payload_crc_self_consistent(
    key: Seq<u8>,
    amount_micros: int,
    merchant: Seq<u8>,
    txid: Seq<u8>,
)
    ensures
        ({
            let p = spec_pix_payload(key, amount_micros, merchant, txid);
            &&& p.len() >= 4
            &&& p.skip(p.len() - 4) =~= spec_hex4_upper(spec_crc16(p.take(p.len() - 4)))
        }),
{
    let base = spec_pix_base(key, amount_micros, merchant, txid);
    let p = spec_pix_payload(key, amount_micros, merchant, txid);
    assert(p.take(p.len() - 4) =~= base);
    assert(p.skip(p.len() - 4) =~= spec_hex4_upper(spec_crc16(base)));
}

/// A PIX charge: the key it pays to, the amount, the merchant, an optional
/// fixed transaction id, and the instant the charge expires.
pub struct PixCharge {
    /// The PIX key, which must satisfy the validator of `pix_key_type`.
    pub pix_key: String,
    /// The type of the PIX key.
    pub pix_key_type: PixKeyType,
    /// The charged amount; never negative.
    pub amount: Money,
    /// The merchant display name; the payload keeps its first 25 bytes.
    pub merchant_name: String,
    /// A fixed end-to-end transaction id; a random one is generated when
    /// absent.
    pub end_to_end_id: Option<String>,
    /// Expiry instant, seconds since the Unix epoch.
    pub expires_at: i64,
}

/// A charge can be encoded when its texts are ASCII, the key and the
/// transaction id fit their two-digit length fields, and the amount is
/// non-negative.
pub open spec fn spec_charge_encodable(c: PixCharge) -> bool {
    let merchant = vstd::utf8::encode_utf8(c.merchant_name@);
    &&& vstd::utf8::encode_utf8(c.pix_key@).len() <= 77
    &&& vstd::utf8::is_char_boundary(
        merchant,
        if merchant.len() <= 25 {
            merchant.len() as int
        } else {
            25
        },
    )
    &&& c.amount.micros >= 0
    &&& match c.end_to_end_id {
        Some(t) => vstd::utf8::encode_utf8(t@).len() <= 95,
        None => true,
    }
}

impl PixCharge {
    /// Validates this charge's key against the validator of its key type.
    pub fn validate_key(&self) -> (r: Result<(), PaymentError>)
        ensures
            spec_pix_key_ok(self.pix_key_type, vstd::utf8::encode_utf8(self.pix_key@)) ==> r is Ok,
            !spec_pix_key_ok(self.pix_key_type, vstd::utf8::encode_utf8(self.pix_key@)) ==> (
            r matches Err(e) && e == PaymentError::InvalidPixKey),
    {
        validate_pix_key(self.pix_key.as_str(), self.pix_key_type)
    }

    /// Builds the BR Code payload of this charge. With a fixed transaction
    /// id the payload's bytes are pinned exactly; otherwise they are the
    /// payload for some fresh 25-character hexadecimal transaction id.
    pub fn generate_qr_payload(&self) -> (r: String)
        requires
            spec_charge_encodable(*self),
        ensures
            spec_charge_payload(*self, r@),
    {
        match &self.end_to_end_id {
            Some(t) => build_pix_payload(
                self.pix_key.as_str(),
                self.amount,
                self.merchant_name.as_str(),
                t.as_str(),
            ),
            None => {
                let fresh = crate::external::uuid_simple();
                proof {
                    assert(vstd::utf8::is_ascii_chars(fresh@));
                }
                let txid = fresh.as_str().substring_ascii(0, 25);
                let r = build_pix_payload(
                    self.pix_key.as_str(),
                    self.amount,
                    self.merchant_name.as_str(),
                    txid,
                );
                proof {
                    lemma_str_bytes_ascii(txid);
                    let t = txid.spec_bytes();
                    assert(t.len() == 25);
                    assert(vstd::utf8::encode_utf8(r@) =~= spec_pix_payload(
                        vstd::utf8::encode_utf8(self.pix_key@),
                        self.amount.micros as int,
                        vstd::utf8::encode_utf8(self.merchant_name@),
                        t,
                    ));
                }
                r
            },
        }
    }

    /// Renders this charge's payload as a QR code image, returned as the
    /// base64 encoding of a PNG. An encodable charge always renders: its
    /// payload stays far below QR capacity.
    pub fn generate_qr_code_image(&self) -> (r: Result<String, PaymentError>)
        requires
            spec_charge_encodable(*self),
        ensures
            r is Ok,
            ({
                let key = vstd::utf8::encode_utf8(self.pix_key@);
                let merchant = vstd::utf8::encode_utf8(self.merchant_name@);
                match self.end_to_end_id {
                    Some(t) => (r matches Ok(img) && img@ == crate::external::spec_qr_png_base64(
                        spec_pix_payload(
                            key,
                            self.amount.micros as int,
                            merchant,
                            vstd::utf8::encode_utf8(t@),
                        ),
                    )),
                    None => exists|tx: Seq<u8>|
                        tx.len() == 25 && spec_all_ascii(tx) && (r matches Ok(img) && img@
                            == crate::external::spec_qr_png_base64(
                            #[trigger] spec_pix_payload(key, self.amount.micros as int, merchant, tx),
                        )),
                }
            }),
    {
        let payload = self.generate_qr_payload();
        let r = qr_image_base64(payload.as_str());
        proof {
            let key = vstd::utf8::encode_utf8(self.pix_key@);
            let merchant = vstd::utf8::encode_utf8(self.merchant_name@);
            match &self.end_to_end_id {
                Some(t) => {
                    lemma_payload_len(key, self.amount.micros as int, merchant, vstd::utf8::encode_utf8(t@));
                },
                None => {
                    let tx = choose|tx: Seq<u8>|
                        tx.len() == 25 && spec_all_ascii(tx) && vstd::utf8::encode_utf8(payload@)
                            =~= #[trigger] spec_pix_payload(
                            key,
                            self.amount.micros as int,
                            merchant,
                            tx,
                        );
                    lemma_payload_len(key, self.amount.micros as int, merchant, tx);
                },
            }
        }
        r
    }

    /// True when the charge has expired at instant `now`.
    pub fn is_expired(&self, now: i64) -> (r: bool)
        ensures
            r == (now > self.expires_at),
    {
        now > self.expires_at
    }
}

/// Renders an arbitrary payload as a QR code PNG in base64: any payload of
/// at most 1,000 bytes succeeds, a success carries exactly the payload's
/// image, and the only failure is the QR generation error.
pub fn qr_image_base64(payload: &str) -> (r: Result<String, PaymentError>)
    ensures
        r matches Ok(img) ==> img@ == crate::external::spec_qr_png_base64(payload.spec_bytes()),
        payload.spec_bytes().len() <= 1_000 ==> r is Ok,
        r matches Err(e) ==> e == PaymentError::QrCodeGenerationFailed,
{
    crate::external::qr_png_base64(payload)
}

/// A string holds the payload of a charge: its UTF-8 bytes are the exact
/// payload for the charge's transaction id, or for some fresh 25-character
/// one when none is fixed.
pub open spec fn spec_charge_payload(c: PixCharge, payload: Seq<char>) -> bool {
    let key = vstd::utf8::encode_utf8(c.pix_key@);
    let merchant = vstd::utf8::encode_utf8(c.merchant_name@);
    match c.end_to_end_id {
        Some(t) => vstd::utf8::encode_utf8(payload) =~= spec_pix_payload(
            key,
            c.amount.micros as int,
            merchant,
            vstd::utf8::encode_utf8(t@),
        ),
        None => exists|tx: Seq<u8>|
            tx.len() == 25 && spec_all_ascii(tx) && vstd::utf8::encode_utf8(payload)
                =~= #[trigger] spec_pix_payload(key, c.amount.micros as int, merchant, tx),
    }
}

/// A payload built from a key of at most 77 bytes and a transaction id of
/// at most 95 stays under a thousand bytes, far below QR capacity.
proof fn lemma_payload_len(key: Seq<u8>, amount_micros: int, merchant: Seq<u8>, txid: Seq<u8>)
    requires
        key.len() <= 77,
        txid.len() <= 95,
        0 <= amount_micros <= i64::MAX,
    ensures
        spec_pix_payload(key, amount_micros, merchant, txid).len() <= 1_000,
{
    let amt = crate::money::spec_plain_amount(amount_micros);
    let cents = amount_micros / 10_000;
    let ip = cents / 100;
    assert(0 <= ip < 10_000_000_000_000) by (nonlinear_arith)
        requires
            0 <= amount_micros <= i64::MAX,
            cents == amount_micros / 10_000,
            ip == cents / 100,
    ;
    assert(crate::money::spec_pow10(13) == 10_000_000_000_000) by {
        assert(crate::money::spec_pow10(0) == 1);
        assert(crate::money::spec_pow10(1) == 10);
        assert(crate::money::spec_pow10(2) == 100);
        assert(crate::money::spec_pow10(3) == 1_000);
        assert(crate::money::spec_pow10(4) == 10_000);
        assert(crate::money::spec_pow10(5) == 100_000);
        assert(crate::money::spec_pow10(6) == 1_000_000);
        assert(crate::money::spec_pow10(7) == 10_000_000);
        assert(crate::money::spec_pow10(8) == 100_000_000);
        assert(crate::money::spec_pow10(9) == 1_000_000_000);
        assert(crate::money::spec_pow10(10) == 10_000_000_000);
        assert(crate::money::spec_pow10(11) == 100_000_000_000);
        assert(crate::money::spec_pow10(12) == 1_000_000_000_000);
        assert(crate::money::spec_pow10(13) == 10_000_000_000_000);
    }
    lemma_dec_digits_len(ip as nat, 13);
    crate::text::lemma_dec_padded_are_digits((cents % 100) as nat, 2);
    assert(amt.len() <= 16);
    crate::text::lemma_dec_padded_are_digits(spec_merchant_info(key).len(), 2);
    crate::text::lemma_dec_padded_are_digits(key.len(), 2);
    crate::text::lemma_dec_padded_are_digits(amt.len(), 2);
    crate::text::lemma_dec_padded_are_digits(txid.len(), 2);
    let name = if merchant.len() <= 25 {
        merchant
    } else {
        merchant.take(25)
    };
    crate::text::lemma_dec_padded_are_digits(name.len(), 2);
    let add = seq![0x30u8, 0x35u8] + spec_len2(txid.len()) + txid;
    crate::text::lemma_dec_padded_are_digits(add.len(), 2);
    assert(name.len() <= 25);
    assert(spec_merchant_info(key).len() <= 99);
    assert(add.len() <= 99);
    assert(spec_pix_base(key, amount_micros, merchant, txid).len() <= 996);
}

/// Fewer than `k` decimal orders of magnitude render in at most `k` digits.
proof fn lemma_dec_digits_len(n: nat, k: nat)
    requires
        1 <= k,
        n < crate::money::spec_pow10(k),
    ensures
        crate::text::spec_dec_digits(n).len() <= k,
    decreases k,
{
    if n >= 10 {
        assert(k >= 2) by {
            if k == 1 {
                assert(crate::money::spec_pow10(1) == 10);
            }
        }
        assert(n / 10 < crate::money::spec_pow10((k - 1) as nat)) by (nonlinear_arith)
            requires
                n < crate::money::spec_pow10(k),
                crate::money::spec_pow10(k) == 10 * crate::money::spec_pow10((k - 1) as nat),
                n >= 10,
        ;
        lemma_dec_digits_len(n / 10, (k - 1) as nat);
    }
}

/// UTF-8 encoding distributes over concatenation of character sequences.
proof fn lemma_encode_utf8_concat(a: Seq<char>, b: Seq<char>)
    ensures
        vstd::utf8::encode_utf8(a + b) =~= vstd::utf8::encode_utf8(a) + vstd::utf8::encode_utf8(b),
    decreases a.len(),
{
    if a.len() == 0 {
        assert(a + b =~= b);
        assert(vstd::utf8::encode_utf8(a) =~= Seq::<u8>::empty());
    } else {
        lemma_encode_utf8_concat(a.drop_first(), b);
        assert((a + b).len() != 0);
        assert((a + b)[0] == a[0]);
        assert((a + b).drop_first() =~= a.drop_first() + b);
    }
}

/// The characters spelled by an ASCII byte string encode back to exactly
/// those bytes.
proof fn lemma_ascii_chars_encode(b: Seq<u8>)
    requires
        spec_all_ascii(b),
    ensures
        vstd::utf8::encode_utf8(crate::documents::spec_ascii_chars(b)) =~= b,
{
    let chars = crate::documents::spec_ascii_chars(b);
    assert(vstd::utf8::is_ascii_chars(chars)) by {
        assert forall|i: int| 0 <= i < chars.len() implies '\0' <= #[trigger] chars[i]
            <= '\u{7f}' by {
            assert(chars[i] == b[i] as char);
        }
    }
    vstd::utf8::is_ascii_chars_encode_utf8(chars);
    assert forall|i: int|
        0 <= i < b.len() implies #[trigger] vstd::utf8::encode_utf8(chars)[i] == b[i] by {
        assert(vstd::utf8::encode_utf8(chars)[i] == chars[i] as u8);
        assert(chars[i] == b[i] as char);
    }
}

/// The truncated merchant name equals the spec-side truncation.
proof fn lemma_name_take(merchant: Seq<u8>, name_len: int)
    requires
        name_len == if merchant.len() <= 25 {
            merchant.len() as int
        } else {
            25
        },
    ensures
        merchant.take(name_len) =~= if merchant.len() <= 25 {
            merchant
        } else {
            merchant.take(25)
        },
{
}

} // verus!
