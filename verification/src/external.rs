//! Trusted declarations for the outside crates the kernel calls.
//!
//! Each wrapper body makes exactly the named outside call and converts its
//! arguments and result; the contracts state only what the outside crate's
//! source or documentation plainly gives. Everything proved through these
//! contracts rests on them.

use vstd::prelude::*;
use vstd::string::*;
use base64::Engine;
use chrono::Datelike;
use chrono::Timelike;
use sha2::Digest;
use crate::errors::PaymentError;

verus! {

/// Relies on `String::push`: appends one character at the end.
#[verifier::external_body]
pub fn push_char(s: &mut String, c: char)
    ensures
        final(s)@ == old(s)@.push(c),
{
    s.push(c);
}

/// Relies on `String::from_utf8`: for a valid UTF-8 buffer it returns the
/// string whose encoding is exactly that buffer. The requirement rules the
/// error case out, and with it the panic of the unwrap.
#[verifier::external_body]
pub fn utf8_string(bytes: Vec<u8>) -> (r: String)
    requires
        exists|s: Seq<char>| bytes@ == vstd::utf8::encode_utf8(s),
    ensures
        vstd::utf8::encode_utf8(r@) == bytes@,
{
    String::from_utf8(bytes).unwrap()
}

/// The SHA-256 digest of a character sequence; the digest depends on the
/// input alone.
pub uninterp spec fn spec_sha256(s: Seq<char>) -> Seq<u8>;

/// Relies on sha2's `Sha256` (through the `Digest` trait): hashes the UTF-8
/// bytes of `s` into the 32-byte SHA-256 digest.
#[verifier::external_body]
pub fn sha256_digest(s: &str) -> (r: Vec<u8>)
    ensures
        r@ == spec_sha256(s@),
        r@.len() == 32,
{
    let digest = sha2::Sha256::digest(s.as_bytes());
    digest.as_slice().to_vec()
}

/// Relies on `uuid::Uuid::new_v4` and the `simple` formatter: a fresh random
/// identifier rendered as exactly 32 lowercase hexadecimal characters.
/// The value is random; only its length and alphabet are promised.
#[verifier::external_body]
pub fn uuid_simple() -> (r: String)
    ensures
        r@.len() == 32,
        forall|i: int|
            0 <= i < 32 ==> (('0' <= #[trigger] r@[i] && r@[i] <= '9') || ('a' <= r@[i] && r@[i]
                <= 'f')),
{
    uuid::Uuid::new_v4().simple().to_string()
}

/// Relies on `rand::random`: a uniformly random 32-bit value. Nothing can be
/// promised of it.
#[verifier::external_body]
pub fn random_u32() -> u32 {
    rand::random::<u32>()
}

/// Relies on `rand::random_range`: a uniformly random value below `n`.
/// The call panics on an empty range, so zero is excluded.
#[verifier::external_body]
pub fn random_below(n: u32) -> (r: u32)
    requires
        n > 0,
    ensures
        r < n,
{
    rand::random_range(0..n)
}

/// A reading of the UTC wall clock broken into plain calendar fields.
#[derive(Clone, Copy, Debug, PartialEq, Eq, Structural)]
pub struct ClockReading {
    /// Seconds since the Unix epoch; negative on a host whose clock is set
    /// before 1970. Nothing is promised of it.
    pub epoch_secs: i64,
    /// The calendar year accessor's value carried as an unsigned field: the
    /// calendar year itself while the accessor is non-negative, and its
    /// wrapped cast on a clock set before the common era. The identifier
    /// formats use only its last four decimal digits, so every value
    /// formats. Nothing is promised of it.
    pub year: u32,
    /// Calendar month, 1..=12.
    pub month: u32,
    /// Day of month, 1..=31.
    pub day: u32,
    /// Hour of day, 0..=23.
    pub hour: u32,
    /// Minute, 0..=59.
    pub minute: u32,
    /// Second, 0..=60 (leap seconds included).
    pub second: u32,
}

/// True when the calendar fields of a clock reading sit in their documented
/// ranges. The epoch seconds and the year carry no promise: they are
/// whatever the host clock says.
pub open spec fn spec_clock_reading_wf(c: ClockReading) -> bool {
    &&& 1 <= c.month <= 12
    &&& 1 <= c.day <= 31
    &&& c.hour <= 23
    &&& c.minute <= 59
    &&& c.second <= 60
}

/// Relies on `chrono::Utc::now` and the `Datelike`/`Timelike` accessors,
/// whose documented ranges the contract repeats for month, day, hour,
/// minute and second. The reading itself depends on the system clock, so
/// nothing is promised of the timestamp or the year; a mis-set host clock
/// yields a reading that still satisfies this contract.
#[verifier::external_body]
pub fn clock_now() -> (r: ClockReading)
    ensures
        spec_clock_reading_wf(r),
{
    let now = chrono::Utc::now();
    ClockReading {
        epoch_secs: now.timestamp(),
        year: now.year() as u32,
        month: now.month(),
        day: now.day(),
        hour: now.hour(),
        minute: now.minute(),
        second: now.second(),
    }
}

/// Relies on `chrono::DateTime::from_timestamp`, `chrono-tz`'s
/// `America::Sao_Paulo` zone and `Timelike::hour`: the local hour of day in
/// São Paulo for a Unix timestamp inside the representable window.
#[verifier::external_body]
pub fn sao_paulo_hour(epoch_secs: i64) -> (r: u32)
    requires
        0 <= epoch_secs <= 253_402_300_799,
    ensures
        r <= 23,
{
    let utc = chrono::DateTime::from_timestamp(epoch_secs, 0).unwrap();
    utc.with_timezone(&chrono_tz::America::Sao_Paulo).hour()
}

/// The base64-encoded PNG rendering of a payload's QR code; the image
/// depends on the payload's bytes alone.
pub uninterp spec fn spec_qr_png_base64(payload: Seq<u8>) -> Seq<char>;

/// Relies on `qrcode::QrCode::new` (error correction level M), its
/// `image`-backed renderer, the PNG encoder of the image crate, and base64's
/// standard engine: encodes the payload bytes as a QR code, renders it at
/// 250x250 pixels minimum, and returns the PNG bytes in base64. `QrCode::new`
/// fails only with its too-long error, a function of the payload alone;
/// rendering and PNG-encoding into a memory buffer cannot fail. A payload of
/// at most 1,000 bytes always fits: the segmenter keeps a split only where
/// it is locally cheaper than merging into byte mode, which bounds the
/// encoding at under 15 bits per payload byte, against the 18,672 data bits
/// of version 40 at level M. (The pure byte-mode bound of 2,331 bytes does
/// not hold in general: alternating short digit runs and symbols make the
/// segmenter spend more header bits than byte mode would.)
#[verifier::external_body]
pub fn qr_png_base64(payload: &str) -> (r: Result<String, PaymentError>)
    ensures
        r matches Ok(img) ==> img@ == spec_qr_png_base64(payload.spec_bytes()),
        payload.spec_bytes().len() <= 1_000 ==> r is Ok,
        r matches Err(e) ==> e == PaymentError::QrCodeGenerationFailed,
{
    let code = match qrcode::QrCode::new(payload.as_bytes()) {
        Ok(c) => c,
        Err(_) => return Err(PaymentError::QrCodeGenerationFailed),
    };
    let img = code.render::<image::Luma<u8>>().min_dimensions(250, 250).build();
    let mut buf: Vec<u8> = Vec::new();
    let mut cursor = std::io::Cursor::new(&mut buf);
    if img.write_to(&mut cursor, image::ImageFormat::Png).is_err() {
        return Err(PaymentError::QrCodeGenerationFailed);
    }
    Ok(base64::engine::general_purpose::STANDARD.encode(&buf))
}

} // verus!
