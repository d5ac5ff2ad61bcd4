//! Verified text building blocks: ASCII byte buffers turned into strings,
//! and decimal digit rendering with or without zero padding.

use vstd::prelude::*;
use vstd::string::*;
use crate::documents::spec_ascii_chars;
use crate::external::push_char;

verus! {

/// True when every byte of `b` is ASCII.
pub open spec fn spec_all_ascii(b: Seq<u8>) -> bool {
    forall|i: int| 0 <= i < b.len() ==> #[trigger] b[i] < 128
}

/// Builds the string spelled by a buffer of ASCII bytes.
pub fn ascii_string(bytes: &Vec<u8>) -> (r: String)
    requires
        spec_all_ascii(bytes@),
    ensures
        r@ =~= spec_ascii_chars(bytes@),
{
    let mut out = String::new();
    let n = bytes.len();
    let mut i: usize = 0;
    while i < n
        invariant
            i <= n,
            n == bytes@.len(),
            spec_all_ascii(bytes@),
            out@ =~= spec_ascii_chars(bytes@.take(i as int)),
        decreases n - i,
    {
        push_char(&mut out, bytes[i] as char);
        proof {
            assert(out@ =~= spec_ascii_chars(bytes@.take(i + 1)));
        }
        i = i + 1;
    }
    proof {
        assert(bytes@.take(n as int) =~= bytes@);
    }
    out
}

/// The shortest decimal digit rendering of `n` (a single `0` for zero).
pub open spec fn spec_dec_digits(n: nat) -> Seq<u8>
    decreases n,
{
    if n < 10 {
        seq![(0x30 + n) as u8]
    } else {
        spec_dec_digits(n / 10) + seq![(0x30 + n % 10) as u8]
    }
}

/// The decimal rendering of `n` zero-padded to exactly `width` digits; wider
/// values lose their leading digits.
pub open spec fn spec_dec_padded(n: nat, width: nat) -> Seq<u8>
    decreases width,
{
    if width == 0 {
        Seq::empty()
    } else {
        spec_dec_padded(n / 10, (width - 1) as nat) + seq![(0x30 + n % 10) as u8]
    }
}

/// Appends the decimal digits of `n` to `out`.
pub fn push_dec(out: &mut Vec<u8>, n: u64)
    ensures
        final(out)@ =~= old(out)@ + spec_dec_digits(n as nat),
        spec_all_ascii(old(out)@) ==> spec_all_ascii(final(out)@),
    decreases n,
{
    let ghost prev = out@;
    if n < 10 {
        out.push(0x30 + (n as u8));
        proof {
            lemma_ascii_push(prev, out@, (0x30 + n % 10) as u8);
        }
    } else {
        push_dec(out, n / 10);
        let ghost mid = out@;
        out.push(0x30 + ((n % 10) as u8));
        proof {
            lemma_ascii_push(mid, out@, (0x30 + n % 10) as u8);
        }
    }
}

/// Appends the decimal digits of `n`, zero-padded to `width`, to `out`.
pub fn push_dec_padded(out: &mut Vec<u8>, n: u64, width: usize)
    ensures
        final(out)@ =~= old(out)@ + spec_dec_padded(n as nat, width as nat),
        spec_all_ascii(old(out)@) ==> spec_all_ascii(final(out)@),
    decreases width,
{
    if width > 0 {
        push_dec_padded(out, n / 10, width - 1);
        let ghost mid = out@;
        out.push(0x30 + ((n % 10) as u8));
        proof {
            lemma_ascii_push(mid, out@, (0x30 + n % 10) as u8);
        }
    }
}

/// Appending one ASCII byte to an ASCII buffer keeps it ASCII.
proof fn lemma_ascii_push(prev: Seq<u8>, cur: Seq<u8>, b: u8)
    requires
        cur =~= prev.push(b),
        b < 128,
    ensures
        spec_all_ascii(prev) ==> spec_all_ascii(cur),
{
    if spec_all_ascii(prev) {
        assert forall|i: int| 0 <= i < cur.len() implies #[trigger] cur[i] < 128 by {
            if i < prev.len() {
                assert(cur[i] == prev[i]);
            } else {
                assert(cur[i] == b);
            }
        }
    }
}

/// Appends every byte of `piece` to `out`.
pub fn push_bytes(out: &mut Vec<u8>, piece: &[u8])
    ensures
        final(out)@ =~= old(out)@ + piece@,
        (spec_all_ascii(old(out)@) && spec_all_ascii(piece@)) ==> spec_all_ascii(final(out)@),
{
    let n = piece.len();
    let mut i: usize = 0;
    while i < n
        invariant
            i <= n,
            n == piece@.len(),
            out@ =~= old(out)@ + piece@.take(i as int),
        decreases n - i,
    {
        out.push(piece[i]);
        proof {
            assert(old(out)@ + piece@.take(i + 1) =~= (old(out)@ + piece@.take(i as int)).push(
                piece@[i as int],
            ));
        }
        i = i + 1;
    }
    proof {
        assert(piece@.take(n as int) =~= piece@);
        if spec_all_ascii(old(out)@) && spec_all_ascii(piece@) {
            assert forall|x: int| 0 <= x < out@.len() implies #[trigger] out@[x] < 128 by {
                if x < old(out)@.len() {
                    assert(out@[x] == old(out)@[x]);
                } else {
                    assert(out@[x] == piece@[x - old(out)@.len()]);
                }
            }
        }
    }
}

/// Appends the first `n` bytes of `piece` to `out`.
pub fn push_prefix(out: &mut Vec<u8>, piece: &[u8], n: usize)
    requires
        n <= piece@.len(),
    ensures
        final(out)@ =~= old(out)@ + piece@.take(n as int),
        (spec_all_ascii(old(out)@) && spec_all_ascii(piece@)) ==> spec_all_ascii(final(out)@),
{
    let mut i: usize = 0;
    while i < n
        invariant
            i <= n <= piece@.len(),
            out@ =~= old(out)@ + piece@.take(i as int),
        decreases n - i,
    {
        out.push(piece[i]);
        proof {
            assert(old(out)@ + piece@.take(i + 1) =~= (old(out)@ + piece@.take(i as int)).push(
                piece@[i as int],
            ));
        }
        i = i + 1;
    }
    proof {
        if spec_all_ascii(old(out)@) && spec_all_ascii(piece@) {
            assert forall|x: int| 0 <= x < out@.len() implies #[trigger] out@[x] < 128 by {
                if x < old(out)@.len() {
                    assert(out@[x] == old(out)@[x]);
                } else {
                    assert(out@[x] == piece@.take(n as int)[x - old(out)@.len()]);
                }
            }
        }
    }
}

/// Appends the characters spelled by a buffer of ASCII bytes to a string.
pub fn push_ascii_bytes(s: &mut String, bytes: &[u8])
    requires
        spec_all_ascii(bytes@),
    ensures
        final(s)@ =~= old(s)@ + spec_ascii_chars(bytes@),
{
    let n = bytes.len();
    let mut i: usize = 0;
    while i < n
        invariant
            i <= n,
            n == bytes@.len(),
            spec_all_ascii(bytes@),
            s@ =~= old(s)@ + spec_ascii_chars(bytes@.take(i as int)),
        decreases n - i,
    {
        push_char(s, bytes[i] as char);
        proof {
            assert(old(s)@ + spec_ascii_chars(bytes@.take(i + 1)) =~= (old(s)@ + spec_ascii_chars(
                bytes@.take(i as int),
            )).push(bytes@[i as int] as char));
        }
        i = i + 1;
    }
    proof {
        assert(bytes@.take(n as int) =~= bytes@);
    }
}

/// Appends every character of `piece` to `s`.
pub fn push_str_chars(s: &mut String, piece: &str)
    ensures
        final(s)@ =~= old(s)@ + piece@,
{
    let n = piece.unicode_len();
    let mut i: usize = 0;
    while i < n
        invariant
            i <= n,
            n == piece@.len(),
            s@ =~= old(s)@ + piece@.take(i as int),
        decreases n - i,
    {
        push_char(s, piece.get_char(i));
        proof {
            assert(old(s)@ + piece@.take(i + 1) =~= (old(s)@ + piece@.take(i as int)).push(
                piece@[i as int],
            ));
        }
        i = i + 1;
    }
    proof {
        assert(piece@.take(n as int) =~= piece@);
    }
}

/// ASCII uppercasing of a byte string: lowercase letters lose 32, all other
/// bytes stay.
pub open spec fn spec_upper(b: Seq<u8>) -> Seq<u8> {
    b.map_values(
        |x: u8|
            if 0x61 <= x <= 0x7A {
                (x - 32) as u8
            } else {
                x
            },
    )
}

/// Uppercases the ASCII letters of a byte string.
pub fn upper_bytes(s: &[u8]) -> (r: Vec<u8>)
    ensures
        r@ =~= spec_upper(s@),
{
    let len = s.len();
    let mut out: Vec<u8> = Vec::new();
    let mut i: usize = 0;
    while i < len
        invariant
            i <= len,
            len == s@.len(),
            out@ =~= spec_upper(s@.take(i as int)),
        decreases len - i,
    {
        let b = s[i];
        if b >= 0x61 && b <= 0x7A {
            out.push(b - 32);
        } else {
            out.push(b);
        }
        proof {
            assert(out@ =~= spec_upper(s@.take(i + 1)));
        }
        i = i + 1;
    }
    proof {
        assert(s@.take(len as int) =~= s@);
    }
    out
}

/// True exactly when the two byte strings are equal.
pub fn bytes_equal(a: &[u8], b: &[u8]) -> (r: bool)
    ensures
        r <==> a@ =~= b@,
{
    let n = a.len();
    if n != b.len() {
        return false;
    }
    let mut i: usize = 0;
    while i < n
        invariant
            i <= n,
            n == a@.len() == b@.len(),
            forall|k: int| 0 <= k < i ==> #[trigger] a@[k] == b@[k],
        decreases n - i,
    {
        if a[i] != b[i] {
            return false;
        }
        i = i + 1;
    }
    true
}

/// Concatenating two ASCII byte strings yields an ASCII byte string.
pub proof fn lemma_ascii_concat(a: Seq<u8>, b: Seq<u8>)
    requires
        spec_all_ascii(a),
        spec_all_ascii(b),
    ensures
        spec_all_ascii(a + b),
{
    assert forall|i: int| 0 <= i < (a + b).len() implies #[trigger] (a + b)[i] < 128 by {
        if i < a.len() {
            assert((a + b)[i] == a[i]);
        } else {
            assert((a + b)[i] == b[i - a.len()]);
        }
    }
}

/// A zero-padded decimal rendering is ASCII.
pub proof fn lemma_padded_ascii(n: nat, width: nat)
    ensures
        spec_all_ascii(spec_dec_padded(n, width)),
{
    lemma_dec_padded_are_digits(n, width);
    assert forall|i: int|
        0 <= i < spec_dec_padded(n, width).len() implies #[trigger] spec_dec_padded(n, width)[i]
        < 128 by {
        assert(crate::documents::spec_is_digit(spec_dec_padded(n, width)[i]));
    }
}

/// Every byte of a shortest decimal rendering is an ASCII digit.
pub proof fn lemma_dec_digits_are_digits(n: nat)
    ensures
        forall|i: int|
            0 <= i < spec_dec_digits(n).len() ==> crate::documents::spec_is_digit(
                #[trigger] spec_dec_digits(n)[i],
            ),
    decreases n,
{
    if n >= 10 {
        lemma_dec_digits_are_digits(n / 10);
        let a = spec_dec_digits(n / 10);
        let s = spec_dec_digits(n);
        assert forall|i: int| 0 <= i < s.len() implies crate::documents::spec_is_digit(
            #[trigger] s[i],
        ) by {
            if i < a.len() {
                assert(s[i] == a[i]);
            } else {
                assert(s[i] == (0x30 + n % 10) as u8);
            }
        }
    }
}

/// Every byte of a padded decimal rendering is an ASCII digit.
pub proof fn lemma_dec_padded_are_digits(n: nat, width: nat)
    ensures
        spec_dec_padded(n, width).len() == width,
        forall|i: int|
            0 <= i < width ==> crate::documents::spec_is_digit(
                #[trigger] spec_dec_padded(n, width)[i],
            ),
    decreases width,
{
    if width > 0 {
        lemma_dec_padded_are_digits(n / 10, (width - 1) as nat);
    }
}

} // verus!
