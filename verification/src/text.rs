//! Verified building blocks for rendering numbers, booleans and string
//! literals into byte buffers.
//!
//! Every log row and telemetry message the controller emits is plain ASCII
//! text, so the whole crate renders through these helpers and states its
//! output formats over the spec functions below.

use vstd::prelude::*;

verus! {

/// The bytes of an ASCII string, one byte per character.
pub open spec fn ascii_bytes(s: Seq<char>) -> Seq<u8> {
    Seq::new(s.len(), |i: int| s[i] as u8)
}

/// The decimal rendering of `n`, most significant digit first, with no sign
/// and no leading zeroes (`0` itself renders as a single `0`).
pub open spec fn dec_bytes(n: nat) -> Seq<u8>
    decreases n,
{
    if n < 10 {
        seq![(0x30 + n) as u8]
    } else {
        dec_bytes(n / 10).push((0x30 + n % 10) as u8)
    }
}

/// The rendering of a boolean: `true` or `false`.
pub open spec fn bool_bytes(b: bool) -> Seq<u8> {
    if b {
        ascii_bytes("true"@)
    } else {
        ascii_bytes("false"@)
    }
}

/// Append the bytes of an ASCII string to `buf`.
pub fn push_ascii(buf: &mut Vec<u8>, s: &str)
    requires
        vstd::string::is_ascii(s),
    ensures
        final(buf)@ == old(buf)@ + ascii_bytes(s@),
{
    proof {
        vstd::string::is_ascii_spec_bytes(s);
    }
    let bytes = s.as_bytes();
    buf.extend_from_slice(bytes);
    assert(final(buf)@ =~= old(buf)@ + ascii_bytes(s@));
}

/// Append the decimal rendering of `n` to `buf`.
pub fn push_dec_u64(buf: &mut Vec<u8>, n: u64)
    ensures
        final(buf)@ == old(buf)@ + dec_bytes(n as nat),
    decreases n,
{
    if n >= 10 {
        push_dec_u64(buf, n / 10);
    }
    buf.push(0x30 + (n % 10) as u8);
    assert(final(buf)@ =~= old(buf)@ + dec_bytes(n as nat));
}

/// Append the UTF-8 bytes of an arbitrary string to `buf`.
pub fn push_str_utf8(buf: &mut Vec<u8>, s: &str)
    ensures
        final(buf)@ == old(buf)@ + vstd::utf8::encode_utf8(s@),
{
    let bytes = s.as_bytes();
    buf.extend_from_slice(bytes);
    assert(final(buf)@ =~= old(buf)@ + vstd::utf8::encode_utf8(s@));
}

/// Every byte of a decimal rendering is an ASCII digit.
pub proof fn lemma_dec_bytes_are_digits(n: nat)
    ensures
        forall|i: int|
            0 <= i < dec_bytes(n).len() ==> 0x30 <= #[trigger] dec_bytes(n)[i] <= 0x39,
    decreases n,
{
    if n < 10 {
        assert(dec_bytes(n) == seq![(0x30 + n) as u8]);
    } else {
        lemma_dec_bytes_are_digits(n / 10);
        assert(dec_bytes(n) == dec_bytes(n / 10).push((0x30 + n % 10) as u8));
        assert forall|i: int| 0 <= i < dec_bytes(n).len() implies 0x30 <= #[trigger] dec_bytes(
            n,
        )[i] <= 0x39 by {
            if i < dec_bytes(n / 10).len() {
                assert(dec_bytes(n)[i] == dec_bytes(n / 10)[i]);
            } else {
                assert(dec_bytes(n)[i] == (0x30 + n % 10) as u8);
            }
        }
    }
}

/// Append `true` or `false` to `buf`.
pub fn push_bool(buf: &mut Vec<u8>, b: bool)
    ensures
        final(buf)@ == old(buf)@ + bool_bytes(b),
{
    if b {
        proof {
            reveal_strlit("true");
        }
        push_ascii(buf, "true");
    } else {
        proof {
            reveal_strlit("false");
        }
        push_ascii(buf, "false");
    }
}

} // verus!
