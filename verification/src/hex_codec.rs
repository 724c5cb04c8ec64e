//! Lowercase hexadecimal text, as the `hex` crate writes and reads it.

use vstd::prelude::*;
use crate::text::{ascii_text, is_ascii_bytes};

verus! {

/// The ASCII code of the lowercase hex digit for `n` (`n < 16`).
pub open spec fn hex_digit(n: u8) -> u8 {
    if n < 10 {
        (48 + n) as u8
    } else {
        (87 + n) as u8
    }
}

/// Two lowercase hex digits per byte, high nibble first.
pub open spec fn hex_encode_spec(v: Seq<u8>) -> Seq<u8> {
    Seq::new(
        2 * v.len(),
        |i: int|
            if i % 2 == 0 {
                hex_digit(v[i / 2] / 16)
            } else {
                hex_digit(v[i / 2] % 16)
            },
    )
}

/// The value of a hex digit of either case.
pub open spec fn hex_value(c: u8) -> Option<u8> {
    if 48 <= c <= 57 {
        Some((c - 48) as u8)
    } else if 65 <= c <= 70 {
        Some((c - 55) as u8)
    } else if 97 <= c <= 102 {
        Some((c - 87) as u8)
    } else {
        None
    }
}

/// An even number of hex digits of either case.
pub open spec fn is_hex_text(s: Seq<u8>) -> bool {
    &&& s.len() % 2 == 0
    &&& forall|i: int| 0 <= i < s.len() ==> #[trigger] hex_value(s[i]) is Some
}

/// The bytes that a hex text stands for, or `None` where it is no hex text.
pub open spec fn hex_decode_spec(s: Seq<u8>) -> Option<Seq<u8>> {
    if is_hex_text(s) {
        Some(
            Seq::new(
                s.len() / 2,
                |i: int| (16 * hex_value(s[2 * i]).unwrap() + hex_value(s[2 * i + 1]).unwrap()) as u8,
            ),
        )
    } else {
        None
    }
}

/// The error `hex::decode` reports for a text that is no hex text; it depends on the text
/// alone.
pub uninterp spec fn spec_hex_decode_error(input: Seq<u8>) -> hex::FromHexError;

/// The error `hex::decode_to_slice` reports for a text and a slice of this length; it
/// depends on them alone.
pub uninterp spec fn spec_hex_decode_to_slice_error(input: Seq<u8>, out_len: nat) -> hex::FromHexError;

/// `hex::encode`: the lowercase hex text of `input`.
/// Claimed of it: each byte becomes two digits of "0123456789abcdef", high nibble first.
/// It panics where the text's length overflows what a `String` can hold, which `requires`
/// leaves out.
#[verifier::external_body]
pub fn hex_encode(input: &[u8]) -> (text: String)
    requires
        2 * input@.len() <= isize::MAX,
    ensures
        text@ == ascii_text(hex_encode_spec(input@)),
{
    hex::encode(input)
}

/// `hex::decode`: the bytes that `input` stands for.
/// Claimed of it: it succeeds exactly on an even number of hex digits of either case, and
/// then yields one byte per pair, high nibble first; its error is a function of the text.
#[verifier::external_body]
pub fn hex_decode_to_vec(input: &[u8]) -> (r: Result<Vec<u8>, hex::FromHexError>)
    ensures
        r is Ok <==> hex_decode_spec(input@) is Some,
        r matches Ok(v) ==> v@ == hex_decode_spec(input@).unwrap(),
        r matches Err(e) ==> e == spec_hex_decode_error(input@),
{
    hex::decode(input)
}

/// `hex::decode_to_slice`: decodes `input` into `out`.
/// Claimed of it: it succeeds exactly when `input` is hex text and `out` has room for
/// exactly half as many bytes, and then `out` holds the decoded bytes; `out` keeps its
/// length in any case; its error is a function of the text and of the slice's length.
#[verifier::external_body]
pub fn hex_decode_to_slice(input: &[u8], out: &mut [u8]) -> (r: Result<(), hex::FromHexError>)
    ensures
        final(out)@.len() == old(out)@.len(),
        r is Ok <==> (hex_decode_spec(input@) is Some && input@.len() / 2 == old(out)@.len()),
        r is Ok ==> final(out)@ == hex_decode_spec(input@).unwrap(),
        r matches Err(e) ==> e == spec_hex_decode_to_slice_error(input@, old(out)@.len()),
{
    hex::decode_to_slice(input, out)
}

/// Hex text is ASCII.
pub proof fn lemma_hex_encode_ascii(v: Seq<u8>)
    ensures
        is_ascii_bytes(hex_encode_spec(v)),
        hex_encode_spec(v).len() == 2 * v.len(),
{
    let e = hex_encode_spec(v);
    assert forall|i: int| 0 <= i < e.len() implies #[trigger] e[i] < 128 by {
        let b = v[i / 2];
        assert(0 <= b / 16 < 16 && 0 <= b % 16 < 16);
    }
}

/// Decoding the hex text of `v` gives back `v`.
pub proof fn lemma_hex_roundtrip(v: Seq<u8>)
    ensures
        hex_decode_spec(hex_encode_spec(v)) == Some(v),
{
    let e = hex_encode_spec(v);
    assert forall|i: int| 0 <= i < e.len() implies #[trigger] hex_value(e[i]) is Some by {
        let b = v[i / 2];
        assert(0 <= b / 16 < 16 && 0 <= b % 16 < 16);
    }
    assert(is_hex_text(e));
    let d = hex_decode_spec(e).unwrap();
    assert forall|i: int| 0 <= i < v.len() implies #[trigger] d[i] == v[i] by {
        let b = v[i];
        assert(e[2 * i] == hex_digit(b / 16));
        assert(e[2 * i + 1] == hex_digit(b % 16));
        assert(hex_value(hex_digit(b / 16)) == Some((b / 16) as u8));
        assert(hex_value(hex_digit(b % 16)) == Some((b % 16) as u8));
    }
    assert(d =~= v);
}

} // verus!
