//! Base64 text over the standard alphabet without padding (RFC 4648), as the `base64`
//! crate's `STANDARD_NO_PAD` engine writes and reads it.

use vstd::prelude::*;
use base64::Engine;
use crate::text::{ascii_text, is_ascii_bytes};

verus! {

/// The ASCII code of the symbol for the 6-bit value `x` in the standard alphabet
/// `A-Z a-z 0-9 + /`.
pub open spec fn base64_symbol(x: int) -> u8 {
    if x < 26 {
        (65 + x) as u8
    } else if x < 52 {
        (71 + x) as u8
    } else if x < 62 {
        (x - 4) as u8
    } else if x == 62 {
        43u8
    } else {
        47u8
    }
}

/// Each group of three bytes becomes four symbols; a final group of one or two bytes
/// becomes two or three symbols, the unused low bits being zero, and no padding follows.
pub open spec fn base64_encode_spec(v: Seq<u8>) -> Seq<u8>
    decreases v.len(),
{
    let a0 = v[0] as int;
    let a1 = v[1] as int;
    let a2 = v[2] as int;
    if v.len() == 0 {
        seq![]
    } else if v.len() == 1 {
        seq![base64_symbol(a0 / 4), base64_symbol((a0 % 4) * 16)]
    } else if v.len() == 2 {
        seq![
            base64_symbol(a0 / 4),
            base64_symbol((a0 % 4) * 16 + a1 / 16),
            base64_symbol((a1 % 16) * 4),
        ]
    } else {
        seq![
            base64_symbol(a0 / 4),
            base64_symbol((a0 % 4) * 16 + a1 / 16),
            base64_symbol((a1 % 16) * 4 + a2 / 64),
            base64_symbol(a2 % 64),
        ] + base64_encode_spec(v.skip(3))
    }
}

/// The length of the base64 text of `n` bytes.
pub open spec fn base64_encoded_len(n: int) -> int {
    4 * (n / 3) + if n % 3 == 0 {
        0
    } else {
        n % 3 + 1
    }
}

/// Whether `s` is the base64 text of some bytes: only symbols of the alphabet, no padding,
/// a length that is not 1 more than a multiple of 4, and zero unused bits at the end.
pub open spec fn is_base64_text(s: Seq<u8>) -> bool {
    exists|v: Seq<u8>| #[trigger] base64_encode_spec(v) == s
}

/// The bytes whose base64 text is `s`, or `None` where `s` is the base64 text of no bytes.
pub open spec fn base64_decode_spec(s: Seq<u8>) -> Option<Seq<u8>> {
    if is_base64_text(s) {
        Some(choose|v: Seq<u8>| #[trigger] base64_encode_spec(v) == s)
    } else {
        None
    }
}

/// What `base64::decoded_len_estimate` computes: three bytes for each started group of
/// four symbols.
pub open spec fn decoded_len_estimate_spec(n: int) -> int {
    3 * (n / 4 + if n % 4 > 0 {
        1int
    } else {
        0
    })
}

/// The error `STANDARD_NO_PAD.decode` reports for a text that is no base64 text; it depends
/// on the text alone.
pub uninterp spec fn spec_base64_decode_error(input: Seq<u8>) -> base64::DecodeError;

/// The error `STANDARD_NO_PAD.decode_slice` reports for a text and an output slice of this
/// length; it depends on them alone.
pub uninterp spec fn spec_base64_decode_slice_error(input: Seq<u8>, out_len: nat) -> base64::DecodeSliceError;

/// `STANDARD_NO_PAD.encode` of the `base64` crate.
/// Claimed of it: the result is the base64 text of `input` over the standard alphabet
/// without padding. It panics where that text is longer than a `String` can hold, which
/// `requires` leaves out.
#[verifier::external_body]
pub fn base64_encode(input: &[u8]) -> (text: String)
    requires
        base64_encoded_len(input@.len() as int) <= isize::MAX,
    ensures
        text@ == ascii_text(base64_encode_spec(input@)),
{
    base64::engine::general_purpose::STANDARD_NO_PAD.encode(input)
}

/// `STANDARD_NO_PAD.decode` of the `base64` crate.
/// Claimed of it: it succeeds exactly on the base64 text of some bytes (canonical, without
/// padding) and then yields those bytes; its error is a function of the text. It first
/// allocates `decoded_len_estimate` bytes, which panics beyond what a vector can hold;
/// `requires` leaves that out.
#[verifier::external_body]
pub fn base64_decode_to_vec(input: &[u8]) -> (r: Result<Vec<u8>, base64::DecodeError>)
    requires
        decoded_len_estimate_spec(input@.len() as int) <= isize::MAX,
    ensures
        r is Ok <==> base64_decode_spec(input@) is Some,
        r matches Ok(v) ==> v@ == base64_decode_spec(input@).unwrap(),
        r matches Err(e) ==> e == spec_base64_decode_error(input@),
{
    base64::engine::general_purpose::STANDARD_NO_PAD.decode(input)
}

/// `STANDARD_NO_PAD.decode_slice` of the `base64` crate.
/// Claimed of it: it succeeds exactly when `input` is the base64 text of some bytes that fit
/// in `output`; it then returns their number, has written them at the start of `output`
/// and left the rest of `output` as it was. `output` keeps its length in any case; what
/// it holds after a failure is not stated. Its error is a function of the text and of the
/// output's length.
#[verifier::external_body]
pub fn base64_decode_to_slice(input: &[u8], output: &mut [u8]) -> (r: Result<
    usize,
    base64::DecodeSliceError,
>)
    ensures
        final(output)@.len() == old(output)@.len(),
        r is Ok <==> (base64_decode_spec(input@) matches Some(v) && v.len() <= old(output)@.len()),
        r matches Ok(n) ==> {
            &&& n == base64_decode_spec(input@).unwrap().len()
            &&& final(output)@.subrange(0, n as int) == base64_decode_spec(input@).unwrap()
            &&& final(output)@.subrange(n as int, old(output)@.len() as int) == old(
                output,
            )@.subrange(n as int, old(output)@.len() as int)
        },
        r matches Err(e) ==> e == spec_base64_decode_slice_error(input@, old(output)@.len()),
{
    base64::engine::general_purpose::STANDARD_NO_PAD.decode_slice(input, output)
}

/// `base64::decoded_len_estimate`: room enough for the bytes of `encoded_len` symbols.
#[verifier::external_body]
pub fn decoded_len_estimate(encoded_len: usize) -> (n: usize)
    ensures
        n == decoded_len_estimate_spec(encoded_len as int),
{
    base64::decoded_len_estimate(encoded_len)
}

/// Symbols stand for 6-bit values one to one, and are ASCII.
pub proof fn lemma_symbol(x: int, y: int)
    requires
        0 <= x < 64,
        0 <= y < 64,
    ensures
        base64_symbol(x) < 128,
        base64_symbol(x) == base64_symbol(y) ==> x == y,
{
}

/// The length of base64 text.
pub proof fn lemma_encoded_len(v: Seq<u8>)
    ensures
        base64_encode_spec(v).len() == base64_encoded_len(v.len() as int),
        v.len() == (3 * base64_encode_spec(v).len()) / 4,
        base64_encode_spec(v).len() % 4 != 1,
    decreases v.len(),
{
    if v.len() >= 3 {
        lemma_encoded_len(v.skip(3));
    }
}

/// Base64 text is ASCII.
pub proof fn lemma_encode_ascii(v: Seq<u8>)
    ensures
        is_ascii_bytes(base64_encode_spec(v)),
    decreases v.len(),
{
    let e = base64_encode_spec(v);
    let a0 = v[0] as int;
    let a1 = v[1] as int;
    let a2 = v[2] as int;
    if v.len() == 0 {
    } else if v.len() < 3 {
        lemma_symbol(a0 / 4, 0);
        lemma_symbol((a0 % 4) * 16, 0);
        if v.len() == 2 {
            lemma_symbol((a0 % 4) * 16 + a1 / 16, 0);
            lemma_symbol((a1 % 16) * 4, 0);
        }
    } else {
        lemma_encode_ascii(v.skip(3));
        lemma_symbol(a0 / 4, 0);
        lemma_symbol((a0 % 4) * 16 + a1 / 16, 0);
        lemma_symbol((a1 % 16) * 4 + a2 / 64, 0);
        lemma_symbol(a2 % 64, 0);
        let rest = base64_encode_spec(v.skip(3));
        assert forall|i: int| 0 <= i < e.len() implies #[trigger] e[i] < 128 by {
            if i >= 4 {
                assert(e[i] == rest[i - 4]);
            }
        }
    }
}

/// The 6-bit groups of one to three bytes determine those bytes.
proof fn lemma_groups_determine_bytes(a0: int, a1: int, a2: int, b0: int, b1: int, b2: int)
    requires
        0 <= a0 < 256,
        0 <= a1 < 256,
        0 <= a2 < 256,
        0 <= b0 < 256,
        0 <= b1 < 256,
        0 <= b2 < 256,
        a0 / 4 == b0 / 4,
        (a0 % 4) * 16 + a1 / 16 == (b0 % 4) * 16 + b1 / 16,
        (a1 % 16) * 4 + a2 / 64 == (b1 % 16) * 4 + b2 / 64,
        a2 % 64 == b2 % 64,
    ensures
        a0 == b0,
        a1 == b1,
        a2 == b2,
{
    assert(a0 % 4 == b0 % 4 && a1 / 16 == b1 / 16);
    assert(a1 % 16 == b1 % 16 && a2 / 64 == b2 / 64);
}

/// Different bytes have different base64 texts.
pub proof fn lemma_encode_injective(v: Seq<u8>, w: Seq<u8>)
    requires
        base64_encode_spec(v) == base64_encode_spec(w),
    ensures
        v == w,
    decreases v.len(),
{
    lemma_encoded_len(v);
    lemma_encoded_len(w);
    let e = base64_encode_spec(v);
    assert(v.len() == w.len());
    if v.len() == 0 {
        assert(v =~= w);
    } else {
        let a0 = v[0] as int;
        let b0 = w[0] as int;
        let a1 = if v.len() > 1 { v[1] as int } else { 0 };
        let b1 = if v.len() > 1 { w[1] as int } else { 0 };
        let a2 = if v.len() > 2 { v[2] as int } else { 0 };
        let b2 = if v.len() > 2 { w[2] as int } else { 0 };
        lemma_symbol(a0 / 4, b0 / 4);
        lemma_symbol((a0 % 4) * 16 + a1 / 16, (b0 % 4) * 16 + b1 / 16);
        if v.len() >= 2 {
            lemma_symbol((a1 % 16) * 4 + a2 / 64, (b1 % 16) * 4 + b2 / 64);
        }
        if v.len() >= 3 {
            lemma_symbol(a2 % 64, b2 % 64);
        }
        if v.len() < 3 {
            assert(e[0] == base64_symbol(a0 / 4));
            assert(e[0] == base64_symbol(b0 / 4));
            assert(e[1] == base64_symbol((a0 % 4) * 16 + a1 / 16));
            assert(e[1] == base64_symbol((b0 % 4) * 16 + b1 / 16));
            if v.len() == 2 {
                assert(e[2] == base64_symbol((a1 % 16) * 4 + a2 / 64));
                assert(e[2] == base64_symbol((b1 % 16) * 4 + b2 / 64));
            }
            lemma_groups_determine_bytes(a0, a1, a2, b0, b1, b2);
            assert(v =~= w);
        } else {
            let rv = base64_encode_spec(v.skip(3));
            let rw = base64_encode_spec(w.skip(3));
            let hv = seq![
                base64_symbol(a0 / 4),
                base64_symbol((a0 % 4) * 16 + a1 / 16),
                base64_symbol((a1 % 16) * 4 + a2 / 64),
                base64_symbol(a2 % 64),
            ];
            let hw = seq![
                base64_symbol(b0 / 4),
                base64_symbol((b0 % 4) * 16 + b1 / 16),
                base64_symbol((b1 % 16) * 4 + b2 / 64),
                base64_symbol(b2 % 64),
            ];
            assert(e == hv + rv);
            assert(e == hw + rw);
            assert(e[0] == hv[0] && e[0] == hw[0]);
            assert(e[1] == hv[1] && e[1] == hw[1]);
            assert(e[2] == hv[2] && e[2] == hw[2]);
            assert(e[3] == hv[3] && e[3] == hw[3]);
            lemma_groups_determine_bytes(a0, a1, a2, b0, b1, b2);
            assert(rv =~= e.skip(4));
            assert(rw =~= e.skip(4));
            lemma_encode_injective(v.skip(3), w.skip(3));
            assert(v =~= seq![v[0], v[1], v[2]] + v.skip(3));
            assert(w =~= seq![w[0], w[1], w[2]] + w.skip(3));
        }
    }
}

/// Decoding the base64 text of `v` gives back `v`.
pub proof fn lemma_base64_roundtrip(v: Seq<u8>)
    ensures
        base64_decode_spec(base64_encode_spec(v)) == Some(v),
{
    let s = base64_encode_spec(v);
    assert(is_base64_text(s));
    let w = choose|w: Seq<u8>| #[trigger] base64_encode_spec(w) == s;
    lemma_encode_injective(v, w);
}

} // verus!
