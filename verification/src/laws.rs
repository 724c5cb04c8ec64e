//! What holds of the functions together: decoding undoes encoding, encoding undoes decoding
//! up to letter case, the planning rules agree with the values produced, and names parse.

use vstd::prelude::*;
use vstd::utf8::encode_utf8;
use crate::base64_codec::{
    base64_encode_spec, base64_symbol, lemma_base64_roundtrip, lemma_encode_ascii,
    lemma_encoded_len,
};
use crate::data::{ByteArray, ColumnarValue, DataType, ScalarValue, opt_string_text, opt_vec_bytes};
use crate::encoding::{encoding_named, Encoding};
use crate::error::EncodingError;
use crate::functions::{decode_outcome, decode_result, encode_outcome, encode_result, format_encoding};
use crate::hex_codec::{hex_encode_spec, hex_value, lemma_hex_encode_ascii, lemma_hex_roundtrip};
use crate::text::{ascii_text, lemma_ascii_text_bytes};
use crate::udf::{
    decode_coerced_type, decode_coercion, encode_coerced_type, encode_coercion, encode_return_type,
};

verus! {

/// A text with its uppercase letters made lowercase.
pub open spec fn to_lowercase(s: Seq<u8>) -> Seq<u8> {
    Seq::new(s.len(), |i: int| if 65 <= s[i] <= 90 { (s[i] + 32) as u8 } else { s[i] })
}

/// The one text of an encoding that stands for the same bytes as `s`: base64 text has no
/// other, hex text is written in lowercase.
pub open spec fn canonical_text(enc: Encoding, s: Seq<u8>) -> Seq<u8> {
    match enc {
        Encoding::Base64 => s,
        Encoding::Hex => to_lowercase(s),
    }
}

/// Decoding the text of any bytes gives back those bytes, in either encoding.
pub proof fn law_decode_inverts_encode(enc: Encoding, v: Seq<u8>)
    ensures
        enc.spec_decode(enc.spec_encode(v)) == Some(v),
{
    lemma_base64_roundtrip(v);
    lemma_hex_roundtrip(v);
}

/// Encoding the bytes that a text stands for gives back that text, written in lowercase
/// where the encoding is hex.
pub proof fn law_encode_inverts_decode(enc: Encoding, s: Seq<u8>)
    ensures
        enc.spec_decode(s) matches Some(v) ==> enc.spec_encode(v) == canonical_text(enc, s),
{
    if let Some(v) = enc.spec_decode(s) {
        if enc == Encoding::Hex {
            let e = hex_encode_spec(v);
            let l = to_lowercase(s);
            assert forall|i: int| 0 <= i < s.len() implies #[trigger] e[i] == l[i] by {
                let k = i / 2;
                assert(v[k] == (16 * hex_value(s[2 * k]).unwrap() + hex_value(
                    s[2 * k + 1],
                ).unwrap()) as u8);
                assert(hex_value(s[2 * k]) is Some);
                assert(hex_value(s[2 * k + 1]) is Some);
                assert(v[k] / 16 == hex_value(s[2 * k]).unwrap());
                assert(v[k] % 16 == hex_value(s[2 * k + 1]).unwrap());
                if i % 2 == 0 {
                    assert(i == 2 * k);
                } else {
                    assert(i == 2 * k + 1);
                }
            }
            assert(e =~= l);
        }
    }
}

/// The text of any bytes is ASCII, so the UTF-8 bytes of the string that holds it are the
/// text itself.
pub proof fn law_text_bytes(enc: Encoding, v: Seq<u8>)
    ensures
        encode_utf8(ascii_text(enc.spec_encode(v))) == enc.spec_encode(v),
{
    lemma_encode_ascii(v);
    lemma_hex_encode_ascii(v);
    lemma_ascii_text_bytes(enc.spec_encode(v));
}

/// Decoding the texts of the values of an array gives back the array.
pub proof fn law_column_roundtrip(enc: Encoding, col: Seq<Option<Seq<u8>>>)
    ensures
        enc.decode_column(enc.encode_column(col)) == Some(col),
{
    let e = enc.encode_column(col);
    assert forall|i: int| 0 <= i < e.len() implies (#[trigger] e[i] matches Some(s)
        ==> enc.spec_decode(s) is Some) by {
        if let Some(v) = col[i] {
            law_decode_inverts_encode(enc, v);
        }
    }
    assert forall|i: int| 0 <= i < col.len() implies #[trigger] enc.decode_column(e).unwrap()[i]
        == col[i] by {
        if let Some(v) = col[i] {
            law_decode_inverts_encode(enc, v);
        }
    }
    assert(enc.decode_column(e).unwrap() =~= col);
}

/// `decode` gives back what `encode` was given: whatever string or binary value `x` is, if
/// encoding it gives `y`, decoding `y` with the same encoding succeeds and holds the same
/// byte strings (the UTF-8 bytes of a string), nulls where `x` has nulls.
pub proof fn law_decode_after_encode(
    enc: Encoding,
    x: ColumnarValue,
    y: ColumnarValue,
    r: Result<ColumnarValue, EncodingError>,
)
    requires
        encode_result(enc, x, Ok(y)),
        decode_result(enc, y, r),
    ensures
        r matches Ok(z) && z.spec_contents() == x.spec_contents(),
{
    match x {
        ColumnarValue::Array(t, a) => {
            law_column_roundtrip(enc, a@);
        },
        ColumnarValue::Scalar(s) => {
            if let Some(Some(b)) = s.spec_bytes_of() {
                law_text_bytes(enc, b);
                law_decode_inverts_encode(enc, b);
                if let ColumnarValue::Scalar(o) = y {
                    assert(o.spec_bytes_of() == Some(Some(enc.spec_encode(b))));
                }
            }
        },
    }
}

/// The value `encode` gives has the type `return_type` announces for the argument's type,
/// except for arrays of the large types, whose texts come back as a `Utf8` array.
pub proof fn law_encode_result_type(enc: Encoding, x: ColumnarValue, y: ColumnarValue)
    requires
        encode_result(enc, x, Ok(y)),
        !(x is Array && (x.spec_data_type() == DataType::LargeUtf8 || x.spec_data_type()
            == DataType::LargeBinary)),
    ensures
        encode_return_type(x.spec_data_type()) == Some(y.spec_data_type()),
{
}

/// The value `decode` gives for an argument of a type it coerces to (a binary type) has the
/// type `return_type` announces, that of the argument, except for a `LargeBinary` array,
/// which comes back as a `Binary` array.
pub proof fn law_decode_result_type(enc: Encoding, x: ColumnarValue, y: ColumnarValue)
    requires
        decode_result(enc, x, Ok(y)),
        x.spec_data_type() == DataType::Binary || x.spec_data_type() == DataType::LargeBinary,
        !(x is Array && x.spec_data_type() == DataType::LargeBinary),
    ensures
        y.spec_data_type() == x.spec_data_type(),
{
}

/// Coercing argument types settles at once: the coerced type of a coerced type is itself,
/// and `encode` has a result type for every type it coerces to.
pub proof fn law_coercion_settles(t: DataType)
    ensures
        encode_coerced_type(t) matches Some(c) ==> encode_coerced_type(c) == Some(c)
            && encode_return_type(c) is Some,
        decode_coerced_type(t) matches Some(c) ==> decode_coerced_type(c) == Some(c),
{
}

/// The name of each encoding parses back to that encoding.
pub proof fn law_name_parses(enc: Encoding)
    ensures
        encoding_named(enc.spec_name()) == Some(enc),
{
    assert(seq!['b', 'a', 's', 'e', '6', '4'] != seq!['h', 'e', 'x']) by {
        assert(seq!['b', 'a', 's', 'e', '6', '4'].len() != seq!['h', 'e', 'x'].len());
    }
}

/// The byte strings of a value with each text replaced by the one text of the encoding that
/// stands for the same bytes.
pub open spec fn canonical_contents(enc: Encoding, c: Option<Seq<Option<Seq<u8>>>>) -> Option<
    Seq<Option<Seq<u8>>>,
> {
    match c {
        Some(col) => Some(
            Seq::new(
                col.len(),
                |i: int|
                    match col[i] {
                        Some(t) => Some(canonical_text(enc, t)),
                        None => None,
                    },
            ),
        ),
        None => None,
    }
}

/// `encode` gives back what `decode` was given: if decoding a string or binary value `x`
/// gives `y`, encoding `y` with the same encoding succeeds and holds the same texts, written
/// in lowercase where the encoding is hex, nulls where `x` has nulls.
pub proof fn law_encode_after_decode(
    enc: Encoding,
    x: ColumnarValue,
    y: ColumnarValue,
    r: Result<ColumnarValue, EncodingError>,
)
    requires
        decode_result(enc, x, Ok(y)),
        encode_result(enc, y, r),
    ensures
        r matches Ok(z) && z.spec_contents() == canonical_contents(enc, x.spec_contents()),
{
    match x {
        ColumnarValue::Array(t, a) => {
            let col = a@;
            let d = enc.decode_column(col).unwrap();
            let e = enc.encode_column(d);
            let c = canonical_contents(enc, Some(col)).unwrap();
            assert forall|i: int| 0 <= i < col.len() implies #[trigger] e[i] == c[i] by {
                if let Some(t) = col[i] {
                    law_encode_inverts_decode(enc, t);
                }
            }
            assert(e =~= c);
        },
        ColumnarValue::Scalar(s) => {
            if let Some(Some(b)) = s.spec_bytes_of() {
                let d = enc.spec_decode(b).unwrap();
                law_encode_inverts_decode(enc, b);
                law_text_bytes(enc, d);
                if let Ok(ColumnarValue::Scalar(o)) = r {
                    assert(o.spec_bytes_of() == Some(Some(enc.spec_encode(d))));
                }
                assert(canonical_contents(enc, x.spec_contents()).unwrap() =~= seq![
                    Some(canonical_text(enc, b)),
                ]);
            } else if let Some(None) = s.spec_bytes_of() {
                assert(canonical_contents(enc, x.spec_contents()).unwrap() =~= seq![None]);
            }
        },
    }
}

/// `decode(encode(x, f), f)` holds the byte strings of `x`, for any format `f` that names an
/// encoding and any string or binary value `x` (the UTF-8 bytes of strings).
pub proof fn law_decode_after_encode_args(
    x: ColumnarValue,
    f: ColumnarValue,
    y: ColumnarValue,
    r: Result<ColumnarValue, EncodingError>,
)
    requires
        encode_outcome(seq![x, f], Ok(y)),
        decode_outcome(seq![y, f], r),
    ensures
        r matches Ok(z) && z.spec_contents() == x.spec_contents(),
{
    let enc = format_encoding(f).unwrap();
    law_decode_after_encode(enc, x, y, r);
}

/// `encode(decode(x, f), f)` holds the texts of `x` as the encoding writes them (hex in
/// lowercase), for any format `f` that names an encoding.
pub proof fn law_encode_after_decode_args(
    x: ColumnarValue,
    f: ColumnarValue,
    y: ColumnarValue,
    r: Result<ColumnarValue, EncodingError>,
)
    requires
        decode_outcome(seq![x, f], Ok(y)),
        encode_outcome(seq![y, f], r),
    ensures
        format_encoding(f) matches Some(enc) && r matches Ok(z) && z.spec_contents()
            == canonical_contents(enc, x.spec_contents()),
{
    let enc = format_encoding(f).unwrap();
    law_encode_after_decode(enc, x, y, r);
}

/// Encoding into a `Utf8` scalar and into a `LargeUtf8` scalar gives the same text.
pub proof fn law_scalar_encodings_agree(
    enc: Encoding,
    input: Option<Seq<u8>>,
    small: ColumnarValue,
    large: ColumnarValue,
)
    requires
        enc.scalar_encoded(input, small, false),
        enc.scalar_encoded(input, large, true),
    ensures
        small matches ColumnarValue::Scalar(ScalarValue::Utf8(a)) && large matches ColumnarValue::Scalar(
            ScalarValue::LargeUtf8(b),
        ) && opt_string_text(a) == opt_string_text(b),
{
}

/// Decoding into a `Binary` scalar and into a `LargeBinary` scalar fails on the same texts
/// and otherwise gives the same bytes.
pub proof fn law_scalar_decodings_agree(
    enc: Encoding,
    input: Option<Seq<u8>>,
    small: Result<ColumnarValue, EncodingError>,
    large: Result<ColumnarValue, EncodingError>,
)
    requires
        enc.scalar_decoded(input, small, false),
        enc.scalar_decoded(input, large, true),
    ensures
        small is Err <==> large is Err,
        small matches Err(e1) ==> large matches Err(e2) && e1 == e2,
        small matches Ok(ColumnarValue::Scalar(ScalarValue::Binary(a))) ==> large matches Ok(
            ColumnarValue::Scalar(ScalarValue::LargeBinary(b)),
        ) && opt_vec_bytes(a) == opt_vec_bytes(b),
{
}

/// Two errors that are the same, an unknown encoding's name taken by its text.
pub open spec fn same_error(e1: EncodingError, e2: EncodingError) -> bool {
    match (e1, e2) {
        (EncodingError::UnknownEncoding(a), EncodingError::UnknownEncoding(b)) => a@ == b@,
        _ => e1 == e2,
    }
}

/// Two outcomes that hold the same values of the same types, laid out alike, or fail alike.
pub open spec fn same_outcome(
    r1: Result<ColumnarValue, EncodingError>,
    r2: Result<ColumnarValue, EncodingError>,
) -> bool {
    match (r1, r2) {
        (Ok(v1), Ok(v2)) => {
            &&& v1.spec_data_type() == v2.spec_data_type()
            &&& v1.spec_contents() == v2.spec_contents()
            &&& (v1 is Array <==> v2 is Array)
            &&& (v1 matches ColumnarValue::Array(_, a) ==> a.is_compact())
            &&& (v2 matches ColumnarValue::Array(_, b) ==> b.is_compact())
        },
        (Err(e1), Err(e2)) => same_error(e1, e2),
        _ => false,
    }
}

/// What `encode` (and so `EncodeFunc::invoke_with_args`) gives depends on its argument values
/// alone: any two results for the same arguments are the same outcome.
pub proof fn law_encode_depends_on_args(
    args: Seq<ColumnarValue>,
    r1: Result<ColumnarValue, EncodingError>,
    r2: Result<ColumnarValue, EncodingError>,
)
    requires
        encode_outcome(args, r1),
        encode_outcome(args, r2),
    ensures
        same_outcome(r1, r2),
{
}

/// What `decode` (and so `DecodeFunc::invoke_with_args`) gives depends on its argument values
/// alone: any two results for the same arguments are the same outcome.
pub proof fn law_decode_depends_on_args(
    args: Seq<ColumnarValue>,
    r1: Result<ColumnarValue, EncodingError>,
    r2: Result<ColumnarValue, EncodingError>,
)
    requires
        decode_outcome(args, r1),
        decode_outcome(args, r2),
    ensures
        same_outcome(r1, r2),
{
}

/// Encoding an array of any string or binary type (`Utf8`, `LargeUtf8`, `Utf8View`, `Binary`,
/// `LargeBinary`) succeeds, in either encoding, with a compact `Utf8` array that has, in
/// order, the text of each value and a null for each null.
pub proof fn law_encode_array(
    enc: Encoding,
    t: DataType,
    a: ByteArray,
    r: Result<ColumnarValue, EncodingError>,
)
    requires
        t == DataType::Utf8 || t == DataType::LargeUtf8 || t == DataType::Utf8View || t
            == DataType::Binary || t == DataType::LargeBinary,
        encode_result(enc, ColumnarValue::Array(t, a), r),
    ensures
        r matches Ok(ColumnarValue::Array(rt, out)) && rt == DataType::Utf8 && out.is_compact()
            && out@.len() == a@.len() && forall|i: int|
            0 <= i < a@.len() ==> #[trigger] out@[i] == match a@[i] {
                Some(v) => Some(enc.spec_encode(v)),
                None => None,
            },
{
}

/// Decoding an array of any string or binary type whose every value is text of the encoding
/// succeeds with a compact `Binary` array that has, in order, the bytes each text stands for
/// and a null for each null.
pub proof fn law_decode_array(
    enc: Encoding,
    t: DataType,
    a: ByteArray,
    r: Result<ColumnarValue, EncodingError>,
)
    requires
        t == DataType::Utf8 || t == DataType::LargeUtf8 || t == DataType::Utf8View || t
            == DataType::Binary || t == DataType::LargeBinary,
        forall|i: int|
            0 <= i < a@.len() ==> (#[trigger] a@[i] matches Some(s) ==> enc.spec_decode(s) is Some),
        decode_result(enc, ColumnarValue::Array(t, a), r),
    ensures
        r matches Ok(ColumnarValue::Array(rt, out)) && rt == DataType::Binary && out.is_compact()
            && out@.len() == a@.len() && forall|i: int|
            0 <= i < a@.len() ==> #[trigger] out@[i] == match a@[i] {
                Some(s) => enc.spec_decode(s),
                None => None,
            },
{
}

/// Decoding an array of any string or binary type fails where one of its values is no text
/// of the encoding.
pub proof fn law_decode_array_fails(
    enc: Encoding,
    t: DataType,
    a: ByteArray,
    i: int,
    r: Result<ColumnarValue, EncodingError>,
)
    requires
        t == DataType::Utf8 || t == DataType::LargeUtf8 || t == DataType::Utf8View || t
            == DataType::Binary || t == DataType::LargeBinary,
        0 <= i < a@.len(),
        a@[i] matches Some(s) && enc.spec_decode(s) is None,
        decode_result(enc, ColumnarValue::Array(t, a), r),
    ensures
        r is Err,
{
}

/// Encoding a null of any string or binary type succeeds with a null string: a `LargeUtf8`
/// null for the large types, a `Utf8` null otherwise.
pub proof fn law_encode_null_scalar(
    enc: Encoding,
    s: ScalarValue,
    r: Result<ColumnarValue, EncodingError>,
)
    requires
        s == ScalarValue::Utf8(None) || s == ScalarValue::LargeUtf8(None) || s
            == ScalarValue::Utf8View(None) || s == ScalarValue::Binary(None) || s
            == ScalarValue::LargeBinary(None),
        encode_result(enc, ColumnarValue::Scalar(s), r),
    ensures
        r matches Ok(ColumnarValue::Scalar(o)),
        (s is LargeUtf8 || s is LargeBinary) ==> (r matches Ok(
            ColumnarValue::Scalar(ScalarValue::LargeUtf8(None)),
        )),
        !(s is LargeUtf8 || s is LargeBinary) ==> (r matches Ok(
            ColumnarValue::Scalar(ScalarValue::Utf8(None)),
        )),
{
}

/// Encoding a binary scalar succeeds with a string scalar of the text of its bytes: a
/// `LargeUtf8` one for `LargeBinary`, a `Utf8` one for `Binary`.
pub proof fn law_encode_binary_scalar(
    enc: Encoding,
    s: ScalarValue,
    w: Vec<u8>,
    r: Result<ColumnarValue, EncodingError>,
)
    requires
        s == ScalarValue::Binary(Some(w)) || s == ScalarValue::LargeBinary(Some(w)),
        encode_result(enc, ColumnarValue::Scalar(s), r),
    ensures
        s is Binary ==> (r matches Ok(ColumnarValue::Scalar(ScalarValue::Utf8(Some(x)))) && x@
            == ascii_text(enc.spec_encode(w@))),
        s is LargeBinary ==> (r matches Ok(ColumnarValue::Scalar(ScalarValue::LargeUtf8(Some(x))))
            && x@ == ascii_text(enc.spec_encode(w@))),
{
}

/// Encoding a string scalar succeeds with a string scalar of the text of its UTF-8 bytes: a
/// `LargeUtf8` one for `LargeUtf8`, a `Utf8` one for `Utf8` and `Utf8View`.
pub proof fn law_encode_string_scalar(
    enc: Encoding,
    s: ScalarValue,
    x: String,
    r: Result<ColumnarValue, EncodingError>,
)
    requires
        s == ScalarValue::Utf8(Some(x)) || s == ScalarValue::LargeUtf8(Some(x)) || s
            == ScalarValue::Utf8View(Some(x)),
        encode_result(enc, ColumnarValue::Scalar(s), r),
    ensures
        s is LargeUtf8 ==> (r matches Ok(ColumnarValue::Scalar(ScalarValue::LargeUtf8(Some(y))))
            && y@ == ascii_text(enc.spec_encode(encode_utf8(x@)))),
        !(s is LargeUtf8) ==> (r matches Ok(ColumnarValue::Scalar(ScalarValue::Utf8(Some(y)))) && y@
            == ascii_text(enc.spec_encode(encode_utf8(x@)))),
{
}

/// Decoding a binary scalar whose bytes are text of the encoding succeeds with the bytes the
/// text stands for: a `LargeBinary` scalar for `LargeBinary`, a `Binary` one for `Binary`.
pub proof fn law_decode_binary_scalar(
    enc: Encoding,
    s: ScalarValue,
    w: Vec<u8>,
    d: Seq<u8>,
    r: Result<ColumnarValue, EncodingError>,
)
    requires
        s == ScalarValue::Binary(Some(w)) || s == ScalarValue::LargeBinary(Some(w)),
        enc.spec_decode(w@) == Some(d),
        decode_result(enc, ColumnarValue::Scalar(s), r),
    ensures
        s is Binary ==> (r matches Ok(ColumnarValue::Scalar(ScalarValue::Binary(Some(y)))) && y@
            == d),
        s is LargeBinary ==> (r matches Ok(ColumnarValue::Scalar(ScalarValue::LargeBinary(Some(y))))
            && y@ == d),
{
}

/// Decoding a string scalar whose UTF-8 bytes are text of the encoding succeeds with the
/// bytes the text stands for: a `LargeBinary` scalar for `LargeUtf8`, a `Binary` one for
/// `Utf8` and `Utf8View`.
pub proof fn law_decode_string_scalar(
    enc: Encoding,
    s: ScalarValue,
    x: String,
    d: Seq<u8>,
    r: Result<ColumnarValue, EncodingError>,
)
    requires
        s == ScalarValue::Utf8(Some(x)) || s == ScalarValue::LargeUtf8(Some(x)) || s
            == ScalarValue::Utf8View(Some(x)),
        enc.spec_decode(encode_utf8(x@)) == Some(d),
        decode_result(enc, ColumnarValue::Scalar(s), r),
    ensures
        s is LargeUtf8 ==> (r matches Ok(ColumnarValue::Scalar(ScalarValue::LargeBinary(Some(y))))
            && y@ == d),
        !(s is LargeUtf8) ==> (r matches Ok(ColumnarValue::Scalar(ScalarValue::Binary(Some(y))))
            && y@ == d),
{
}

/// Decoding a null of any string or binary type succeeds with a null: a `LargeBinary` null
/// for the large types, a `Binary` null otherwise.
pub proof fn law_decode_null_scalar(
    enc: Encoding,
    s: ScalarValue,
    r: Result<ColumnarValue, EncodingError>,
)
    requires
        s == ScalarValue::Utf8(None) || s == ScalarValue::LargeUtf8(None) || s
            == ScalarValue::Utf8View(None) || s == ScalarValue::Binary(None) || s
            == ScalarValue::LargeBinary(None),
        decode_result(enc, ColumnarValue::Scalar(s), r),
    ensures
        (s is LargeUtf8 || s is LargeBinary) ==> (r matches Ok(
            ColumnarValue::Scalar(ScalarValue::LargeBinary(None)),
        )),
        !(s is LargeUtf8 || s is LargeBinary) ==> (r matches Ok(
            ColumnarValue::Scalar(ScalarValue::Binary(None)),
        )),
{
}

/// Decoding a binary scalar whose bytes are no text of the encoding fails.
pub proof fn law_decode_bad_binary_scalar_fails(
    enc: Encoding,
    s: ScalarValue,
    w: Vec<u8>,
    r: Result<ColumnarValue, EncodingError>,
)
    requires
        s == ScalarValue::Binary(Some(w)) || s == ScalarValue::LargeBinary(Some(w)),
        enc.spec_decode(w@) is None,
        decode_result(enc, ColumnarValue::Scalar(s), r),
    ensures
        r is Err,
{
}

/// Decoding a string scalar whose UTF-8 bytes are no text of the encoding fails.
pub proof fn law_decode_bad_string_scalar_fails(
    enc: Encoding,
    s: ScalarValue,
    x: String,
    r: Result<ColumnarValue, EncodingError>,
)
    requires
        s == ScalarValue::Utf8(Some(x)) || s == ScalarValue::LargeUtf8(Some(x)) || s
            == ScalarValue::Utf8View(Some(x)),
        enc.spec_decode(encode_utf8(x@)) is None,
        decode_result(enc, ColumnarValue::Scalar(s), r),
    ensures
        r is Err,
{
}

/// `encode` and `decode` with a format that names an encoding do what encoding or decoding
/// the first argument with that encoding does.
pub proof fn law_functions_use_named_encoding(
    x: ColumnarValue,
    f: ColumnarValue,
    enc: Encoding,
    r1: Result<ColumnarValue, EncodingError>,
    r2: Result<ColumnarValue, EncodingError>,
)
    requires
        format_encoding(f) == Some(enc),
        encode_outcome(seq![x, f], r1),
        decode_outcome(seq![x, f], r2),
    ensures
        encode_result(enc, x, r1),
        decode_result(enc, x, r2),
{
}

/// A `Utf8` format scalar that holds the name of an encoding names that encoding.
pub proof fn law_format_names_encoding(enc: Encoding, name: String)
    requires
        name@ == enc.spec_name(),
    ensures
        format_encoding(ColumnarValue::Scalar(ScalarValue::Utf8(Some(name)))) == Some(enc),
{
    law_name_parses(enc);
}

/// `encode` plans a binary first argument as itself (its bytes are encoded as they are,
/// never read as a string), a string one as the string type of the same width, and
/// `Utf8View` or `Null` as `Utf8`; the format stays `Utf8`.
pub proof fn law_encode_coercion(t: DataType, r: Result<Vec<DataType>, EncodingError>)
    requires
        t != DataType::Other,
        encode_coercion(seq![t, DataType::Utf8], r),
    ensures
        r matches Ok(v) && v@.len() == 2 && v@[1] == DataType::Utf8,
        (t == DataType::Binary || t == DataType::LargeBinary || t == DataType::Utf8 || t
            == DataType::LargeUtf8) ==> (r matches Ok(v) && v@[0] == t),
        (t == DataType::Utf8View || t == DataType::Null) ==> (r matches Ok(v) && v@[0]
            == DataType::Utf8),
{
}

/// `decode` plans its first argument as binary data: `LargeBinary` for the large types,
/// `Binary` for the others; the format stays `Utf8`.
pub proof fn law_decode_coercion(t: DataType, r: Result<Vec<DataType>, EncodingError>)
    requires
        t != DataType::Other,
        decode_coercion(seq![t, DataType::Utf8], r),
    ensures
        r matches Ok(v) && v@.len() == 2 && v@[1] == DataType::Utf8,
        (t == DataType::LargeUtf8 || t == DataType::LargeBinary) ==> (r matches Ok(v) && v@[0]
            == DataType::LargeBinary),
        !(t == DataType::LargeUtf8 || t == DataType::LargeBinary) ==> (r matches Ok(v) && v@[0]
            == DataType::Binary),
{
}

/// Whether `c` is the ASCII code of a symbol of the standard base64 alphabet
/// `A-Z a-z 0-9 + /` (so never the padding `=`).
pub open spec fn is_base64_alphabet(c: u8) -> bool {
    (65 <= c <= 90) || (97 <= c <= 122) || (48 <= c <= 57) || c == 43 || c == 47
}

/// Each 6-bit value has a symbol of the alphabet.
proof fn lemma_symbol_in_alphabet(x: int)
    requires
        0 <= x < 64,
    ensures
        is_base64_alphabet(base64_symbol(x)),
{
}

/// The base64 text of `n` bytes has `4 * (n / 3)` symbols plus 2 or 3 for a final group of
/// 1 or 2 bytes, and no padding: every one is a symbol of the standard alphabet.
pub proof fn law_base64_text(v: Seq<u8>)
    ensures
        Encoding::Base64.spec_encode(v).len() == 4 * (v.len() / 3) + if v.len() % 3 == 0 {
            0
        } else {
            v.len() % 3 + 1
        },
        forall|i: int|
            0 <= i < Encoding::Base64.spec_encode(v).len() ==> is_base64_alphabet(
                #[trigger] Encoding::Base64.spec_encode(v)[i],
            ),
    decreases v.len(),
{
    lemma_encoded_len(v);
    let e = base64_encode_spec(v);
    let a0 = v[0] as int;
    let a1 = v[1] as int;
    let a2 = v[2] as int;
    if v.len() == 0 {
    } else if v.len() < 3 {
        lemma_symbol_in_alphabet(a0 / 4);
        lemma_symbol_in_alphabet((a0 % 4) * 16);
        if v.len() == 2 {
            lemma_symbol_in_alphabet((a0 % 4) * 16 + a1 / 16);
            lemma_symbol_in_alphabet((a1 % 16) * 4);
        }
    } else {
        law_base64_text(v.skip(3));
        lemma_symbol_in_alphabet(a0 / 4);
        lemma_symbol_in_alphabet((a0 % 4) * 16 + a1 / 16);
        lemma_symbol_in_alphabet((a1 % 16) * 4 + a2 / 64);
        lemma_symbol_in_alphabet(a2 % 64);
        let rest = base64_encode_spec(v.skip(3));
        assert forall|i: int| 0 <= i < e.len() implies is_base64_alphabet(#[trigger] e[i]) by {
            if i >= 4 {
                assert(e[i] == rest[i - 4]);
            }
        }
    }
}

/// The hex text of `n` bytes has `2 * n` digits, each a digit `0-9` or a lowercase letter
/// `a-f`, and the two digits at `2 * k` and `2 * k + 1` read as a number are byte `k`.
pub proof fn law_hex_text(v: Seq<u8>)
    ensures
        Encoding::Hex.spec_encode(v).len() == 2 * v.len(),
        forall|i: int|
            0 <= i < 2 * v.len() ==> {
                let c = #[trigger] Encoding::Hex.spec_encode(v)[i];
                (48 <= c <= 57) || (97 <= c <= 102)
            },
        forall|k: int|
            0 <= k < v.len() ==> 16 * hex_value(Encoding::Hex.spec_encode(v)[2 * k]).unwrap()
                + hex_value(Encoding::Hex.spec_encode(v)[2 * k + 1]).unwrap() == #[trigger] v[k],
{
    let e = hex_encode_spec(v);
    assert forall|i: int| 0 <= i < 2 * v.len() implies {
        let c = #[trigger] e[i];
        (48 <= c <= 57) || (97 <= c <= 102)
    } by {
        let b = v[i / 2];
        assert(0 <= b / 16 < 16 && 0 <= b % 16 < 16);
    }
    assert forall|k: int| 0 <= k < v.len() implies 16 * hex_value(e[2 * k]).unwrap() + hex_value(
        e[2 * k + 1],
    ).unwrap() == #[trigger] v[k] by {
        let b = v[k];
        assert((2 * k) / 2 == k && (2 * k + 1) / 2 == k);
        assert((2 * k) % 2 == 0 && (2 * k + 1) % 2 == 1);
        assert(0 <= b / 16 < 16 && 0 <= b % 16 < 16);
        assert(16 * (b / 16) + b % 16 == b);
    }
}

} // verus!
