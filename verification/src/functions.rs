//! `encode` and `decode` on their arguments: the format picks the encoding, and the value is
//! encoded or decoded according to its type.

use vstd::prelude::*;
use crate::data::{
    is_byte_type, opt_bytes, opt_text_bytes, opt_vec_bytes, binary_bytes, utf8_text,
    ColumnarValue, DataType, OffsetSize, ScalarValue,
};
use crate::encoding::{encoding_named, Encoding};
use crate::error::{EncodingError, Function};

verus! {

/// The error `take_function_args` reports when a function named `function_name` that needs
/// two arguments is given `count`: an execution error whose message names the function, the
/// two arguments needed and the count given. It depends on the two alone, as
/// `datafusion-common` is built here without its `backtrace` feature, the one thing that
/// would append more to the message.
pub uninterp spec fn spec_take_function_args_error(function_name: Seq<char>, count: nat) -> datafusion_common::DataFusionError;

/// `datafusion_common::utils::take_function_args` for two arguments.
/// Claimed of it: it succeeds exactly when there are two arguments, and then hands them out
/// in order; otherwise its error is the one named for the function's name and the number of
/// arguments.
#[verifier::external_body]
pub(crate) fn take_function_args<'a, T>(function_name: &str, args: &'a [T]) -> (r: Result<
    (&'a T, &'a T),
    datafusion_common::DataFusionError,
>)
    ensures
        r is Ok <==> args@.len() == 2,
        r matches Ok(p) ==> *p.0 == args@[0] && *p.1 == args@[1],
        r matches Err(e) ==> e == spec_take_function_args_error(function_name@, args@.len()),
{
    let [a, b] = datafusion_common::utils::take_function_args::<2, &T>(function_name, args)?;
    Ok((a, b))
}

/// Whether the text of every string or binary value in `v` fits in memory.
pub open spec fn can_encode_value(enc: Encoding, v: ColumnarValue) -> bool {
    match v {
        ColumnarValue::Array(t, a) => is_byte_type(t) ==> enc.can_encode_column(a@),
        ColumnarValue::Scalar(s) => s.spec_bytes_of() matches Some(Some(b)) ==> enc.can_encode(
            b.len() as int,
        ),
    }
}

/// Whether a scalar text to decode is no longer than a slice can be.
pub open spec fn can_decode_value(v: ColumnarValue) -> bool {
    match v {
        ColumnarValue::Array(_, _) => true,
        ColumnarValue::Scalar(s) => s.spec_bytes_of() matches Some(Some(b)) ==> b.len()
            <= isize::MAX,
    }
}

/// What encoding `value` gives: a string or binary array (string views included) becomes a
/// compact `Utf8` array of the texts of its values; a string or binary scalar becomes a string scalar (`LargeUtf8` for the large types, `Utf8` otherwise) of
/// its text; anything else is refused.
pub open spec fn encode_result(enc: Encoding, value: ColumnarValue, r: Result<
    ColumnarValue,
    EncodingError,
>) -> bool {
    match value {
        ColumnarValue::Array(t, a) => if is_byte_type(t) {
            r matches Ok(ColumnarValue::Array(rt, out)) && rt == DataType::Utf8 && out@
                == enc.encode_column(a@) && out.is_compact()
        } else {
            r matches Err(e) && e == EncodingError::UnsupportedType(Function::Encode, enc)
        },
        ColumnarValue::Scalar(s) => match s.spec_bytes_of() {
            Some(b) => r matches Ok(ColumnarValue::Scalar(out)) && utf8_text(out, s.is_large())
                == Some(enc.encode_opt(b)),
            None => r matches Err(e) && e == EncodingError::UnsupportedType(Function::Encode, enc),
        },
    }
}

/// What decoding `value` gives: a string or binary array (string views included) becomes a
/// compact `Binary` array of the bytes its texts stand for; a string or binary scalar becomes a binary scalar (`LargeBinary` for the large types,
/// `Binary` otherwise); a text that stands for no bytes fails; anything else is refused.
pub open spec fn decode_result(enc: Encoding, value: ColumnarValue, r: Result<
    ColumnarValue,
    EncodingError,
>) -> bool {
    match value {
        ColumnarValue::Array(t, a) => if is_byte_type(t) {
            match enc.decode_column(a@) {
                Some(col) => r matches Ok(ColumnarValue::Array(rt, out)) && rt == DataType::Binary
                    && out@ == col && out.is_compact(),
                None => r matches Err(e) && e == enc.array_error(a@, enc.buffer_bound(a.buffer_len())),
            }
        } else {
            r matches Err(e) && e == EncodingError::UnsupportedType(Function::Decode, enc)
        },
        ColumnarValue::Scalar(s) => match s.spec_bytes_of() {
            Some(b) => match enc.decode_opt(b) {
                Some(out) => r matches Ok(ColumnarValue::Scalar(o)) && binary_bytes(o, s.is_large())
                    == Some(out),
                None => r matches Err(e) && b matches Some(t) && e == enc.value_error(t),
            },
            None => r matches Err(e) && e == EncodingError::UnsupportedType(Function::Decode, enc),
        },
    }
}

/// The encoding that the format argument names, where it is a constant string that names one.
pub open spec fn format_encoding(format: ColumnarValue) -> Option<Encoding> {
    match format {
        ColumnarValue::Scalar(s) => match s.spec_try_as_str() {
            Some(Some(name)) => encoding_named(name),
            _ => None,
        },
        ColumnarValue::Array(_, _) => None,
    }
}

/// How a format argument that names no encoding is refused: an unknown name is reported
/// with the name, a scalar that is no non-null string and an array each have their error.
pub open spec fn format_error(f: Function, format: ColumnarValue, e: EncodingError) -> bool {
    match format {
        ColumnarValue::Scalar(s) => match s.spec_try_as_str() {
            Some(Some(name)) => e matches EncodingError::UnknownEncoding(n) && n@ == name,
            _ => e == EncodingError::FormatNotString(f),
        },
        ColumnarValue::Array(_, _) => e == EncodingError::FormatNotConstant(f),
    }
}

/// The error a function reports when it is given `count` arguments instead of two.
pub open spec fn argument_count_error(f: Function, count: nat) -> EncodingError {
    EncodingError::ArgumentCount(spec_take_function_args_error(f.spec_name(), count))
}

/// What `encode` gives for its arguments: it needs two; the second must name an encoding,
/// with which the first is encoded.
pub open spec fn encode_outcome(args: Seq<ColumnarValue>, r: Result<ColumnarValue, EncodingError>) -> bool {
    &&& args.len() != 2 ==> r == Err::<ColumnarValue, EncodingError>(
        argument_count_error(Function::Encode, args.len()),
    )
    &&& args.len() == 2 ==> match format_encoding(args[1]) {
        Some(enc) => encode_result(enc, args[0], r),
        None => r matches Err(e) && format_error(Function::Encode, args[1], e),
    }
}

/// What `decode` gives for its arguments: it needs two; the second must name an encoding,
/// from which the first is decoded.
pub open spec fn decode_outcome(args: Seq<ColumnarValue>, r: Result<ColumnarValue, EncodingError>) -> bool {
    &&& args.len() != 2 ==> r == Err::<ColumnarValue, EncodingError>(
        argument_count_error(Function::Decode, args.len()),
    )
    &&& args.len() == 2 ==> match format_encoding(args[1]) {
        Some(enc) => decode_result(enc, args[0], r),
        None => r matches Err(e) && format_error(Function::Decode, args[1], e),
    }
}

/// Whether the texts that `encode` would write for these arguments fit in memory.
pub open spec fn can_encode_args(args: Seq<ColumnarValue>) -> bool {
    args.len() == 2 ==> (format_encoding(args[1]) matches Some(enc) ==> can_encode_value(
        enc,
        args[0],
    ))
}

/// Whether the scalar text that `decode` would read for these arguments fits in a slice.
pub open spec fn can_decode_args(args: Seq<ColumnarValue>) -> bool {
    args.len() == 2 ==> can_decode_value(args[0])
}

/// The bytes of an optional string.
fn text_bytes(a: &Option<String>) -> (r: Option<&[u8]>)
    ensures
        opt_bytes(r) == opt_text_bytes(*a),
{
    match a {
        Some(s) => Some(s.as_str().as_bytes()),
        None => None,
    }
}

/// The bytes of an optional byte vector.
fn vec_bytes(a: &Option<Vec<u8>>) -> (r: Option<&[u8]>)
    ensures
        opt_bytes(r) == opt_vec_bytes(*a),
{
    match a {
        Some(v) => Some(v.as_slice()),
        None => None,
    }
}

/// Encodes a value with the given encoding.
pub fn encode_process(value: &ColumnarValue, encoding: Encoding) -> (r: Result<
    ColumnarValue,
    EncodingError,
>)
    requires
        can_encode_value(encoding, *value),
    ensures
        encode_result(encoding, *value, r),
{
    match value {
        ColumnarValue::Array(t, a) => match t {
            DataType::Utf8 => encoding.encode_utf8_array(*t, a, OffsetSize::I32),
            DataType::LargeUtf8 => encoding.encode_utf8_array(*t, a, OffsetSize::I64),
            DataType::Utf8View => Ok(encoding.encode_utf8_view_array(a)),
            DataType::Binary => encoding.encode_binary_array(*t, a, OffsetSize::I32),
            DataType::LargeBinary => encoding.encode_binary_array(*t, a, OffsetSize::I64),
            _ => Err(EncodingError::UnsupportedType(Function::Encode, encoding)),
        },
        ColumnarValue::Scalar(scalar) => match scalar {
            ScalarValue::Utf8(a) => Ok(encoding.encode_scalar(text_bytes(a))),
            ScalarValue::LargeUtf8(a) => Ok(encoding.encode_large_scalar(text_bytes(a))),
            ScalarValue::Utf8View(a) => Ok(encoding.encode_scalar(text_bytes(a))),
            ScalarValue::Binary(a) => Ok(encoding.encode_scalar(vec_bytes(a))),
            ScalarValue::LargeBinary(a) => Ok(encoding.encode_large_scalar(vec_bytes(a))),
            _ => Err(EncodingError::UnsupportedType(Function::Encode, encoding)),
        },
    }
}

/// Decodes a value with the given encoding.
pub fn decode_process(value: &ColumnarValue, encoding: Encoding) -> (r: Result<
    ColumnarValue,
    EncodingError,
>)
    requires
        can_decode_value(*value),
    ensures
        decode_result(encoding, *value, r),
{
    match value {
        ColumnarValue::Array(t, a) => match t {
            DataType::Utf8 => encoding.decode_utf8_array(*t, a, OffsetSize::I32),
            DataType::LargeUtf8 => encoding.decode_utf8_array(*t, a, OffsetSize::I64),
            DataType::Utf8View => encoding.decode_utf8_view_array(a),
            DataType::Binary => encoding.decode_binary_array(*t, a, OffsetSize::I32),
            DataType::LargeBinary => encoding.decode_binary_array(*t, a, OffsetSize::I64),
            _ => Err(EncodingError::UnsupportedType(Function::Decode, encoding)),
        },
        ColumnarValue::Scalar(scalar) => match scalar {
            ScalarValue::Utf8(a) => encoding.decode_scalar(text_bytes(a)),
            ScalarValue::LargeUtf8(a) => encoding.decode_large_scalar(text_bytes(a)),
            ScalarValue::Utf8View(a) => encoding.decode_scalar(text_bytes(a)),
            ScalarValue::Binary(a) => encoding.decode_scalar(vec_bytes(a)),
            ScalarValue::LargeBinary(a) => encoding.decode_large_scalar(vec_bytes(a)),
            _ => Err(EncodingError::UnsupportedType(Function::Decode, encoding)),
        },
    }
}

/// The encoding that the format argument names.
fn format_to_encoding(f: Function, format: &ColumnarValue) -> (r: Result<Encoding, EncodingError>)
    ensures
        match format_encoding(*format) {
            Some(enc) => r == Ok::<Encoding, EncodingError>(enc),
            None => r matches Err(e) && format_error(f, *format, e),
        },
{
    match format {
        ColumnarValue::Scalar(scalar) => match scalar.try_as_str() {
            Some(Some(method)) => Encoding::from_str(method),
            _ => Err(EncodingError::FormatNotString(f)),
        },
        ColumnarValue::Array(_, _) => Err(EncodingError::FormatNotConstant(f)),
    }
}

/// Encodes the first argument in the encoding that the second names (`base64` or `hex`).
pub fn encode(args: &[ColumnarValue]) -> (r: Result<ColumnarValue, EncodingError>)
    requires
        can_encode_args(args@),
    ensures
        encode_outcome(args@, r),
{
    let name = "encode";
    proof {
        reveal_strlit("encode");
        assert(name@ =~= Function::Encode.spec_name());
    }
    let (expression, format) = match take_function_args(name, args) {
        Ok(p) => p,
        Err(e) => return Err(EncodingError::ArgumentCount(e)),
    };
    let encoding = match format_to_encoding(Function::Encode, format) {
        Ok(enc) => enc,
        Err(e) => return Err(e),
    };
    encode_process(expression, encoding)
}

/// Decodes the first argument from the encoding that the second names (`base64` or `hex`).
pub fn decode(args: &[ColumnarValue]) -> (r: Result<ColumnarValue, EncodingError>)
    requires
        can_decode_args(args@),
    ensures
        decode_outcome(args@, r),
{
    let name = "decode";
    proof {
        reveal_strlit("decode");
        assert(name@ =~= Function::Decode.spec_name());
    }
    let (expression, format) = match take_function_args(name, args) {
        Ok(p) => p,
        Err(e) => return Err(EncodingError::ArgumentCount(e)),
    };
    let encoding = match format_to_encoding(Function::Decode, format) {
        Ok(enc) => enc,
        Err(e) => return Err(e),
    };
    decode_process(expression, encoding)
}

} // verus!
