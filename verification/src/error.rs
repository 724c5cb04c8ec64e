//! What can go wrong, one variant for each way the functions fail.

use vstd::prelude::*;
use crate::data::DataType;
use crate::encoding::Encoding;

verus! {

/// The two functions of this library.
#[derive(Clone, Copy, Debug, PartialEq, Eq, Structural)]
pub enum Function {
    Encode,
    Decode,
}

impl Function {
    /// The function's name, as its errors report it.
    pub open spec fn spec_name(self) -> Seq<char> {
        match self {
            Function::Encode => seq!['e', 'n', 'c', 'o', 'd', 'e'],
            Function::Decode => seq!['d', 'e', 'c', 'o', 'd', 'e'],
        }
    }
}

/// Why `encode`, `decode` or their planning rules fail.
#[derive(Debug)]
pub enum EncodingError {
    /// Called with another number of arguments than two (an execution error that names the
    /// function and the number of arguments it was given).
    ArgumentCount(datafusion_common::DataFusionError),
    /// `decode` planned with this number of argument types instead of two (a planning error).
    ArgumentTypeCount(usize),
    /// The type of the second argument is not `Utf8` (a planning error).
    SecondArgumentNotUtf8,
    /// The type of the first argument is none of the string, binary or null types (a
    /// planning error).
    FirstArgumentType,
    /// `encode` cannot give a value for an argument of this type (a planning error).
    ReturnType,
    /// The format names no encoding (a planning error); it holds the name given.
    UnknownEncoding(String),
    /// The format is a scalar but no non-null string (not implemented).
    FormatNotString(Function),
    /// The format is an array rather than a constant (not implemented).
    FormatNotConstant(Function),
    /// The value to work on has a type that the function does not take (an execution
    /// error).
    UnsupportedType(Function, Encoding),
    /// An array is not of the concrete type that was asked for, here the type given (an
    /// internal error).
    CastFailed(DataType),
    /// A scalar is no base64 text (an internal error).
    Base64Value(base64::DecodeError),
    /// A scalar is no hex text (an internal error).
    HexValue(hex::FromHexError),
    /// A value of an array is no base64 text (an internal error).
    Base64Array(base64::DecodeSliceError),
    /// A value of an array is no hex text (an internal error).
    HexArray(hex::FromHexError),
}

} // verus!
