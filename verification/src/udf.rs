//! The two scalar functions as the planner sees them: their names, signatures, result
//! types and the types their arguments are coerced to.

use vstd::prelude::*;
use crate::data::{ColumnarValue, DataType};
use crate::error::{EncodingError, Function};
use crate::functions::{
    argument_count_error, can_decode_args, can_encode_args, decode, decode_outcome, encode,
    encode_outcome, take_function_args,
};

verus! {

/// How a function's result may change between calls with the same arguments.
#[derive(Clone, Copy, Debug, PartialEq, Eq, Structural)]
pub enum Volatility {
    Immutable,
    Stable,
    Volatile,
}

/// The signature `datafusion_expr::Signature::user_defined` makes for a volatility: one whose
/// argument types the function coerces itself. It depends on the volatility alone.
pub uninterp spec fn spec_user_defined_signature(volatility: Volatility) -> datafusion_expr::Signature;

/// `datafusion_expr::Signature::user_defined`: a signature whose argument types the function
/// coerces itself. Claimed of it: its value depends on the volatility alone (it builds the
/// signature from its argument and nothing else); the value itself is opaque here.
#[verifier::external_body]
fn user_defined_signature(volatility: Volatility) -> (sig: datafusion_expr::Signature)
    ensures
        sig == spec_user_defined_signature(volatility),
{
    datafusion_expr::Signature::user_defined(
        match volatility {
            Volatility::Immutable => datafusion_expr::Volatility::Immutable,
            Volatility::Stable => datafusion_expr::Volatility::Stable,
            Volatility::Volatile => datafusion_expr::Volatility::Volatile,
        },
    )
}

/// The type of the result of `encode` on a first argument of type `t`.
pub open spec fn encode_return_type(t: DataType) -> Option<DataType> {
    match t {
        DataType::Utf8 => Some(DataType::Utf8),
        DataType::LargeUtf8 => Some(DataType::LargeUtf8),
        DataType::Utf8View => Some(DataType::Utf8),
        DataType::Binary => Some(DataType::Utf8),
        DataType::LargeBinary => Some(DataType::LargeUtf8),
        DataType::Null => Some(DataType::Null),
        DataType::Other => None,
    }
}

/// The type that `encode` coerces a first argument of type `t` to.
pub open spec fn encode_coerced_type(t: DataType) -> Option<DataType> {
    match t {
        DataType::Utf8 | DataType::Utf8View | DataType::Null => Some(DataType::Utf8),
        DataType::LargeUtf8 => Some(DataType::LargeUtf8),
        DataType::Binary => Some(DataType::Binary),
        DataType::LargeBinary => Some(DataType::LargeBinary),
        DataType::Other => None,
    }
}

/// The type that `decode` coerces a first argument of type `t` to.
pub open spec fn decode_coerced_type(t: DataType) -> Option<DataType> {
    match t {
        DataType::Utf8 | DataType::Utf8View | DataType::Binary | DataType::Null => Some(
            DataType::Binary,
        ),
        DataType::LargeUtf8 | DataType::LargeBinary => Some(DataType::LargeBinary),
        DataType::Other => None,
    }
}

/// What `EncodeFunc::coerce_types` gives for the argument types: it needs two, the second
/// `Utf8`, and coerces the first as `encode_coerced_type` says.
pub open spec fn encode_coercion(arg_types: Seq<DataType>, r: Result<Vec<DataType>, EncodingError>) -> bool {
    &&& arg_types.len() != 2 ==> r == Err::<Vec<DataType>, EncodingError>(
        argument_count_error(Function::Encode, arg_types.len()),
    )
    &&& arg_types.len() == 2 && arg_types[1] != DataType::Utf8 ==> (r matches Err(e) && e
        == EncodingError::SecondArgumentNotUtf8)
    &&& arg_types.len() == 2 && arg_types[1] == DataType::Utf8 ==> match encode_coerced_type(
        arg_types[0],
    ) {
        Some(t) => r matches Ok(v) && v@ == seq![t, DataType::Utf8],
        None => r matches Err(e) && e == EncodingError::FirstArgumentType,
    }
}

/// What `DecodeFunc::coerce_types` gives for the argument types: it needs two, the second
/// `Utf8`, and coerces the first as `decode_coerced_type` says.
pub open spec fn decode_coercion(arg_types: Seq<DataType>, r: Result<Vec<DataType>, EncodingError>) -> bool {
    &&& arg_types.len() != 2 ==> r == Err::<Vec<DataType>, EncodingError>(
        EncodingError::ArgumentTypeCount(arg_types.len() as usize),
    )
    &&& arg_types.len() == 2 && arg_types[1] != DataType::Utf8 ==> (r matches Err(e) && e
        == EncodingError::SecondArgumentNotUtf8)
    &&& arg_types.len() == 2 && arg_types[1] == DataType::Utf8 ==> match decode_coerced_type(
        arg_types[0],
    ) {
        Some(t) => r matches Ok(v) && v@ == seq![t, DataType::Utf8],
        None => r matches Err(e) && e == EncodingError::FirstArgumentType,
    }
}

/// The `encode` function: binary or string data to its textual representation.
#[derive(Debug)]
pub struct EncodeFunc {
    signature: datafusion_expr::Signature,
}

impl Default for EncodeFunc {
    fn default() -> (r: Self)
        ensures
            r.spec_signature() == spec_user_defined_signature(Volatility::Immutable),
    {
        Self::new()
    }
}

impl EncodeFunc {
    /// The signature the function holds.
    pub closed spec fn spec_signature(&self) -> datafusion_expr::Signature {
        self.signature
    }

    /// The function, with a user-defined, immutable signature.
    pub fn new() -> (r: Self)
        ensures
            r.spec_signature() == spec_user_defined_signature(Volatility::Immutable),
    {
        Self { signature: user_defined_signature(Volatility::Immutable) }
    }

    /// The function's name.
    pub fn name(&self) -> (r: &'static str)
        ensures
            r@ == Function::Encode.spec_name(),
    {
        proof {
            reveal_strlit("encode");
        }
        "encode"
    }

    /// The function's signature.
    pub fn signature(&self) -> (r: &datafusion_expr::Signature)
        ensures
            *r == self.spec_signature(),
    {
        &self.signature
    }

    /// The type of the result for the given argument types.
    pub fn return_type(&self, arg_types: &[DataType]) -> (r: Result<DataType, EncodingError>)
        requires
            arg_types@.len() >= 1,
        ensures
            match encode_return_type(arg_types@[0]) {
                Some(t) => r == Ok::<DataType, EncodingError>(t),
                None => r matches Err(e) && e == EncodingError::ReturnType,
            },
    {
        match arg_types[0] {
            DataType::Utf8 => Ok(DataType::Utf8),
            DataType::LargeUtf8 => Ok(DataType::LargeUtf8),
            DataType::Utf8View => Ok(DataType::Utf8),
            DataType::Binary => Ok(DataType::Utf8),
            DataType::LargeBinary => Ok(DataType::LargeUtf8),
            DataType::Null => Ok(DataType::Null),
            _ => Err(EncodingError::ReturnType),
        }
    }

    /// Runs the function on its arguments.
    pub fn invoke_with_args(&self, args: &[ColumnarValue]) -> (r: Result<ColumnarValue, EncodingError>)
        requires
            can_encode_args(args@),
        ensures
            encode_outcome(args@, r),
    {
        encode(args)
    }

    /// The types the arguments are coerced to: the first to a string or binary type, the
    /// second (the format) must already be `Utf8`.
    pub fn coerce_types(&self, arg_types: &[DataType]) -> (r: Result<Vec<DataType>, EncodingError>)
        ensures
            encode_coercion(arg_types@, r),
    {
        let (expression, format) = match take_function_args(self.name(), arg_types) {
            Ok(p) => p,
            Err(e) => return Err(EncodingError::ArgumentCount(e)),
        };
        if *format != DataType::Utf8 {
            return Err(EncodingError::SecondArgumentNotUtf8);
        }
        match expression {
            DataType::Utf8 | DataType::Utf8View | DataType::Null => Ok(
                vec![DataType::Utf8, DataType::Utf8],
            ),
            DataType::LargeUtf8 => Ok(vec![DataType::LargeUtf8, DataType::Utf8]),
            DataType::Binary => Ok(vec![DataType::Binary, DataType::Utf8]),
            DataType::LargeBinary => Ok(vec![DataType::LargeBinary, DataType::Utf8]),
            _ => Err(EncodingError::FirstArgumentType),
        }
    }
}

/// The `decode` function: textual representation back to binary data.
#[derive(Debug)]
pub struct DecodeFunc {
    signature: datafusion_expr::Signature,
}

impl Default for DecodeFunc {
    fn default() -> (r: Self)
        ensures
            r.spec_signature() == spec_user_defined_signature(Volatility::Immutable),
    {
        Self::new()
    }
}

impl DecodeFunc {
    /// The signature the function holds.
    pub closed spec fn spec_signature(&self) -> datafusion_expr::Signature {
        self.signature
    }

    /// The function, with a user-defined, immutable signature.
    pub fn new() -> (r: Self)
        ensures
            r.spec_signature() == spec_user_defined_signature(Volatility::Immutable),
    {
        Self { signature: user_defined_signature(Volatility::Immutable) }
    }

    /// The function's name.
    pub fn name(&self) -> (r: &'static str)
        ensures
            r@ == Function::Decode.spec_name(),
    {
        proof {
            reveal_strlit("decode");
        }
        "decode"
    }

    /// The function's signature.
    pub fn signature(&self) -> (r: &datafusion_expr::Signature)
        ensures
            *r == self.spec_signature(),
    {
        &self.signature
    }

    /// The type of the result: that of the first argument.
    pub fn return_type(&self, arg_types: &[DataType]) -> (r: Result<DataType, EncodingError>)
        requires
            arg_types@.len() >= 1,
        ensures
            r == Ok::<DataType, EncodingError>(arg_types@[0]),
    {
        Ok(arg_types[0])
    }

    /// Runs the function on its arguments.
    pub fn invoke_with_args(&self, args: &[ColumnarValue]) -> (r: Result<ColumnarValue, EncodingError>)
        requires
            can_decode_args(args@),
        ensures
            decode_outcome(args@, r),
    {
        decode(args)
    }

    /// The types the arguments are coerced to: the first to a binary type, the second (the
    /// format) must already be `Utf8`.
    pub fn coerce_types(&self, arg_types: &[DataType]) -> (r: Result<Vec<DataType>, EncodingError>)
        ensures
            decode_coercion(arg_types@, r),
    {
        if arg_types.len() != 2 {
            return Err(EncodingError::ArgumentTypeCount(arg_types.len()));
        }
        if arg_types[1] != DataType::Utf8 {
            return Err(EncodingError::SecondArgumentNotUtf8);
        }
        match arg_types[0] {
            DataType::Utf8 | DataType::Utf8View | DataType::Binary | DataType::Null => Ok(
                vec![DataType::Binary, DataType::Utf8],
            ),
            DataType::LargeUtf8 | DataType::LargeBinary => Ok(
                vec![DataType::LargeBinary, DataType::Utf8],
            ),
            _ => Err(EncodingError::FirstArgumentType),
        }
    }
}

} // verus!
