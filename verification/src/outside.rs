//! Types of outside crates that values of this library carry through.

use vstd::prelude::*;

verus! {

/// Error of `hex` decoding.
#[verifier::external_type_specification]
#[verifier::external_body]
pub struct ExFromHexError(hex::FromHexError);

/// Error of base64 decoding into a new vector.
#[verifier::external_type_specification]
#[verifier::external_body]
pub struct ExDecodeError(base64::DecodeError);

/// Error of base64 decoding into a given slice.
#[verifier::external_type_specification]
#[verifier::external_body]
pub struct ExDecodeSliceError(base64::DecodeSliceError);

/// Error of the planning and execution engine.
#[verifier::external_type_specification]
#[verifier::external_body]
pub struct ExDataFusionError(datafusion_common::DataFusionError);

/// The signature a planner checks arguments against.
#[verifier::external_type_specification]
#[verifier::external_body]
pub struct ExSignature(datafusion_expr::Signature);

} // verus!
