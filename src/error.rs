//! Errors of the conversion between messenger and Matrix identities.

use vstd::prelude::*;

verus! {

/// anyhow's error type, carried unopened as the cause of a conversion error.
#[verifier::external_type_specification]
#[verifier::external_body]
pub struct ExAnyhowError(anyhow::Error);

/// Why a messenger identity could not be turned into a Matrix one.
#[derive(Debug)]
pub enum MatrixConversionError {
    /// The e-mail address has no Matrix user id.
    EmailToMatrixId { email: String, source: anyhow::Error },
    /// No device id could be generated.
    DeviceIdGeneration { source: anyhow::Error },
}

} // verus!
