//! The error with which a constructor refuses its parameters.

use vstd::prelude::*;

verus! {

#[verifier::external_type_specification]
#[verifier::external_body]
pub struct ExSimpleError(simple_error::SimpleError);

/// `SimpleError::new` of simple_error, which makes an error that carries
/// `text`. Nothing is claimed of the error that comes back.
#[verifier::external_body]
pub(crate) fn refuse(text: &str) -> (e: simple_error::SimpleError) {
    simple_error::SimpleError::new(text)
}

} // verus!
