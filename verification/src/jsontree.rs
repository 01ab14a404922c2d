//! Declares the outside codec's tree type, so that values of it can pass
//! through signatures in the boundary shims.
use vstd::prelude::*;

verus! {

#[verifier::external_type_specification]
#[verifier::external_body]
pub struct ExJsonValue(serde_json::Value);

} // verus!
