//! The library's handler error. A JSON failure inside a handler degrades to
//! a user-visible message; it is never fatal to the process.

use vstd::prelude::*;
use vstd::string::StringExecFns;

verus! {

#[verifier::external_type_specification]
#[verifier::external_body]
pub struct ExSerdeJsonError(serde_json::Error);

/// A business-logic failure surfaced to the dispatcher, which maps it to a
/// visible message envelope.
pub enum HandlerError {
    /// Deserializing from or serializing to JSON failed.
    JsonFailed(serde_json::Error),
}

impl HandlerError {
    /// The user-visible description of the error.
    pub fn message(&self) -> (r: String)
        ensures
            r@ == "Failed to deserialize from or serialize to JSON."@,
    {
        String::from_str("Failed to deserialize from or serialize to JSON.")
    }
}

} // verus!
