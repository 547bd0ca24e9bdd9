//! Reading a cached role object: the one place the core inspects a role is
//! to ask whether it is the guild's implicit "everyone" role, which it
//! detects by the role's display name. (Detection by name is fragile if the
//! role were renamed; the platform does not rename the implicit role, and
//! the observed behaviour is preserved here.)

use vstd::prelude::*;
use vstd::string::StringExecFns;

use crate::error::HandlerError;

verus! {

/// The `name` field of the role object that the JSON text `s` describes, or
/// nothing when `s` does not describe a role object. A function of the text
/// alone.
pub uninterp spec fn parsed_role_name(s: Seq<char>) -> Option<Seq<char>>;

/// Relies on serde_json::from_str for twilight_model::guild::Role: whether
/// the text parses, and the parsed name, depend on the text alone.
#[verifier::external_body]
fn role_name_from_json(s: &str) -> (r: Result<String, serde_json::Error>)
    ensures
        r is Ok <==> parsed_role_name(s@) is Some,
        r matches Ok(name) ==> parsed_role_name(s@) == Some(name@),
{
    match serde_json::from_str::<twilight_model::guild::Role>(s) {
        Ok(role) => Ok(role.name),
        Err(e) => Err(e),
    }
}

/// Whether the serialized role object `role_json` names the guild's implicit
/// "everyone" role. A malformed object is a handler error, surfaced to the
/// caller.
pub fn is_default_role(role_json: &String) -> (r: Result<bool, HandlerError>)
    ensures
        r is Ok <==> parsed_role_name(role_json@) is Some,
        r matches Ok(b) ==> b == (parsed_role_name(role_json@) == Some("@everyone"@)),
{
    match role_name_from_json(role_json.as_str()) {
        Ok(name) => Ok(name == String::from_str("@everyone")),
        Err(e) => Err(HandlerError::JsonFailed(e)),
    }
}

} // verus!
