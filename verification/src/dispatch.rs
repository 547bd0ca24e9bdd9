//! The dispatcher's decision logic, one request end-to-end: a liveness probe
//! is acknowledged at once; a command invocation is resolved against the
//! tree, gated, and handed to its handler; every handler failure degrades to
//! a user-visible reply, never a crash.

use vstd::prelude::*;

use crate::envelope::{is_plain_message, plain_message, ResponseEnvelope};
use crate::options::{CommandDataOption, Interaction};
use crate::resolver::{resolve, spec_resolve};
use crate::tree::CommandTree;

verus! {

/// What the dispatcher decides for one interaction: either respond at once,
/// or invoke the selected handler with the rewritten option list.
pub enum DispatchStep {
    Respond(ResponseEnvelope),
    Invoke { handler: u64, options: Vec<CommandDataOption> },
}

/// Decides one interaction. A `Ping` always yields a `Pong` envelope with no
/// data, regardless of the tree's contents; a command invocation that fails
/// to resolve yields a visible "Command not found" message; one that
/// resolves is handed on for invocation.
pub fn dispatch(interaction: Interaction, tree: &CommandTree) -> (r: DispatchStep)
    ensures
        interaction is Ping ==> r == DispatchStep::Respond(ResponseEnvelope::Pong),
        interaction matches Interaction::ApplicationCommand(inv) ==> (match spec_resolve(
            tree,
            inv.name@,
            inv.options@,
        ) {
            Some(found) => r matches DispatchStep::Invoke { handler, options }
                && handler == found.0 && options@ == found.1,
            None => r matches DispatchStep::Respond(e) && is_plain_message(
                e,
                "Command not found"@,
            ),
        }),
{
    match interaction {
        Interaction::Ping => DispatchStep::Respond(ResponseEnvelope::Pong),
        Interaction::ApplicationCommand(inv) => {
            match resolve(tree, &inv.name, inv.options) {
                Some(found) => DispatchStep::Invoke { handler: found.0, options: found.1 },
                None => DispatchStep::Respond(plain_message("Command not found".to_owned())),
            }
        },
    }
}

/// Turns the pre-command check's answer into the next step: a refused
/// command gets a visible "Command is disabled" message and its handler is
/// never invoked; an allowed one proceeds.
pub fn gate_response(allowed: bool) -> (r: Option<ResponseEnvelope>)
    ensures
        allowed ==> r is None,
        !allowed ==> (r matches Some(e) && is_plain_message(e, "Command is disabled"@)),
{
    if allowed {
        None
    } else {
        Some(plain_message("Command is disabled".to_owned()))
    }
}

/// Maps a handler's outcome to the response envelope: a successful envelope
/// is returned verbatim; a failure becomes a visible message carrying the
/// error's display text.
pub fn completion(result: Result<ResponseEnvelope, String>) -> (r: ResponseEnvelope)
    ensures
        result matches Ok(e) ==> r == e,
        result matches Err(msg) ==> is_plain_message(r, msg@),
{
    match result {
        Ok(envelope) => envelope,
        Err(why) => plain_message(why),
    }
}

} // verus!
