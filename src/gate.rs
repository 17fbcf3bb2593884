use vstd::prelude::*;

use crate::codec::{json_quote, json_string_of};
use crate::crypto::{persona_hex, persona_text};
use crate::error::KvError;

verus! {

/// What the authorization service said about a proposed mutation.
#[derive(Debug, Clone, Copy, PartialEq, Eq, Structural)]
pub enum GateVerdict {
    /// The persona controls the identity: the mutation may go on.
    Allow,
    /// The service explicitly refused.
    Deny,
    /// No usable answer: a network fault, a timeout or a malformed reply.
    Unavailable,
}

/// The body of a request to the authorization service.
pub open spec fn gate_request_text(persona: Seq<u8>, platform: Seq<char>, identity: Seq<char>) -> Seq<
    char,
> {
    "{\"persona\":\""@ + persona_text(persona) + "\",\"platform\":"@ + json_string_of(platform)
        + ",\"identity\":"@ + json_string_of(identity) + "}"@
}

/// Builds what is sent to the authorization service: the persona's key and
/// the claimed identity, as a JSON object.
pub fn gate_request_body(persona: &[u8], platform: &str, identity: &str) -> (r: String)
    ensures
        r@ == gate_request_text(persona@, platform@, identity@),
{
    let p = persona_hex(persona);
    let pl = json_quote(platform);
    let id = json_quote(identity);
    let mut s = String::from_str("{\"persona\":\"");
    s.append(p.as_str());
    s.append("\",\"platform\":");
    s.append(pl.as_str());
    s.append(",\"identity\":");
    s.append(id.as_str());
    s.append("}");
    s
}

/// The error a verdict stops a proposal with, if it stops it.
pub open spec fn verdict_error(v: GateVerdict) -> Option<KvError> {
    match v {
        GateVerdict::Allow => None,
        GateVerdict::Deny => Some(KvError::NotAuthorized),
        GateVerdict::Unavailable => Some(KvError::UpstreamUnavailable),
    }
}

/// Reads the service's answer: `None` when no answer came back, else
/// whether it allowed the mutation.
pub fn verdict_from_response(allowed: Option<bool>) -> (r: GateVerdict)
    ensures
        r == (match allowed {
            None => GateVerdict::Unavailable,
            Some(true) => GateVerdict::Allow,
            Some(false) => GateVerdict::Deny,
        }),
{
    match allowed {
        None => GateVerdict::Unavailable,
        Some(true) => GateVerdict::Allow,
        Some(false) => GateVerdict::Deny,
    }
}

/// Succeeds only on an explicit allow; a denial and a missing answer stay
/// distinct errors.
pub fn authorize(v: GateVerdict) -> (r: Result<(), KvError>)
    ensures
        match verdict_error(v) {
            None => r is Ok,
            Some(e) => r == Err::<(), KvError>(e),
        },
{
    match v {
        GateVerdict::Allow => Ok(()),
        GateVerdict::Deny => Err(KvError::NotAuthorized),
        GateVerdict::Unavailable => Err(KvError::UpstreamUnavailable),
    }
}

} // verus!
