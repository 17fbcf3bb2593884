use vstd::prelude::*;

use crate::codec::{base64_encode, base64_text, decimal, int_text, json_quote, json_string_of};
use crate::crypto::{persona_hex, persona_text};

verus! {

/// The canonical payload, from the already-rendered text of each field.
/// Keys come in a fixed order and nothing is re-formatted.
pub open spec fn assembled_payload(
    persona: Seq<char>,
    platform: Seq<char>,
    identity: Seq<char>,
    patch: Seq<char>,
    previous: Seq<char>,
    external_id: Seq<char>,
    created_at: Seq<char>,
) -> Seq<char> {
    "{\"persona\":\""@ + persona + "\",\"platform\":"@ + platform + ",\"identity\":"@ + identity
        + ",\"patch\":"@ + patch + ",\"previous\":"@ + previous + ",\"uuid\":"@ + external_id
        + ",\"created_at\":"@ + created_at + "}"@
}

/// The `previous` field: `null` for a first link, else the previous
/// signature in base64, quoted.
pub open spec fn previous_text(previous: Option<Seq<u8>>) -> Seq<char> {
    match previous {
        None => "null"@,
        Some(sig) => "\""@ + base64_text(sig) + "\""@,
    }
}

/// The canonical payload of a chain link, from its field values.
#[verifier::opaque]
pub open spec fn payload_text(
    persona: Seq<u8>,
    platform: Seq<char>,
    identity: Seq<char>,
    patch: Seq<char>,
    previous: Option<Seq<u8>>,
    external_id: Seq<char>,
    created_at: int,
) -> Seq<char> {
    assembled_payload(
        persona_text(persona),
        json_string_of(platform),
        json_string_of(identity),
        patch,
        previous_text(previous),
        json_string_of(external_id),
        int_text(created_at),
    )
}

/// The view of an optional byte slice.
pub open spec fn opt_bytes(o: Option<&[u8]>) -> Option<Seq<u8>> {
    match o {
        Some(b) => Some(b@),
        None => None,
    }
}

/// Concatenates rendered fields into the canonical payload layout.
pub fn assemble_payload(
    persona: &str,
    platform: &str,
    identity: &str,
    patch: &str,
    previous: &str,
    external_id: &str,
    created_at: &str,
) -> (r: String)
    ensures
        r@ == assembled_payload(
            persona@,
            platform@,
            identity@,
            patch@,
            previous@,
            external_id@,
            created_at@,
        ),
{
    let mut s = String::from_str("{\"persona\":\"");
    s.append(persona);
    s.append("\",\"platform\":");
    s.append(platform);
    s.append(",\"identity\":");
    s.append(identity);
    s.append(",\"patch\":");
    s.append(patch);
    s.append(",\"previous\":");
    s.append(previous);
    s.append(",\"uuid\":");
    s.append(external_id);
    s.append(",\"created_at\":");
    s.append(created_at);
    s.append("}");
    s
}

/// Renders the `previous` field from the previous link's signature.
pub fn previous_field(previous: Option<&[u8]>) -> (r: String)
    ensures
        r@ == previous_text(opt_bytes(previous)),
{
    match previous {
        None => String::from_str("null"),
        Some(sig) => {
            let mut s = String::from_str("\"");
            let b = base64_encode(sig);
            s.append(b.as_str());
            s.append("\"");
            s
        },
    }
}

/// Builds the canonical payload that the persona signs for a chain link.
pub fn build_payload(
    persona: &[u8],
    platform: &str,
    identity: &str,
    patch: &str,
    previous: Option<&[u8]>,
    external_id: &str,
    created_at: i64,
) -> (r: String)
    ensures
        r@ == payload_text(
            persona@,
            platform@,
            identity@,
            patch@,
            opt_bytes(previous),
            external_id@,
            created_at as int,
        ),
{
    proof {
        reveal(payload_text);
    }
    let p = persona_hex(persona);
    let pl = json_quote(platform);
    let id = json_quote(identity);
    let prev = previous_field(previous);
    let ext = json_quote(external_id);
    let at = decimal(created_at);
    assemble_payload(
        p.as_str(),
        pl.as_str(),
        id.as_str(),
        patch,
        prev.as_str(),
        ext.as_str(),
        at.as_str(),
    )
}

/// Payload construction is deterministic: equal field values give
/// byte-identical payloads, so a stored payload can always be recomputed.
pub proof fn lemma_payload_deterministic(
    persona: Seq<u8>,
    platform: Seq<char>,
    identity: Seq<char>,
    patch: Seq<char>,
    previous: Option<Seq<u8>>,
    external_id: Seq<char>,
    created_at: int,
    r1: Seq<char>,
    r2: Seq<char>,
)
    requires
        r1 == payload_text(persona, platform, identity, patch, previous, external_id, created_at),
        r2 == payload_text(persona, platform, identity, patch, previous, external_id, created_at),
    ensures
        r1 == r2,
{
}

} // verus!
