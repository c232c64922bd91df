//! The per-request dispatcher.
//!
//! A request is verified against the configured public key, decoded into a
//! typed interaction, classified, and routed: a ping is acknowledged
//! directly; an application command is looked up in the registry under its
//! canonical dispatch key; everything else is unsupported. Each terminal
//! outcome maps to one HTTP status and a fixed body; a resolved handler is
//! handed back to the caller for invocation, together with the command
//! data.

use vstd::prelude::*;

use crate::auth::{request_authentic, verify_request, VerifierKey};
use crate::decode::{data_matches, decode_interaction, decode_ok, decoded_key, json_doc,
    json_field, kind_of, lemma_data_matches_key, INTERACTION_KIND_AUTOCOMPLETE,
    INTERACTION_KIND_COMMAND, INTERACTION_KIND_COMPONENT, INTERACTION_KIND_PING};
use crate::encode::{envelope_bytes, envelope_bytes_spec, HttpResponse, ResponseEnvelope,
    RESPONSE_KIND_PONG};
use crate::model::{CommandData, Interaction};
use crate::registry::CommandRegistry;

verus! {

/// Where one request ended up: a terminal outcome, or a resolved handler
/// to invoke with the command data. The not-found outcome carries the
/// attempted key and the unsupported outcome the raw type code, so the
/// caller can log them; neither detail goes into the response body.
pub enum Routed<'a, H> {
    /// Authentication failed; nothing was decoded.
    Unauthorized,
    /// The authenticated body did not decode to an interaction.
    DecodeFailed,
    /// A ping: acknowledge, without consulting the registry.
    Pong,
    /// No handler is registered under the attempted dispatch key.
    NotFound(Vec<u8>),
    /// An interaction kind this router does not handle, with its type code.
    Unsupported(u64),
    /// The registered handler to invoke with the command data.
    Invoke(&'a H, CommandData),
}

/// How a classified interaction must be routed against a registry: a ping
/// is acknowledged without a lookup; an application command resolves to the
/// handler under its dispatch key, or to not-found carrying that key; the
/// remaining kinds are unsupported, carrying their type code.
pub open spec fn routes_interaction<'a, H>(
    registry: Map<Seq<u8>, H>,
    interaction: Interaction,
    r: Routed<'a, H>,
) -> bool {
    match interaction {
        Interaction::Ping => r is Pong,
        Interaction::ApplicationCommand(data) => if registry.contains_key(data.key_spec()) {
            r matches Routed::Invoke(h, d) && *h == registry[data.key_spec()] && d == data
        } else {
            r matches Routed::NotFound(key) && key@ == data.key_spec()
        },
        Interaction::MessageComponent => r matches Routed::Unsupported(code) && code
            == INTERACTION_KIND_COMPONENT,
        Interaction::ApplicationCommandAutocomplete => r matches Routed::Unsupported(code)
            && code == INTERACTION_KIND_AUTOCOMPLETE,
        Interaction::Unknown(kind) => r matches Routed::Unsupported(code) && code == kind,
    }
}

/// Classifies a decoded interaction and resolves its handler.
pub fn dispatch<'a, H>(registry: &'a CommandRegistry<H>, interaction: Interaction) -> (r: Routed<
    'a,
    H,
>)
    requires
        registry.wf(),
    ensures
        routes_interaction(registry@, interaction, r),
{
    match interaction {
        Interaction::Ping => Routed::Pong,
        Interaction::ApplicationCommand(data) => {
            let key = data.dispatch_key();
            match registry.lookup(&key) {
                Some(handler) => Routed::Invoke(handler, data),
                None => Routed::NotFound(key),
            }
        },
        Interaction::MessageComponent => Routed::Unsupported(INTERACTION_KIND_COMPONENT),
        Interaction::ApplicationCommandAutocomplete => Routed::Unsupported(
            INTERACTION_KIND_AUTOCOMPLETE,
        ),
        Interaction::Unknown(kind) => Routed::Unsupported(kind),
    }
}

/// The outcome an authentic request with these body bytes must get: a
/// failed decode is reported; a ping is acknowledged; an application
/// command resolves to the handler under the dispatch key the bytes
/// denote, or to not-found carrying that key; every other type code is
/// unsupported, carrying the code.
pub open spec fn routed_for<'a, H>(
    registry: Map<Seq<u8>, H>,
    bytes: Seq<u8>,
    r: Routed<'a, H>,
) -> bool {
    if !decode_ok(bytes) {
        r is DecodeFailed
    } else {
        let kind = kind_of(json_doc(bytes))->Some_0;
        if kind == INTERACTION_KIND_PING {
            r is Pong
        } else if kind == INTERACTION_KIND_COMMAND {
            let dv = json_field(json_doc(bytes), "data"@)->Some_0;
            if registry.contains_key(decoded_key(bytes)) {
                r matches Routed::Invoke(h, d) && *h == registry[decoded_key(bytes)] && d.wf()
                    && data_matches(dv, d)
            } else {
                r matches Routed::NotFound(key) && key@ == decoded_key(bytes)
            }
        } else {
            r matches Routed::Unsupported(code) && code == kind
        }
    }
}

/// Handles one request: verification, then decoding, then dispatch, in
/// that order. The raw body bytes are the ones verified; decoding sees
/// them only after authentication. An unauthentic request is rejected
/// without decoding, whatever its body holds.
pub fn route_request<'a, H>(
    registry: &'a CommandRegistry<H>,
    key: &VerifierKey,
    timestamp: Option<&Vec<u8>>,
    signature: Option<&Vec<u8>>,
    body: &Vec<u8>,
) -> (r: Routed<'a, H>)
    requires
        registry.wf(),
        key.wf(),
    ensures
        (r is Unauthorized) <==> !request_authentic(
            key@,
            match timestamp {
                Some(t) => Some(t@),
                None => None,
            },
            match signature {
                Some(s) => Some(s@),
                None => None,
            },
            body@,
        ),
        !(r is Unauthorized) ==> routed_for(registry@, body@, r),
{
    if !verify_request(key, timestamp, signature, body) {
        return Routed::Unauthorized;
    }
    let interaction = match decode_interaction(body) {
        Some(interaction) => interaction,
        None => {
            return Routed::DecodeFailed;
        },
    };
    let ghost decoded = interaction;
    let r = dispatch(registry, interaction);
    proof {
        assert(routes_interaction(registry@, decoded, r));
        match decoded {
            Interaction::ApplicationCommand(data) => {
                lemma_data_matches_key(body@, data);
                assert(routed_for(registry@, body@, r));
            },
            _ => {
                assert(routed_for(registry@, body@, r));
            },
        }
    }
    r
}

/// The 401 body: no detail is leaked.
pub open spec fn unauthorized_body() -> Seq<u8> {
    seq![85u8, 110u8, 97u8, 117u8, 116u8, 104u8, 111u8, 114u8, 105u8, 122u8, 101u8, 100u8, 46u8]
}

/// The 400 body for a failed decode.
pub open spec fn decode_failed_body() -> Seq<u8> {
    seq![
        69u8,
        114u8,
        114u8,
        111u8,
        114u8,
        32u8,
        100u8,
        101u8,
        115u8,
        101u8,
        114u8,
        105u8,
        97u8,
        108u8,
        105u8,
        122u8,
        105u8,
        110u8,
        103u8,
        32u8,
        105u8,
        110u8,
        116u8,
        101u8,
        114u8,
        97u8,
        99u8,
        116u8,
        105u8,
        111u8,
        110u8,
    ]
}

/// The 500 body for a missing handler; the attempted key stays out of it.
pub open spec fn not_found_body() -> Seq<u8> {
    seq![
        78u8,
        111u8,
        32u8,
        104u8,
        97u8,
        110u8,
        100u8,
        108u8,
        101u8,
        114u8,
        32u8,
        102u8,
        111u8,
        117u8,
        110u8,
        100u8,
        32u8,
        102u8,
        111u8,
        114u8,
        32u8,
        99u8,
        111u8,
        109u8,
        109u8,
        97u8,
        110u8,
        100u8,
    ]
}

/// The 500 body for an unsupported interaction kind.
pub open spec fn unsupported_body() -> Seq<u8> {
    seq![
        85u8,
        110u8,
        104u8,
        97u8,
        110u8,
        100u8,
        108u8,
        101u8,
        100u8,
        32u8,
        105u8,
        110u8,
        116u8,
        101u8,
        114u8,
        97u8,
        99u8,
        116u8,
        105u8,
        111u8,
        110u8,
        32u8,
        116u8,
        121u8,
        112u8,
        101u8,
        32u8,
        114u8,
        101u8,
        99u8,
        101u8,
        105u8,
        118u8,
        101u8,
        100u8,
        33u8,
    ]
}

/// The acknowledgement envelope of a ping: type code 1, no payload.
pub open spec fn pong_envelope() -> ResponseEnvelope {
    ResponseEnvelope { kind: RESPONSE_KIND_PONG, content: None }
}

/// Appends every byte of `bytes` to `out`.
fn push_body(out: &mut Vec<u8>, bytes: &[u8])
    ensures
        final(out)@ == old(out)@ + bytes@,
{
    let n = bytes.len();
    let mut i: usize = 0;
    while i < n
        invariant
            n == bytes@.len(),
            i <= n,
            out@ == old(out)@ + bytes@.take(i as int),
        decreases n - i,
    {
        let b = bytes[i];
        out.push(b);
        proof {
            assert(old(out)@ + bytes@.take(i as int + 1) =~= (old(out)@ + bytes@.take(
                i as int,
            )).push(bytes@[i as int]));
        }
        i = i + 1;
    }
    proof {
        assert(bytes@.take(n as int) =~= bytes@);
        assert(out@ =~= old(out)@ + bytes@);
    }
}

impl<'a, H> Routed<'a, H> {
    /// The HTTP response of a terminal outcome: 401 for a failed
    /// authentication, 400 for a failed decode, 200 with the
    /// acknowledgement envelope for a ping, 500 for a missing handler or
    /// an unsupported kind. A resolved handler has no terminal response —
    /// it must be invoked and its result encoded.
    pub fn terminal_response(&self) -> (r: Option<HttpResponse>)
        ensures
            match *self {
                Routed::Unauthorized => r matches Some(resp) && resp.status == 401
                    && resp.body@ == unauthorized_body(),
                Routed::DecodeFailed => r matches Some(resp) && resp.status == 400
                    && resp.body@ == decode_failed_body(),
                Routed::Pong => r matches Some(resp) && resp.status == 200 && resp.body@
                    == envelope_bytes_spec(pong_envelope()),
                Routed::NotFound(_) => r matches Some(resp) && resp.status == 500 && resp.body@
                    == not_found_body(),
                Routed::Unsupported(_) => r matches Some(resp) && resp.status == 500
                    && resp.body@ == unsupported_body(),
                Routed::Invoke(_, _) => r is None,
            },
    {
        match self {
            Routed::Unauthorized => {
                let mut body: Vec<u8> = Vec::new();
                push_body(&mut body, &[85, 110, 97, 117, 116, 104, 111, 114, 105, 122, 101, 100, 46]);
                proof {
                    assert(body@ =~= unauthorized_body());
                }
                Some(HttpResponse { status: 401, body })
            },
            Routed::DecodeFailed => {
                let mut body: Vec<u8> = Vec::new();
                push_body(
                    &mut body,
                    &[
                        69, 114, 114, 111, 114, 32, 100, 101, 115, 101, 114, 105, 97, 108, 105,
                        122, 105, 110, 103, 32, 105, 110, 116, 101, 114, 97, 99, 116, 105, 111,
                        110,
                    ],
                );
                proof {
                    assert(body@ =~= decode_failed_body());
                }
                Some(HttpResponse { status: 400, body })
            },
            Routed::Pong => {
                let env = ResponseEnvelope { kind: RESPONSE_KIND_PONG, content: None };
                let body = envelope_bytes(&env);
                Some(HttpResponse { status: 200, body })
            },
            Routed::NotFound(_) => {
                let mut body: Vec<u8> = Vec::new();
                push_body(
                    &mut body,
                    &[
                        78, 111, 32, 104, 97, 110, 100, 108, 101, 114, 32, 102, 111, 117, 110,
                        100, 32, 102, 111, 114, 32, 99, 111, 109, 109, 97, 110, 100,
                    ],
                );
                proof {
                    assert(body@ =~= not_found_body());
                }
                Some(HttpResponse { status: 500, body })
            },
            Routed::Unsupported(_) => {
                let mut body: Vec<u8> = Vec::new();
                push_body(
                    &mut body,
                    &[
                        85, 110, 104, 97, 110, 100, 108, 101, 100, 32, 105, 110, 116, 101, 114,
                        97, 99, 116, 105, 111, 110, 32, 116, 121, 112, 101, 32, 114, 101, 99,
                        101, 105, 118, 101, 100, 33,
                    ],
                );
                proof {
                    assert(body@ =~= unsupported_body());
                }
                Some(HttpResponse { status: 500, body })
            },
            Routed::Invoke(_, _) => None,
        }
    }
}

/// The HTTP response of a successfully encoded envelope: status 200 with
/// the serialized envelope as body.
pub fn success_response(env: &ResponseEnvelope) -> (r: HttpResponse)
    ensures
        r.status == 200,
        r.body@ == envelope_bytes_spec(*env),
{
    let body = envelope_bytes(env);
    HttpResponse { status: 200, body }
}

} // verus!
