//! End-to-end request scenarios: signing, verification, decoding,
//! dispatch, and response encoding, with real Ed25519 signatures.

use ed25519_dalek::{Signer, SigningKey};
use interaction_router::dispatch::{route_request, success_response};
use interaction_router::encode::encode_result;
use interaction_router::{
    CommandPath, CommandRegistry, HandlerResult, Routed, VerifierKey,
};

fn hex_of(bytes: &[u8]) -> Vec<u8> {
    let mut out = Vec::new();
    for b in bytes {
        out.extend_from_slice(format!("{:02x}", b).as_bytes());
    }
    out
}

fn signing_key() -> SigningKey {
    SigningKey::from_bytes(&[7u8; 32])
}

fn verifier_key() -> VerifierKey {
    let pk = signing_key().verifying_key().to_bytes();
    VerifierKey::from_hex(&hex_of(&pk)).expect("the test key is well-formed")
}

fn sign(timestamp: &[u8], body: &[u8]) -> Vec<u8> {
    let mut message = timestamp.to_vec();
    message.extend_from_slice(body);
    hex_of(&signing_key().sign(&message).to_bytes())
}

#[test]
fn scenario_a_signed_ping_is_acknowledged() {
    let registry: CommandRegistry<u32> = CommandRegistry::new();
    let key = verifier_key();
    let timestamp = b"1700000000".to_vec();
    let body = b"{\"type\":1}".to_vec();
    let signature = sign(&timestamp, &body);
    let routed = route_request(&registry, &key, Some(&timestamp), Some(&signature), &body);
    assert!(matches!(routed, Routed::Pong));
    let response = routed.terminal_response().unwrap();
    assert_eq!(response.status, 200);
    assert_eq!(response.body, b"{\"type\":1}".to_vec());
}

#[test]
fn scenario_b_registered_command_reaches_its_handler() {
    let mut registry: CommandRegistry<u32> = CommandRegistry::new();
    registry.register(&CommandPath::Root(b"ping".to_vec()), 7);
    let key = verifier_key();
    let timestamp = b"1700000000".to_vec();
    let body = b"{\"type\":2,\"data\":{\"name\":\"ping\"}}".to_vec();
    let signature = sign(&timestamp, &body);
    let routed = route_request(&registry, &key, Some(&timestamp), Some(&signature), &body);
    match routed {
        Routed::Invoke(handler, data) => {
            assert_eq!(*handler, 7);
            assert_eq!(data.name, b"ping".to_vec());
            let env = encode_result(HandlerResult::Text(b"Pong!".to_vec()));
            let response = success_response(&env);
            assert_eq!(response.status, 200);
            assert_eq!(
                response.body,
                b"{\"type\":4,\"data\":{\"content\":\"Pong!\"}}".to_vec()
            );
        }
        _ => panic!("expected the handler to be resolved"),
    }
}

#[test]
fn scenario_c_a_bad_signature_is_rejected_whatever_the_body() {
    let registry: CommandRegistry<u32> = CommandRegistry::new();
    let key = verifier_key();
    let timestamp = b"1700000000".to_vec();
    let body = b"{\"type\":1}".to_vec();
    let signature = sign(&timestamp, b"{\"type\":2}");
    let routed = route_request(&registry, &key, Some(&timestamp), Some(&signature), &body);
    assert!(matches!(routed, Routed::Unauthorized));
    let response = routed.terminal_response().unwrap();
    assert_eq!(response.status, 401);
    assert_eq!(response.body, b"Unauthorized.".to_vec());
}

#[test]
fn tampering_after_signing_invalidates_verification() {
    let registry: CommandRegistry<u32> = CommandRegistry::new();
    let key = verifier_key();
    let timestamp = b"1700000000".to_vec();
    let body = b"{\"type\":1}".to_vec();
    let signature = sign(&timestamp, &body);

    let mut tampered_body = body.clone();
    tampered_body[1] ^= 1;
    let routed = route_request(
        &registry,
        &key,
        Some(&timestamp),
        Some(&signature),
        &tampered_body,
    );
    assert!(matches!(routed, Routed::Unauthorized));

    let mut tampered_timestamp = timestamp.clone();
    tampered_timestamp[0] = b'2';
    let routed = route_request(
        &registry,
        &key,
        Some(&tampered_timestamp),
        Some(&signature),
        &body,
    );
    assert!(matches!(routed, Routed::Unauthorized));
}

#[test]
fn missing_headers_are_unauthorized() {
    let registry: CommandRegistry<u32> = CommandRegistry::new();
    let key = verifier_key();
    let timestamp = b"1700000000".to_vec();
    let body = b"{\"type\":1}".to_vec();
    let signature = sign(&timestamp, &body);
    let routed = route_request(&registry, &key, None, Some(&signature), &body);
    assert!(matches!(routed, Routed::Unauthorized));
    let routed = route_request(&registry, &key, Some(&timestamp), None, &body);
    assert!(matches!(routed, Routed::Unauthorized));
    let bad_hex = b"zz".to_vec();
    let routed = route_request(&registry, &key, Some(&timestamp), Some(&bad_hex), &body);
    assert!(matches!(routed, Routed::Unauthorized));
}

#[test]
fn ping_ignores_the_registry() {
    let mut registry: CommandRegistry<u32> = CommandRegistry::new();
    let key = verifier_key();
    let timestamp = b"1700000000".to_vec();
    let body = b"{\"type\":1}".to_vec();
    let signature = sign(&timestamp, &body);
    let routed = route_request(&registry, &key, Some(&timestamp), Some(&signature), &body);
    assert!(matches!(routed, Routed::Pong));
    registry.register(&CommandPath::Root(b"ping".to_vec()), 1);
    registry.register(&CommandPath::Root(b"test".to_vec()), 2);
    let routed = route_request(&registry, &key, Some(&timestamp), Some(&signature), &body);
    assert!(matches!(routed, Routed::Pong));
    assert_eq!(routed.terminal_response().unwrap().body, b"{\"type\":1}".to_vec());
}

#[test]
fn unregistered_commands_surface_the_attempted_key() {
    let registry: CommandRegistry<u32> = CommandRegistry::new();
    let key = verifier_key();
    let timestamp = b"1700000000".to_vec();
    let body = b"{\"type\":2,\"data\":{\"name\":\"missing\"}}".to_vec();
    let signature = sign(&timestamp, &body);
    let routed = route_request(&registry, &key, Some(&timestamp), Some(&signature), &body);
    match &routed {
        Routed::NotFound(attempted) => assert_eq!(attempted, &b"missing".to_vec()),
        _ => panic!("expected a dispatch miss"),
    }
    let response = routed.terminal_response().unwrap();
    assert_eq!(response.status, 500);
    assert_eq!(response.body, b"No handler found for command".to_vec());
}

#[test]
fn nested_subcommands_build_the_full_dispatch_key() {
    let mut registry: CommandRegistry<u32> = CommandRegistry::new();
    registry.register(
        &CommandPath::Sub(vec![b"root".to_vec(), b"group".to_vec(), b"sub".to_vec()]),
        3,
    );
    let key = verifier_key();
    let timestamp = b"1700000000".to_vec();
    let body = concat_bytes_of(
        "{\"type\":2,\"data\":{\"name\":\"root\",\"options\":[\
         {\"name\":\"group\",\"type\":2,\"options\":[\
         {\"name\":\"sub\",\"type\":1,\"options\":[]}]}]}}",
    );
    let signature = sign(&timestamp, &body);
    let routed = route_request(&registry, &key, Some(&timestamp), Some(&signature), &body);
    match routed {
        Routed::Invoke(handler, data) => {
            assert_eq!(*handler, 3);
            assert_eq!(data.dispatch_key(), b"root|group|sub".to_vec());
        }
        _ => panic!("expected the nested handler to be resolved"),
    }
}

fn concat_bytes_of(s: &str) -> Vec<u8> {
    s.as_bytes().to_vec()
}

#[test]
fn a_root_handler_does_not_catch_its_subcommands() {
    let mut registry: CommandRegistry<u32> = CommandRegistry::new();
    registry.register(&CommandPath::Root(b"root".to_vec()), 1);
    let key = verifier_key();
    let timestamp = b"1700000000".to_vec();
    let body = concat_bytes_of(
        "{\"type\":2,\"data\":{\"name\":\"root\",\"options\":[\
         {\"name\":\"sub\",\"type\":1}]}}",
    );
    let signature = sign(&timestamp, &body);
    let routed = route_request(&registry, &key, Some(&timestamp), Some(&signature), &body);
    match &routed {
        Routed::NotFound(attempted) => assert_eq!(attempted, &b"root|sub".to_vec()),
        _ => panic!("expected a dispatch miss under the nested key"),
    }
}

#[test]
fn unsupported_kinds_get_a_500() {
    let registry: CommandRegistry<u32> = CommandRegistry::new();
    let key = verifier_key();
    let timestamp = b"1700000000".to_vec();
    for (body, code) in [
        (b"{\"type\":3}".to_vec(), 3u64),
        (b"{\"type\":4}".to_vec(), 4u64),
        (b"{\"type\":99}".to_vec(), 99u64),
    ] {
        let signature = sign(&timestamp, &body);
        let routed = route_request(&registry, &key, Some(&timestamp), Some(&signature), &body);
        match &routed {
            Routed::Unsupported(kind) => assert_eq!(*kind, code),
            _ => panic!("expected an unsupported outcome"),
        }
        let response = routed.terminal_response().unwrap();
        assert_eq!(response.status, 500);
        assert_eq!(
            response.body,
            b"Unhandled interaction type received!".to_vec()
        );
    }
}

#[test]
fn malformed_bodies_fail_decoding_after_authentication() {
    let registry: CommandRegistry<u32> = CommandRegistry::new();
    let key = verifier_key();
    let timestamp = b"1700000000".to_vec();
    for body in [
        b"not json at all".to_vec(),
        b"{\"type\":\"x\"}".to_vec(),
        b"{}".to_vec(),
        b"{\"type\":2}".to_vec(),
        b"{\"type\":2,\"data\":{\"name\":\"\"}}".to_vec(),
        b"{\"type\":2,\"data\":{\"name\":\"a|b\"}}".to_vec(),
    ] {
        let signature = sign(&timestamp, &body);
        let routed = route_request(&registry, &key, Some(&timestamp), Some(&signature), &body);
        assert!(matches!(routed, Routed::DecodeFailed));
        let response = routed.terminal_response().unwrap();
        assert_eq!(response.status, 400);
        assert_eq!(
            response.body,
            b"Error deserializing interaction".to_vec()
        );
    }
}

#[test]
fn the_configured_key_is_validated_at_startup() {
    assert!(VerifierKey::from_hex(&b"abc".to_vec()).is_none());
    assert!(VerifierKey::from_hex(&b"zz".to_vec()).is_none());
    assert!(VerifierKey::from_hex(&b"deadbeef".to_vec()).is_none());
    let pk = signing_key().verifying_key().to_bytes();
    let key = VerifierKey::from_hex(&hex_of(&pk)).unwrap();
    assert_eq!(key.as_bytes(), &pk.to_vec());
}
