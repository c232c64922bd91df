//! Registry, canonical keys, and encoding, exercised without a transport.

use interaction_router::{
    CommandPath, CommandRegistry, HandlerResult, ResponseEnvelope,
};
use interaction_router::auth::hex_decode;
use interaction_router::encode::{encode_result, envelope_bytes};

#[test]
fn test_command_path() {
    let mut router: CommandRegistry<u32> = CommandRegistry::new();
    router.register(&CommandPath::Root(b"test".to_vec()), 1);
    router.register(
        &CommandPath::Sub(vec![b"test".to_vec(), b"sub".to_vec()]),
        2,
    );
    assert!(router.contains_key(&b"test".to_vec()));
    assert!(router.contains_key(&b"test|sub".to_vec()));
}

#[test]
fn registry_holds_exactly_the_registered_keys() {
    let mut registry: CommandRegistry<u32> = CommandRegistry::new();
    registry.register(&CommandPath::Root(b"test".to_vec()), 1);
    registry.register(
        &CommandPath::Sub(vec![b"test".to_vec(), b"sub".to_vec()]),
        2,
    );
    assert!(registry.contains_key(&b"test".to_vec()));
    assert!(registry.contains_key(&b"test|sub".to_vec()));
    assert_eq!(registry.len(), 2);
    assert!(!registry.contains_key(&b"sub".to_vec()));
    assert!(!registry.contains_key(&b"test|".to_vec()));
}

#[test]
fn lookup_survives_unrelated_registrations() {
    let mut registry: CommandRegistry<u32> = CommandRegistry::new();
    registry.register(&CommandPath::Root(b"ping".to_vec()), 7);
    assert_eq!(registry.lookup(&b"ping".to_vec()), Some(&7));
    registry.register(&CommandPath::Root(b"other".to_vec()), 8);
    registry.register(
        &CommandPath::Sub(vec![b"ping".to_vec(), b"sub".to_vec()]),
        9,
    );
    registry.register(&CommandPath::Root(b"more".to_vec()), 10);
    assert_eq!(registry.lookup(&b"ping".to_vec()), Some(&7));
}

#[test]
fn canonical_keys_distinguish_path_shapes() {
    let root = CommandPath::Root(b"test".to_vec());
    let sub = CommandPath::Sub(vec![b"test".to_vec(), b"sub".to_vec()]);
    assert_eq!(root.canonical_key(), b"test".to_vec());
    assert_eq!(sub.canonical_key(), b"test|sub".to_vec());
    assert_ne!(root.canonical_key(), sub.canonical_key());
}

#[test]
fn paths_come_from_names_and_name_sequences() {
    let root = CommandPath::from(b"test".to_vec());
    assert_eq!(root.canonical_key(), b"test".to_vec());
    let sub = CommandPath::from(vec![b"test".to_vec(), b"sub".to_vec()]);
    assert_eq!(sub.canonical_key(), b"test|sub".to_vec());
}

#[test]
fn reregistering_a_key_replaces_the_handler() {
    let mut registry: CommandRegistry<u32> = CommandRegistry::new();
    registry.register(&CommandPath::Root(b"test".to_vec()), 1);
    registry.register(&CommandPath::Root(b"test".to_vec()), 2);
    assert_eq!(registry.lookup(&b"test".to_vec()), Some(&2));
    assert_eq!(registry.len(), 1);
}

#[test]
fn text_results_become_type_four_messages() {
    let env = encode_result(HandlerResult::Text(b"Pong!".to_vec()));
    assert_eq!(env.kind, 4);
    assert_eq!(env.content, Some(b"Pong!".to_vec()));
    let bytes = envelope_bytes(&env);
    assert_eq!(bytes, b"{\"type\":4,\"data\":{\"content\":\"Pong!\"}}".to_vec());
}

#[test]
fn prebuilt_envelopes_pass_through_unchanged() {
    let env = encode_result(HandlerResult::Envelope(ResponseEnvelope {
        kind: 9,
        content: None,
    }));
    assert_eq!(env.kind, 9);
    assert_eq!(env.content, None);
    assert_eq!(envelope_bytes(&env), b"{\"type\":9}".to_vec());
}

#[test]
fn envelope_content_is_json_escaped() {
    let env = ResponseEnvelope {
        kind: 4,
        content: Some(b"a\"b\\c\nd".to_vec()),
    };
    let bytes = envelope_bytes(&env);
    assert_eq!(
        bytes,
        b"{\"type\":4,\"data\":{\"content\":\"a\\\"b\\\\c\\u000ad\"}}".to_vec()
    );
}

#[test]
fn hex_decoding_is_exact() {
    assert_eq!(
        hex_decode(&b"deadBEEF".to_vec()),
        Some(vec![0xde, 0xad, 0xbe, 0xef])
    );
    assert_eq!(hex_decode(&b"".to_vec()), Some(vec![]));
    assert_eq!(hex_decode(&b"abc".to_vec()), None);
    assert_eq!(hex_decode(&b"0g".to_vec()), None);
}

#[test]
fn envelope_codes_with_more_digits_serialize_fully() {
    let env = ResponseEnvelope {
        kind: 104,
        content: None,
    };
    assert_eq!(envelope_bytes(&env), b"{\"type\":104}".to_vec());
    let env = ResponseEnvelope {
        kind: 42,
        content: None,
    };
    assert_eq!(envelope_bytes(&env), b"{\"type\":42}".to_vec());
}
