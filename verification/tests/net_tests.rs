use base64::Engine;
use civicverse_node::attestation::IdentityError;
use civicverse_node::net::{
    attestation_topic, aggregate_topic, decode_identity_secret, reactor_dispatch, ReactorEvent,
    ReactorAction,
};

#[test]
fn topics_are_the_protocol_names() {
    assert_eq!(attestation_topic(), "civicverse-attestations");
    assert_eq!(aggregate_topic(), "civicverse-craig-aggregates");
}

#[test]
fn dispatch_routes_each_event() {
    let publish = ReactorEvent::PublishRequest {
        topic: b"t".to_vec(),
        data: b"d".to_vec(),
    };
    match reactor_dispatch(publish) {
        ReactorAction::GossipPublish { topic, data } => {
            assert_eq!(topic, b"t".to_vec());
            assert_eq!(data, b"d".to_vec());
        },
        _ => panic!("a publish request must go out on its topic"),
    }
    let inbound = ReactorEvent::InboundMessage { data: b"x".to_vec() };
    match reactor_dispatch(inbound) {
        ReactorAction::Deliver { data } => assert_eq!(data, b"x".to_vec()),
        _ => panic!("an inbound message must be fanned out"),
    }
    assert!(matches!(reactor_dispatch(ReactorEvent::PeerDiscovered), ReactorAction::Note));
    assert!(matches!(reactor_dispatch(ReactorEvent::PeerExpired), ReactorAction::Note));
    assert!(matches!(reactor_dispatch(ReactorEvent::NewListenAddr), ReactorAction::Note));
    assert!(matches!(reactor_dispatch(ReactorEvent::Other), ReactorAction::Note));
}

#[test]
fn identity_secret_decoding() {
    assert_eq!(decode_identity_secret(None), Ok(None));
    let secret = base64::engine::general_purpose::STANDARD
        .encode([5u8; 64])
        .into_bytes();
    assert_eq!(decode_identity_secret(Some(&secret)), Ok(Some(vec![5u8; 64])));
    assert_eq!(
        decode_identity_secret(Some(&b"///bad???".to_vec())),
        Err(IdentityError::BadEncoding)
    );
}
