use base64::Engine;
use civicverse_node::attestation::{Attester, AttestationService, IdentityError};
use civicverse_node::codec::encode_fields;
use civicverse_node::craig::{CraigAggregator, InboundOutcome};

fn deterministic_secret(seed: u8) -> Vec<u8> {
    let secret = ed25519_dalek::SecretKey::from_bytes(&[seed; 32]).unwrap();
    let public = ed25519_dalek::PublicKey::from(&secret);
    let mut kp = Vec::new();
    kp.extend_from_slice(&secret.to_bytes());
    kp.extend_from_slice(&public.to_bytes());
    base64::engine::general_purpose::STANDARD
        .encode(&kp)
        .into_bytes()
}

#[test]
fn generated_identity_signs_verifiably() {
    let att = Attester::generate().unwrap();
    let service = AttestationService::new(att);
    let (message, bytes) = service.heartbeat_message(1_700_000_000);
    assert!(message.payload.starts_with(b"heartbeat:1700000000"));
    let mut agg = CraigAggregator::new();
    assert_eq!(agg.handle_inbound(&bytes), InboundOutcome::Accepted);
    assert_eq!(agg.len(), 1);
}

#[test]
fn signature_integrity_bit_flips_fail() {
    let att = Attester::generate().unwrap();
    let issuer = att.pubkey_b64().clone();
    let payload = b"heartbeat:123".to_vec();
    let sig = att.sign(&payload);
    let sig_b64 = base64::engine::general_purpose::STANDARD
        .encode(&sig)
        .into_bytes();
    let mut agg = CraigAggregator::new();

    // the untampered message verifies
    let good = encode_fields(&issuer, &payload, &sig_b64);
    assert_eq!(agg.handle_inbound(&good), InboundOutcome::Accepted);

    // one flipped bit in the payload makes verification fail
    let mut bad_payload = payload.clone();
    bad_payload[0] ^= 0x01;
    let tampered = encode_fields(&issuer, &bad_payload, &sig_b64);
    assert_eq!(agg.handle_inbound(&tampered), InboundOutcome::SignatureMismatch);

    // one flipped bit in the signature makes verification fail
    for i in 0..64 {
        let mut bad_sig = sig.clone();
        bad_sig[i] ^= 0x01;
        let bad_sig_b64 = base64::engine::general_purpose::STANDARD
            .encode(&bad_sig)
            .into_bytes();
        let tampered = encode_fields(&issuer, &payload, &bad_sig_b64);
        assert_ne!(agg.handle_inbound(&tampered), InboundOutcome::Accepted);
    }
    assert_eq!(agg.len(), 1);
}

#[test]
fn deterministic_identity_roundtrip() {
    let secret_b64 = deterministic_secret(7);
    let a1 = Attester::from_secret_b64(&secret_b64).unwrap();
    let a2 = Attester::from_secret_b64(&secret_b64).unwrap();
    assert_eq!(a1.pubkey_b64(), a2.pubkey_b64());

    let secret = ed25519_dalek::SecretKey::from_bytes(&[7u8; 32]).unwrap();
    let public = ed25519_dalek::PublicKey::from(&secret);
    let expected = base64::engine::general_purpose::STANDARD
        .encode(public.to_bytes())
        .into_bytes();
    assert_eq!(a1.pubkey_b64(), &expected);
}

#[test]
fn bad_secrets_are_fatal_errors() {
    match Attester::from_secret_b64(&b"not base64!!".to_vec()) {
        Err(e) => assert_eq!(e, IdentityError::BadEncoding),
        Ok(_) => panic!("a secret that is no base64 must be rejected"),
    }
    let short = base64::engine::general_purpose::STANDARD
        .encode([1u8; 10])
        .into_bytes();
    match Attester::from_secret_b64(&short) {
        Err(e) => assert_eq!(e, IdentityError::InvalidKeypair),
        Ok(_) => panic!("a ten-byte secret must be rejected"),
    }
}

#[test]
fn from_env_or_random_dispatch() {
    let secret_b64 = deterministic_secret(9);
    let a = Attester::from_env_or_random(Some(&secret_b64)).unwrap();
    let b = Attester::from_secret_b64(&secret_b64).unwrap();
    assert_eq!(a.pubkey_b64(), b.pubkey_b64());
    assert!(Attester::from_env_or_random(None).is_ok());
    assert!(Attester::from_env_or_random(Some(&b"***".to_vec())).is_err());
}

#[test]
fn heartbeat_wire_form() {
    let secret_b64 = deterministic_secret(3);
    let att = Attester::from_secret_b64(&secret_b64).unwrap();
    let issuer = att.pubkey_b64().clone();
    let service = AttestationService::new(att);
    let (message, bytes) = service.heartbeat_message(5);
    assert_eq!(message.payload, b"heartbeat:5".to_vec());
    assert_eq!(message.issuer, issuer);
    let v: serde_json::Value = serde_json::from_slice(&bytes).unwrap();
    assert_eq!(v["payload"], "heartbeat:5");
    assert_eq!(v["issuer"], String::from_utf8(issuer).unwrap());
}
