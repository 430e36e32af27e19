use base64::Engine;
use civicverse_node::attestation::{Attester, AttestationService};
use civicverse_node::codec::encode_fields;
use civicverse_node::craig::{CraigAggregator, InboundOutcome, encode_batch, ReceivedAttestation};

fn b64(bytes: &[u8]) -> Vec<u8> {
    base64::engine::general_purpose::STANDARD
        .encode(bytes)
        .into_bytes()
}

fn deterministic_attester(seed: u8) -> Attester {
    let secret = ed25519_dalek::SecretKey::from_bytes(&[seed; 32]).unwrap();
    let public = ed25519_dalek::PublicKey::from(&secret);
    let mut kp = Vec::new();
    kp.extend_from_slice(&secret.to_bytes());
    kp.extend_from_slice(&public.to_bytes());
    Attester::from_secret_b64(&b64(&kp)).unwrap()
}

#[test]
fn discard_safety_leaves_buffer_unchanged() {
    let att = deterministic_attester(1);
    let payload = b"heartbeat:10".to_vec();
    let good_sig_b64 = b64(&att.sign(&payload));
    let issuer = att.pubkey_b64().clone();
    let mut agg = CraigAggregator::new();

    // (a) an issuer string that is no key
    let m = encode_fields(&b"@@not-base64@@".to_vec(), &payload, &good_sig_b64);
    assert_eq!(agg.handle_inbound(&m), InboundOutcome::BadIssuerEncoding);
    let m = encode_fields(&b64(&[1, 2, 3]), &payload, &good_sig_b64);
    assert_eq!(agg.handle_inbound(&m), InboundOutcome::InvalidIssuerKey);

    // (b) a wrong-length signature
    let m = encode_fields(&issuer, &payload, &b64(&[9u8; 10]));
    assert_eq!(agg.handle_inbound(&m), InboundOutcome::BadSignatureLength);
    let m = encode_fields(&issuer, &payload, &b"!!".to_vec());
    assert_eq!(agg.handle_inbound(&m), InboundOutcome::BadSignatureEncoding);

    // (c) a well-formed signature over something else
    let other_sig_b64 = b64(&att.sign(&b"heartbeat:11".to_vec()));
    let m = encode_fields(&issuer, &payload, &other_sig_b64);
    assert_eq!(agg.handle_inbound(&m), InboundOutcome::SignatureMismatch);

    // non-attestation traffic is a quiet non-event
    assert_eq!(
        agg.handle_inbound(&b"just chatter".to_vec()),
        InboundOutcome::NotAttestation
    );

    // in every case the buffer stayed unchanged and no batch goes out
    assert_eq!(agg.len(), 0);
    assert!(agg.flush().is_none());
}

#[test]
fn flush_takes_everything_and_clears() {
    let att = deterministic_attester(2);
    let service = AttestationService::new(att);
    let (m1, b1) = service.heartbeat_message(100);
    let (m2, b2) = service.heartbeat_message(200);
    let mut agg = CraigAggregator::new();
    assert_eq!(agg.handle_inbound(&b1), InboundOutcome::Accepted);
    assert_eq!(agg.handle_inbound(&b2), InboundOutcome::Accepted);
    assert_eq!(agg.len(), 2);

    let batch = agg.flush().unwrap();
    let expected = encode_batch(&vec![
        ReceivedAttestation {
            issuer: m1.issuer,
            payload: m1.payload,
            signature_b64: m1.signature_b64,
        },
        ReceivedAttestation {
            issuer: m2.issuer,
            payload: m2.payload,
            signature_b64: m2.signature_b64,
        },
    ]);
    assert_eq!(batch, expected);
    assert_eq!(agg.len(), 0);
    assert!(agg.flush().is_none());

    // what arrives after a flush goes into the next batch, once
    let (m3, b3) = service.heartbeat_message(300);
    assert_eq!(agg.handle_inbound(&b3), InboundOutcome::Accepted);
    let batch2 = agg.flush().unwrap();
    let expected2 = encode_batch(&vec![ReceivedAttestation {
        issuer: m3.issuer,
        payload: m3.payload,
        signature_b64: m3.signature_b64,
    }]);
    assert_eq!(batch2, expected2);
    assert_eq!(agg.len(), 0);
}

#[test]
fn batch_is_a_json_array() {
    let att = deterministic_attester(3);
    let service = AttestationService::new(att);
    let (_, b1) = service.heartbeat_message(1);
    let (_, b2) = service.heartbeat_message(2);
    let mut agg = CraigAggregator::new();
    agg.handle_inbound(&b1);
    agg.handle_inbound(&b2);
    let batch = agg.flush().unwrap();
    let v: serde_json::Value = serde_json::from_slice(&batch).unwrap();
    let items = v.as_array().unwrap();
    assert_eq!(items.len(), 2);
    assert_eq!(items[0]["payload"], "heartbeat:1");
    assert_eq!(items[1]["payload"], "heartbeat:2");
}

#[test]
fn end_to_end_two_nodes() {
    // node A: a deterministic identity whose heartbeat fires once
    let attester_a = deterministic_attester(42);
    let a_pub_b64 = attester_a.pubkey_b64().clone();
    let producer_a = AttestationService::new(attester_a);
    let (_, wire) = producer_a.heartbeat_message(1_700_000_000);

    // node B: its aggregator receives and verifies A's message
    let mut aggregator_b = CraigAggregator::new();
    assert_eq!(aggregator_b.handle_inbound(&wire), InboundOutcome::Accepted);
    assert_eq!(aggregator_b.len(), 1);
    assert_eq!(aggregator_b.entry(0).issuer, a_pub_b64);

    // after B's flush period, one batch of length 1 goes out and the buffer
    // is empty at once
    let batch = aggregator_b.flush().unwrap();
    let v: serde_json::Value = serde_json::from_slice(&batch).unwrap();
    assert_eq!(v.as_array().unwrap().len(), 1);
    assert_eq!(
        v[0]["issuer"],
        String::from_utf8(a_pub_b64).unwrap()
    );
    assert_eq!(aggregator_b.len(), 0);
}
