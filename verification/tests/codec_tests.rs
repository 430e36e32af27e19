use civicverse_node::codec::{encode_fields, decode_fields};

#[test]
fn attestation_roundtrip_plain() {
    let issuer = b"QUJDRA==".to_vec();
    let payload = b"heartbeat:1700000000".to_vec();
    let sig = b"c2ln".to_vec();
    let bytes = encode_fields(&issuer, &payload, &sig);
    let (i, p, g) = decode_fields(&bytes).unwrap();
    assert_eq!(i, issuer);
    assert_eq!(p, payload);
    assert_eq!(g, sig);
}

#[test]
fn attestation_roundtrip_awkward_payload() {
    let issuer = b"aXNz".to_vec();
    let payload = b"say \"hi\"\\ \n\t\x01\x1f and \xc3\xa9".to_vec();
    let sig = b"c2ln".to_vec();
    let bytes = encode_fields(&issuer, &payload, &sig);
    let (i, p, g) = decode_fields(&bytes).unwrap();
    assert_eq!(i, issuer);
    assert_eq!(p, payload);
    assert_eq!(g, sig);
}

#[test]
fn wire_format_exact() {
    let bytes = encode_fields(&b"II".to_vec(), &b"PP".to_vec(), &b"SS".to_vec());
    assert_eq!(
        bytes,
        b"{\"issuer\":\"II\",\"payload\":\"PP\",\"signature\":\"SS\"}".to_vec()
    );
}

#[test]
fn wire_format_readable_by_serde() {
    let payload = b"quote \" backslash \\ newline \n".to_vec();
    let bytes = encode_fields(&b"aXNz".to_vec(), &payload, &b"c2ln".to_vec());
    let v: serde_json::Value = serde_json::from_slice(&bytes).unwrap();
    assert_eq!(v["issuer"], "aXNz");
    assert_eq!(v["payload"], String::from_utf8(payload).unwrap());
    assert_eq!(v["signature"], "c2ln");
}

#[test]
fn decode_accepts_common_escapes() {
    let bytes = b"{\"issuer\":\"i\",\"payload\":\"a\\u0041\\n\\t\\/b\",\"signature\":\"s\"}".to_vec();
    let (_, p, _) = decode_fields(&bytes).unwrap();
    assert_eq!(p, b"aA\n\t/b".to_vec());
}

#[test]
fn decode_rejects_non_attestations() {
    assert!(decode_fields(&b"".to_vec()).is_none());
    assert!(decode_fields(&b"hello world".to_vec()).is_none());
    assert!(decode_fields(&b"{\"issuer\":\"x\"}".to_vec()).is_none());
    assert!(decode_fields(&b"{\"issuer\":\"x\",\"payload\":\"y\",\"signature\":\"z\"} ".to_vec()).is_none());
    assert!(decode_fields(&b"{\"issuer\":\"x\",\"payload\":\"y\",\"signature\":\"\\uffff\"}".to_vec()).is_none());
}
