use civicverse_node::genesis::Genesis;

#[test]
fn roundtrip() {
    let g = Genesis {
        network_name: b"cv-test".to_vec(),
        genesis_time: 1,
        initial_quest: Some(b"hello".to_vec()),
    };
    let s = g.to_json();
    let p = Genesis::from_json(&s).unwrap();
    assert_eq!(p.network_name, b"cv-test".to_vec());
}

#[test]
fn roundtrip_full_fields() {
    let g = Genesis {
        network_name: b"main \"net\"\\1".to_vec(),
        genesis_time: u64::MAX,
        initial_quest: Some(b"find\nthe\tway".to_vec()),
    };
    let s = g.to_json();
    let p = Genesis::from_json(&s).unwrap();
    assert_eq!(p.network_name, g.network_name);
    assert_eq!(p.genesis_time, g.genesis_time);
    assert_eq!(p.initial_quest, g.initial_quest);
}

#[test]
fn roundtrip_without_quest() {
    let g = Genesis {
        network_name: b"cv".to_vec(),
        genesis_time: 0,
        initial_quest: None,
    };
    let s = g.to_json();
    assert_eq!(s, b"{\"network_name\":\"cv\",\"genesis_time\":0,\"initial_quest\":null}".to_vec());
    let p = Genesis::from_json(&s).unwrap();
    assert_eq!(p.network_name, b"cv".to_vec());
    assert_eq!(p.genesis_time, 0);
    assert_eq!(p.initial_quest, None);
}

#[test]
fn json_exact_bytes() {
    let g = Genesis {
        network_name: b"cv-test".to_vec(),
        genesis_time: 1,
        initial_quest: Some(b"hello".to_vec()),
    };
    assert_eq!(
        g.to_json(),
        b"{\"network_name\":\"cv-test\",\"genesis_time\":1,\"initial_quest\":\"hello\"}".to_vec()
    );
}

#[test]
fn json_readable_by_serde() {
    let g = Genesis {
        network_name: b"cv-test".to_vec(),
        genesis_time: 77,
        initial_quest: Some(b"hello".to_vec()),
    };
    let v: serde_json::Value = serde_json::from_slice(&g.to_json()).unwrap();
    assert_eq!(v["network_name"], "cv-test");
    assert_eq!(v["genesis_time"], 77);
    assert_eq!(v["initial_quest"], "hello");
}

#[test]
fn rejects_garbage() {
    assert!(Genesis::from_json(&b"not json".to_vec()).is_none());
    assert!(Genesis::from_json(&b"{\"network_name\":\"x\"}".to_vec()).is_none());
    assert!(Genesis::from_json(&Vec::new()).is_none());
}

#[test]
fn rejects_numbers_beyond_u64() {
    // one past u64::MAX
    let s = b"{\"network_name\":\"cv\",\"genesis_time\":18446744073709551616,\"initial_quest\":null}"
        .to_vec();
    assert!(Genesis::from_json(&s).is_none());
    let ok = b"{\"network_name\":\"cv\",\"genesis_time\":18446744073709551615,\"initial_quest\":null}"
        .to_vec();
    assert_eq!(Genesis::from_json(&ok).unwrap().genesis_time, u64::MAX);
}

#[test]
fn summary_line() {
    let g = Genesis {
        network_name: b"cv".to_vec(),
        genesis_time: 42,
        initial_quest: None,
    };
    assert_eq!(
        g.log_summary(),
        b"Genesis loaded: network=cv genesis_time=42 initial_quest=none".to_vec()
    );
    let g2 = Genesis {
        network_name: b"cv".to_vec(),
        genesis_time: 42,
        initial_quest: Some(b"hello".to_vec()),
    };
    assert_eq!(
        g2.log_summary(),
        b"Genesis loaded: network=cv genesis_time=42 initial_quest=hello".to_vec()
    );
}
