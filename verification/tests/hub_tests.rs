use civicverse_node::hub::{InboundHub, RecvOutcome, INBOUND_CHANNEL_CAPACITY};

#[test]
fn late_subscriber_sees_no_history() {
    let mut hub = InboundHub::new(INBOUND_CHANNEL_CAPACITY);
    for i in 0..1025u32 {
        hub.publish(i.to_be_bytes().to_vec());
    }
    let mut sub = hub.subscribe();
    assert!(matches!(sub.recv(&hub), RecvOutcome::Empty));
    // only what comes after the subscription reaches it
    hub.publish(b"after".to_vec());
    match sub.recv(&hub) {
        RecvOutcome::Msg(m) => assert_eq!(m, b"after".to_vec()),
        _ => panic!("expected the message published after subscribing"),
    }
}

#[test]
fn slow_subscriber_sees_lag_not_history() {
    let mut hub = InboundHub::new(INBOUND_CHANNEL_CAPACITY);
    let mut sub = hub.subscribe();
    for i in 0..1030u32 {
        hub.publish(i.to_be_bytes().to_vec());
    }
    // 1030 arrived, 1024 are retained: 6 are gone for good
    match sub.recv(&hub) {
        RecvOutcome::Lagged(n) => assert_eq!(n, 6),
        _ => panic!("expected a lag report"),
    }
    // the next read hands out the oldest retained message
    match sub.recv(&hub) {
        RecvOutcome::Msg(m) => assert_eq!(m, 6u32.to_be_bytes().to_vec()),
        _ => panic!("expected the oldest retained message"),
    }
}

#[test]
fn exactly_at_the_bound_nothing_is_lost() {
    let mut hub = InboundHub::new(INBOUND_CHANNEL_CAPACITY);
    let mut sub = hub.subscribe();
    for i in 0..1024u32 {
        hub.publish(i.to_be_bytes().to_vec());
    }
    for i in 0..1024u32 {
        match sub.recv(&hub) {
            RecvOutcome::Msg(m) => assert_eq!(m, i.to_be_bytes().to_vec()),
            _ => panic!("expected every retained message in order"),
        }
    }
    assert!(matches!(sub.recv(&hub), RecvOutcome::Empty));
}

#[test]
fn subscribers_observe_the_same_order() {
    let mut hub = InboundHub::new(4);
    let mut first = hub.subscribe();
    let mut second = hub.subscribe();
    hub.publish(b"a".to_vec());
    hub.publish(b"b".to_vec());
    for sub in [&mut first, &mut second] {
        match sub.recv(&hub) {
            RecvOutcome::Msg(m) => assert_eq!(m, b"a".to_vec()),
            _ => panic!("expected the first message"),
        }
        match sub.recv(&hub) {
            RecvOutcome::Msg(m) => assert_eq!(m, b"b".to_vec()),
            _ => panic!("expected the second message"),
        }
    }
}
