use loglab::chat::ChatMessage;
use loglab::chat::classify;
use loglab::registry::Registry;
use loglab::session::Session;
use loglab::topic::Recv;
use loglab::topic::Topic;

#[test]
fn pipe_text_reaches_subscriber_framed() {
    let mut session = Session::new(100);
    let a = session.attach();
    let _b = session.attach();
    session.ingress(classify(b"hello".to_vec(), None));
    assert_eq!(session.egress_pipe(&a), Some(b"pipe:hello".to_vec()));
    assert_eq!(session.egress_pipe(&a), None);
}

#[test]
fn producer_lines_observed_in_order() {
    let mut session = Session::new(100);
    let a = session.attach();
    for line in [&b"first"[..], &b"second"[..], &b"third"[..]] {
        session.ingress(classify(line.to_vec(), None));
    }
    assert_eq!(session.egress_pipe(&a), Some(b"pipe:first".to_vec()));
    assert_eq!(session.egress_pipe(&a), Some(b"pipe:second".to_vec()));
    assert_eq!(session.egress_pipe(&a), Some(b"pipe:third".to_vec()));
    assert_eq!(session.egress_pipe(&a), None);
}

#[test]
fn subscriber_sees_only_messages_after_attach() {
    let mut session = Session::new(100);
    session.ingress(classify(b"early".to_vec(), None));
    let late = session.attach();
    session.ingress(classify(b"late".to_vec(), None));
    assert_eq!(session.egress_pipe(&late), Some(b"pipe:late".to_vec()));
    assert_eq!(session.egress_pipe(&late), None);
}

#[test]
fn chat_does_not_cross_into_pipe_topic() {
    let mut session = Session::new(100);
    let a = session.attach();
    let m = ChatMessage {
        sender: b"u".to_vec(),
        content: b"hi".to_vec(),
        timestamp: 1,
    };
    session.ingress(classify(b"ignored".to_vec(), Some(m)));
    assert_eq!(session.egress_pipe(&a), None);
    assert!(session.egress_chat(&a).is_some());
}

#[test]
fn slow_subscriber_does_not_stall_active_one() {
    let mut session = Session::new(2);
    let _slow = session.attach();
    let active = session.attach();
    for i in 0..50u8 {
        session.ingress(classify(vec![48 + i % 10], None));
        let got = session.egress_pipe(&active).expect("active subscriber must keep receiving");
        assert_eq!(got, vec![112, 105, 112, 101, 58, 48 + i % 10]);
    }
}

#[test]
fn lagged_subscriber_loses_oldest_and_catches_up() {
    let mut topic: Topic<u64> = Topic::new(2);
    let sub = topic.subscribe();
    topic.publish(10);
    topic.publish(20);
    topic.publish(30);
    let r = topic.try_next(sub);
    assert!(matches!(r, Recv::Lagged(1)));
    match topic.try_next(sub) {
        Recv::Msg(i) => assert_eq!(topic.published[i], 20),
        _ => panic!("expected the oldest retained message"),
    }
    match topic.try_next(sub) {
        Recv::Msg(i) => assert_eq!(topic.published[i], 30),
        _ => panic!("expected the newest message"),
    }
    assert!(matches!(topic.try_next(sub), Recv::Empty));
}

#[test]
fn fabricated_session_id_is_refused() {
    let mut registry = Registry::new();
    let real = registry.create(100);
    let fake = b"00000000-0000-0000-0000-000000000000".to_vec();
    assert_ne!(real, fake);
    assert!(registry.lookup(&fake).is_none());
    assert!(registry.lookup(&real).is_some());
}

#[test]
fn created_session_id_has_uuid_length() {
    let mut registry = Registry::new();
    let id = registry.create(100);
    assert_eq!(id.len(), 36);
}

#[test]
fn remove_is_idempotent() {
    let mut registry = Registry::new();
    let id = registry.create(100);
    let other = registry.create(100);
    registry.remove(&id);
    assert!(registry.lookup(&id).is_none());
    assert!(registry.lookup(&other).is_some());
    registry.remove(&id);
    assert!(registry.lookup(&id).is_none());
    assert!(registry.lookup(&other).is_some());
    assert_eq!(registry.entries.len(), 1);
}

#[test]
fn each_subscriber_gets_every_message_independently() {
    let mut session = Session::new(100);
    let a = session.attach();
    let b = session.attach();
    session.ingress(classify(b"shared".to_vec(), None));
    assert_eq!(session.egress_pipe(&a), Some(b"pipe:shared".to_vec()));
    assert_eq!(session.egress_pipe(&b), Some(b"pipe:shared".to_vec()));
}
