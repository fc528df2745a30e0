use chat_relay::bus::{Bus, RecvResult, SubscriberId, DEFAULT_CAPACITY};
use chat_relay::message::{Message, ValidationError, MAX_FIELD_LEN};
use chat_relay::session::{Action, Stage, Subscription};
use chat_relay::{post, rocket};

fn msg(room: &str, username: &str, body: &str) -> Message {
    Message::new(room.to_string(), username.to_string(), body.to_string()).unwrap()
}

fn expect_message(r: RecvResult) -> Message {
    match r {
        RecvResult::Message(m) => m,
        other => panic!("expected a message, got {:?}", other),
    }
}

#[test]
fn accepts_fields_at_the_limit() {
    let room = "a".repeat(MAX_FIELD_LEN);
    let user = "u".repeat(30);
    let m = Message::new(room.clone(), user.clone(), "x".repeat(5000)).unwrap();
    assert_eq!(m.room, room);
    assert_eq!(m.username, user);
    assert_eq!(m.message.len(), 5000);
}

#[test]
fn rejects_room_of_31_characters() {
    let r = Message::new("a".repeat(31), "bob".to_string(), "hi".to_string());
    assert_eq!(r, Err(ValidationError::RoomTooLong));
}

#[test]
fn rejects_long_username() {
    let r = Message::new("lobby".to_string(), "b".repeat(31), "hi".to_string());
    assert_eq!(r, Err(ValidationError::UsernameTooLong));
}

#[test]
fn room_is_checked_before_username() {
    let r = Message::new("a".repeat(40), "b".repeat(40), String::new());
    assert_eq!(r, Err(ValidationError::RoomTooLong));
}

#[test]
fn lengths_count_characters_not_bytes() {
    let room = "é".repeat(30);
    assert_eq!(room.len(), 60);
    assert!(Message::new(room, "bob".to_string(), "hi".to_string()).is_ok());
    let r = Message::new("é".repeat(31), "bob".to_string(), "hi".to_string());
    assert_eq!(r, Err(ValidationError::RoomTooLong));
}

#[test]
fn duplicate_keeps_fields() {
    let m = msg("lobby", "bob", "hi");
    let d = m.duplicate();
    assert_eq!(d, m);
}

#[test]
fn server_bus_has_default_capacity() {
    let bus = rocket();
    assert_eq!(bus.capacity(), 1024);
    assert_eq!(DEFAULT_CAPACITY, 1024);
    assert_eq!(bus.published(), 0);
    assert!(!bus.is_closed());
    assert!(!bus.has_subscribers());
}

#[test]
fn invalid_post_is_rejected_and_valid_post_is_delivered_verbatim() {
    let mut bus = rocket();
    let id = bus.subscribe();
    let r = post(&mut bus, "a".repeat(31), "bob".to_string(), "hi".to_string());
    assert_eq!(r, Err(ValidationError::RoomTooLong));
    assert_eq!(bus.published(), 0);
    assert!(matches!(bus.recv(id), RecvResult::Empty));
    let r = post(&mut bus, "lobby".to_string(), "bob".to_string(), "hi".to_string());
    assert_eq!(r, Ok(()));
    let got = expect_message(bus.recv(id));
    assert_eq!(got.room, "lobby");
    assert_eq!(got.username, "bob");
    assert_eq!(got.message, "hi");
}

#[test]
fn post_without_subscribers_succeeds() {
    let mut bus = rocket();
    let r = post(&mut bus, "lobby".to_string(), "bob".to_string(), "hi".to_string());
    assert_eq!(r, Ok(()));
    assert_eq!(bus.published(), 0);
}

#[test]
fn messages_arrive_in_publish_order() {
    let mut bus = Bus::new(8);
    let id = bus.subscribe();
    for i in 0..5 {
        assert!(bus.publish(msg("r", "u", &format!("m{}", i))));
    }
    for i in 0..5 {
        assert_eq!(expect_message(bus.recv(id)).message, format!("m{}", i));
    }
    assert!(matches!(bus.recv(id), RecvResult::Empty));
}

#[test]
fn fan_out_reaches_every_subscriber_independently() {
    let mut bus = Bus::new(4);
    let a = bus.subscribe();
    let b = bus.subscribe();
    let c = bus.subscribe();
    assert_ne!(a, b);
    assert_ne!(b, c);
    assert!(bus.publish(msg("r", "u", "one")));
    assert!(bus.publish(msg("r", "u", "two")));
    assert_eq!(expect_message(bus.recv(a)).message, "one");
    assert_eq!(expect_message(bus.recv(a)).message, "two");
    assert!(matches!(bus.recv(a), RecvResult::Empty));
    assert_eq!(expect_message(bus.recv(c)).message, "one");
    assert_eq!(expect_message(bus.recv(b)).message, "one");
    assert_eq!(expect_message(bus.recv(b)).message, "two");
    assert_eq!(expect_message(bus.recv(c)).message, "two");
}

#[test]
fn publish_with_no_subscribers_has_no_effect() {
    let mut bus = Bus::new(2);
    for _ in 0..10 {
        assert!(!bus.publish(msg("r", "u", "lost")));
    }
    assert_eq!(bus.published(), 0);
    let id = bus.subscribe();
    assert!(matches!(bus.recv(id), RecvResult::Empty));
}

#[test]
fn lagging_subscriber_skips_ahead_and_resumes() {
    let mut bus = Bus::new(2);
    let id = bus.subscribe();
    for i in 0..5 {
        bus.publish(msg("r", "u", &format!("m{}", i)));
    }
    assert!(matches!(bus.recv(id), RecvResult::Lagged(3)));
    assert_eq!(expect_message(bus.recv(id)).message, "m3");
    assert_eq!(expect_message(bus.recv(id)).message, "m4");
    assert!(matches!(bus.recv(id), RecvResult::Empty));
    bus.publish(msg("r", "u", "m5"));
    assert_eq!(expect_message(bus.recv(id)).message, "m5");
}

#[test]
fn ring_wraps_around_many_times() {
    let mut bus = Bus::new(3);
    let id = bus.subscribe();
    for i in 0..20 {
        bus.publish(msg("r", "u", &format!("m{}", i)));
        if i % 2 == 1 {
            assert_eq!(expect_message(bus.recv(id)).message, format!("m{}", i - 1));
            assert_eq!(expect_message(bus.recv(id)).message, format!("m{}", i));
        }
    }
    assert_eq!(bus.published(), 20);
}

#[test]
fn late_subscriber_never_sees_earlier_message() {
    let mut bus = Bus::new(4);
    let early = bus.subscribe();
    bus.publish(msg("r", "u", "M1"));
    let late = bus.subscribe();
    bus.publish(msg("r", "u", "M2"));
    assert_eq!(expect_message(bus.recv(late)).message, "M2");
    assert!(matches!(bus.recv(late), RecvResult::Empty));
    assert_eq!(expect_message(bus.recv(early)).message, "M1");
}

#[test]
fn closed_bus_drains_then_reports_closed() {
    let mut bus = Bus::new(4);
    let id = bus.subscribe();
    bus.publish(msg("r", "u", "last"));
    bus.close();
    assert!(bus.is_closed());
    assert!(!bus.publish(msg("r", "u", "after")));
    assert_eq!(expect_message(bus.recv(id)).message, "last");
    assert!(matches!(bus.recv(id), RecvResult::Closed));
    assert!(matches!(bus.recv(id), RecvResult::Closed));
}

#[test]
fn unsubscribed_handle_reads_closed_and_slot_is_reused() {
    let mut bus = Bus::new(4);
    let a = bus.subscribe();
    let b = bus.subscribe();
    bus.unsubscribe(a);
    assert!(matches!(bus.recv(a), RecvResult::Closed));
    assert!(matches!(bus.recv(SubscriberId { index: 9 }), RecvResult::Closed));
    let c = bus.subscribe();
    assert_eq!(c, a);
    assert_ne!(c, b);
    bus.unsubscribe(b);
    bus.unsubscribe(c);
    assert!(!bus.has_subscribers());
}

#[test]
fn subscription_streams_then_waits() {
    let mut bus = Bus::new(4);
    let mut sub = Subscription::new();
    assert_eq!(sub.stage, Stage::Idle);
    sub.start(&mut bus);
    assert!(matches!(sub.stage, Stage::Streaming(_)));
    assert!(bus.has_subscribers());
    assert!(matches!(sub.poll(&mut bus), Action::Wait));
    bus.publish(msg("lobby", "bob", "hi"));
    match sub.poll(&mut bus) {
        Action::Emit(m) => assert_eq!(m, msg("lobby", "bob", "hi")),
        other => panic!("expected an event, got {:?}", other),
    }
    assert!(matches!(sub.poll(&mut bus), Action::Wait));
}

#[test]
fn subscription_absorbs_lag() {
    let mut bus = Bus::new(1);
    let mut sub = Subscription::new();
    sub.start(&mut bus);
    bus.publish(msg("r", "u", "a"));
    bus.publish(msg("r", "u", "b"));
    assert!(matches!(sub.poll(&mut bus), Action::Continue));
    match sub.poll(&mut bus) {
        Action::Emit(m) => assert_eq!(m.message, "b"),
        other => panic!("expected an event, got {:?}", other),
    }
}

#[test]
fn subscription_finishes_when_bus_closes() {
    let mut bus = Bus::new(4);
    let mut sub = Subscription::new();
    sub.start(&mut bus);
    bus.publish(msg("r", "u", "a"));
    bus.close();
    assert!(matches!(sub.poll(&mut bus), Action::Emit(_)));
    assert!(matches!(sub.poll(&mut bus), Action::Finish));
    assert_eq!(sub.stage, Stage::Terminated);
    assert!(!bus.has_subscribers());
    assert!(matches!(sub.poll(&mut bus), Action::Finish));
    assert!(!sub.cancel(&mut bus));
}

#[test]
fn cancellation_releases_once() {
    let mut bus = Bus::new(4);
    let mut sub = Subscription::new();
    sub.start(&mut bus);
    assert!(sub.cancel(&mut bus));
    assert_eq!(sub.stage, Stage::Terminated);
    assert!(!bus.has_subscribers());
    assert!(!sub.cancel(&mut bus));
    sub.start(&mut bus);
    assert_eq!(sub.stage, Stage::Terminated);
    assert!(!bus.has_subscribers());
}

#[test]
fn cancelling_an_idle_stream_releases_nothing() {
    let mut bus = Bus::new(4);
    let mut sub = Subscription::new();
    assert!(!sub.cancel(&mut bus));
    assert_eq!(sub.stage, Stage::Terminated);
}
