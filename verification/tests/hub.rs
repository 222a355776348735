use chat_server::hub::{BroadcastEvent, Delivery, Hub};
use chat_server::timestamp::Timestamp;

fn event(sender: i32, receiver: i32, body: &str) -> BroadcastEvent {
    BroadcastEvent {
        sender_id: sender,
        receiver_id: receiver,
        message: body.to_string(),
        created_at: Timestamp::from_unix_nanos(0).unwrap(),
    }
}

fn body(delivery: Delivery) -> String {
    match delivery {
        Delivery::Event(e) => e.message,
        Delivery::Lagged(n) => format!("<lagged {}>", n),
        Delivery::Empty => "<empty>".to_string(),
        Delivery::Closed => "<closed>".to_string(),
        Delivery::Cancelled => "<cancelled>".to_string(),
    }
}

#[test]
fn there_is_no_hub_without_a_backlog() {
    assert!(Hub::new(0).is_none());
    let hub = Hub::new(1024).unwrap();
    assert_eq!(hub.capacity(), 1024);
    assert_eq!(hub.subscriber_count(), 0);
    assert!(!hub.is_closed());
}

#[test]
fn an_event_without_subscribers_is_dropped() {
    let mut hub = Hub::new(4).unwrap();
    assert_eq!(hub.publish(event(1, 2, "lost")), 0);
    let late = hub.subscribe().unwrap();
    assert_eq!(body(hub.poll(late)), "<empty>");
}

#[test]
fn a_subscriber_receives_what_is_published_after_it_subscribed() {
    let mut hub = Hub::new(4).unwrap();
    let early = hub.subscribe().unwrap();
    assert_eq!(hub.publish(event(1, 2, "one")), 1);
    let late = hub.subscribe().unwrap();
    assert_eq!(hub.publish(event(1, 2, "two")), 2);
    assert_eq!(body(hub.poll(early)), "one");
    assert_eq!(body(hub.poll(early)), "two");
    assert_eq!(body(hub.poll(early)), "<empty>");
    assert_eq!(body(hub.poll(late)), "two");
    assert_eq!(body(hub.poll(late)), "<empty>");
}

#[test]
fn delivery_carries_the_whole_event() {
    let mut hub = Hub::new(4).unwrap();
    let id = hub.subscribe().unwrap();
    let sent = BroadcastEvent {
        sender_id: 1,
        receiver_id: 2,
        message: "hi".to_string(),
        created_at: Timestamp::from_unix_nanos(77).unwrap(),
    };
    hub.publish(sent.duplicate());
    match hub.poll(id) {
        Delivery::Event(got) => {
            assert_eq!(got.sender_id, 1);
            assert_eq!(got.receiver_id, 2);
            assert_eq!(got.message, "hi");
            assert_eq!(got.created_at.unix_nanos(), 77);
        }
        _ => panic!("an event was published"),
    }
}

#[test]
fn subscribers_read_at_their_own_pace() {
    let mut hub = Hub::new(8).unwrap();
    let a = hub.subscribe().unwrap();
    let b = hub.subscribe().unwrap();
    assert_ne!(a, b);
    for name in ["1", "2", "3"] {
        assert_eq!(hub.publish(event(1, 2, name)), 2);
    }
    assert_eq!(body(hub.poll(a)), "1");
    assert_eq!(body(hub.poll(a)), "2");
    assert_eq!(body(hub.poll(b)), "1");
    assert_eq!(body(hub.poll(a)), "3");
    assert_eq!(body(hub.poll(a)), "<empty>");
    assert_eq!(body(hub.poll(b)), "2");
    assert_eq!(body(hub.poll(b)), "3");
    assert_eq!(body(hub.poll(b)), "<empty>");
}

#[test]
fn a_full_backlog_is_delivered_without_loss() {
    let mut hub = Hub::new(3).unwrap();
    let id = hub.subscribe().unwrap();
    for name in ["1", "2", "3"] {
        hub.publish(event(1, 2, name));
    }
    assert_eq!(body(hub.poll(id)), "1");
    assert_eq!(body(hub.poll(id)), "2");
    assert_eq!(body(hub.poll(id)), "3");
    assert_eq!(body(hub.poll(id)), "<empty>");
}

#[test]
fn a_slow_subscriber_is_told_what_it_lost_and_goes_on_with_the_oldest_left() {
    let mut hub = Hub::new(2).unwrap();
    let slow = hub.subscribe().unwrap();
    let quick = hub.subscribe().unwrap();
    hub.publish(event(1, 2, "1"));
    assert_eq!(body(hub.poll(quick)), "1");
    hub.publish(event(1, 2, "2"));
    assert_eq!(body(hub.poll(quick)), "2");
    hub.publish(event(1, 2, "3"));
    hub.publish(event(1, 2, "4"));
    hub.publish(event(1, 2, "5"));
    assert_eq!(body(hub.poll(slow)), "<lagged 3>");
    assert_eq!(body(hub.poll(slow)), "4");
    assert_eq!(body(hub.poll(slow)), "5");
    assert_eq!(body(hub.poll(slow)), "<empty>");
    assert_eq!(body(hub.poll(quick)), "<lagged 1>");
    assert_eq!(body(hub.poll(quick)), "4");
    assert_eq!(body(hub.poll(quick)), "5");
}

#[test]
fn a_cancelled_subscription_gets_nothing_and_holds_nothing() {
    let mut hub = Hub::new(4).unwrap();
    let a = hub.subscribe().unwrap();
    let b = hub.subscribe().unwrap();
    hub.publish(event(1, 2, "x"));
    assert!(hub.has_subscriber(a));
    assert!(hub.unsubscribe(a));
    assert!(!hub.has_subscriber(a));
    assert!(!hub.unsubscribe(a));
    assert_eq!(hub.subscriber_count(), 1);
    assert_eq!(body(hub.poll(a)), "<cancelled>");
    assert_eq!(hub.publish(event(1, 2, "y")), 1);
    assert_eq!(body(hub.poll(b)), "x");
    assert_eq!(body(hub.poll(b)), "y");
    let c = hub.subscribe().unwrap();
    assert_ne!(c, a);
    assert_ne!(c, b);
}

#[test]
fn a_closed_hub_hands_out_what_waits_and_then_ends() {
    let mut hub = Hub::new(4).unwrap();
    let id = hub.subscribe().unwrap();
    hub.publish(event(1, 2, "last"));
    hub.close();
    assert!(hub.is_closed());
    assert_eq!(hub.publish(event(1, 2, "too late")), 0);
    assert!(hub.subscribe().is_none());
    assert_eq!(body(hub.poll(id)), "last");
    assert_eq!(body(hub.poll(id)), "<closed>");
    assert_eq!(body(hub.poll(id)), "<closed>");
}

#[test]
fn an_unknown_subscription_is_cancelled() {
    let mut hub = Hub::new(4).unwrap();
    assert_eq!(body(hub.poll(17)), "<cancelled>");
    assert!(!hub.unsubscribe(17));
}

#[test]
fn nothing_is_lost_however_publishes_and_polls_alternate() {
    let mut hub = Hub::new(4).unwrap();
    let watcher = hub.subscribe().unwrap();
    let mut handed = Vec::new();
    let mut take = |hub: &mut Hub, handed: &mut Vec<String>| {
        if let Delivery::Event(e) = hub.poll(watcher) {
            handed.push(e.message);
        }
    };
    hub.publish(event(1, 2, "a"));
    let other = hub.subscribe().unwrap();
    hub.publish(event(3, 4, "b"));
    take(&mut hub, &mut handed);
    hub.publish(event(2, 1, "c"));
    assert_eq!(body(hub.poll(other)), "b");
    hub.publish(event(1, 2, "d"));
    take(&mut hub, &mut handed);
    take(&mut hub, &mut handed);
    assert!(hub.unsubscribe(other));
    hub.publish(event(1, 2, "e"));
    hub.publish(event(1, 2, "f"));
    take(&mut hub, &mut handed);
    assert_eq!(handed, vec!["a", "b", "c", "d"]);
    let mut waiting = Vec::new();
    while let Delivery::Event(e) = hub.poll(watcher) {
        waiting.push(e.message);
    }
    assert_eq!(waiting, vec!["e", "f"]);
    assert_eq!(body(hub.poll(watcher)), "<empty>");
}
