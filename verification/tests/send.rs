use chat_server::chats::chat_struct::Chat;
use chat_server::directory::{Participant, UserDirectory};
use chat_server::errors::error::ChatError;
use chat_server::hub::{Delivery, Hub};
use chat_server::live::LiveView;
use chat_server::send::{send, SendAction, SendRequest};
use chat_server::store::ConversationStore;
use chat_server::timestamp::Timestamp;
use chat_server::user::user_struct::Gender;

fn at(unix_seconds: i64) -> Timestamp {
    Timestamp::from_unix_nanos(unix_seconds as i128 * 1_000_000_000).unwrap()
}

fn person(id: i32, name: &str) -> Participant {
    Participant { id, display_name: name.to_string(), display_image: None, gender: Gender::Other }
}

fn people() -> UserDirectory {
    let mut directory = UserDirectory::new();
    for (id, name) in [(1, "Ana"), (2, "Ben"), (5, "Eve"), (6, "Fay"), (7, "Gus")] {
        directory.insert(person(id, name)).unwrap();
    }
    directory
}

fn request(sender: i32, receiver: i32, body: &str) -> SendRequest {
    SendRequest { sender_id: sender, receiver_id: receiver, message: body.to_string() }
}

#[test]
fn a_sent_message_is_stored_published_and_shown_to_both_sides() {
    let mut store = ConversationStore::new(at(0));
    let mut hub = Hub::new(1024).unwrap();
    let directory = people();
    let watcher = hub.subscribe().unwrap();
    let t1 = at(1_546_300_800);
    store.set_clock(t1);

    let sent = send(&mut store, &mut hub, &directory, 1, &request(1, 2, "hi"));
    assert_eq!(sent.map(|t| t.unix_nanos()), Ok(t1.unix_nanos()));

    match hub.poll(watcher) {
        Delivery::Event(e) => {
            assert_eq!(e.sender_id, 1);
            assert_eq!(e.receiver_id, 2);
            assert_eq!(e.message, "hi");
            assert_eq!(e.created_at.unix_nanos(), t1.unix_nanos());
            let view = LiveView::open(&person(2, "Ben"), &directory, 1, 2).ok().unwrap();
            assert!(view.watches(&e));
        }
        _ => panic!("the subscriber was registered before the send"),
    }

    let for_sender = Chat::get_messages(&store, &directory, 1, 2).ok().unwrap();
    assert_eq!(for_sender.messages.len(), 1);
    assert!(!for_sender.messages[0].is_receiver_message);
    let for_receiver = Chat::get_messages(&store, &directory, 2, 1).ok().unwrap();
    assert_eq!(for_receiver.messages.len(), 1);
    assert!(for_receiver.messages[0].is_receiver_message);
    assert_eq!(for_receiver.messages[0].message, for_sender.messages[0].message);
    assert_eq!(for_receiver.messages[0].created_at, for_sender.messages[0].created_at);

    let stored = store.list_between(1, 2);
    assert_eq!(stored[0].receiver_display_name, "Ben");
    assert_eq!(stored[0].created_at.unix_nanos(), t1.unix_nanos());
}

#[test]
fn a_send_in_another_name_is_unauthorized_and_leaves_no_trace() {
    let mut store = ConversationStore::new(at(0));
    let mut hub = Hub::new(8).unwrap();
    let directory = people();
    let watcher = hub.subscribe().unwrap();
    let sent = send(&mut store, &mut hub, &directory, 7, &request(5, 6, "x"));
    assert_eq!(sent.map(|t| t.unix_nanos()), Err(ChatError::Unauthorized));
    assert_eq!(store.len(), 0);
    assert!(matches!(hub.poll(watcher), Delivery::Empty));
}

#[test]
fn a_send_to_nobody_is_not_found_and_leaves_no_trace() {
    let mut store = ConversationStore::new(at(0));
    let mut hub = Hub::new(8).unwrap();
    let directory = people();
    let watcher = hub.subscribe().unwrap();
    let sent = send(&mut store, &mut hub, &directory, 1, &request(1, 99, "x"));
    assert_eq!(sent.map(|t| t.unix_nanos()), Err(ChatError::NotFound));
    assert_eq!(store.len(), 0);
    assert!(matches!(hub.poll(watcher), Delivery::Empty));
}

#[test]
fn an_empty_message_is_invalid_input() {
    let mut store = ConversationStore::new(at(0));
    let mut hub = Hub::new(8).unwrap();
    let directory = people();
    let sent = send(&mut store, &mut hub, &directory, 1, &request(1, 2, ""));
    assert_eq!(sent.map(|t| t.unix_nanos()), Err(ChatError::InvalidInput));
    assert_eq!(store.len(), 0);
    let unauthorized_first = send(&mut store, &mut hub, &directory, 2, &request(1, 2, ""));
    assert_eq!(unauthorized_first.map(|t| t.unix_nanos()), Err(ChatError::Unauthorized));
}

#[test]
fn an_unknown_receiver_is_told_before_an_empty_message() {
    let mut store = ConversationStore::new(at(0));
    let mut hub = Hub::new(8).unwrap();
    let directory = people();
    let watcher = hub.subscribe().unwrap();
    let sent = send(&mut store, &mut hub, &directory, 1, &request(1, 99, ""));
    assert_eq!(sent.map(|t| t.unix_nanos()), Err(ChatError::NotFound));
    assert_eq!(store.len(), 0);
    assert!(matches!(hub.poll(watcher), Delivery::Empty));
    let stranger = send(&mut store, &mut hub, &directory, 7, &request(1, 99, ""));
    assert_eq!(stranger.map(|t| t.unix_nanos()), Err(ChatError::Unauthorized));
}

#[test]
fn a_send_nobody_listens_to_still_succeeds() {
    let mut store = ConversationStore::new(at(0));
    let mut hub = Hub::new(8).unwrap();
    let directory = people();
    store.set_clock(at(9));
    let sent = send(&mut store, &mut hub, &directory, 1, &request(1, 2, "anyone?"));
    assert_eq!(sent.map(|t| t.unix_nanos()), Ok(9_000_000_000));
    assert_eq!(store.len(), 1);
}

#[test]
fn a_send_on_a_closed_hub_is_stored_all_the_same() {
    let mut store = ConversationStore::new(at(0));
    let mut hub = Hub::new(8).unwrap();
    let directory = people();
    let watcher = hub.subscribe().unwrap();
    hub.close();
    let sent = send(&mut store, &mut hub, &directory, 1, &request(1, 2, "late"));
    assert!(sent.is_ok());
    assert_eq!(store.len(), 1);
    assert!(matches!(hub.poll(watcher), Delivery::Closed));
}

#[test]
fn sequential_sends_are_published_in_the_order_they_were_stored() {
    let mut store = ConversationStore::new(at(0));
    let mut hub = Hub::new(8).unwrap();
    let directory = people();
    let watcher = hub.subscribe().unwrap();
    for (i, text) in ["a", "b", "c"].iter().enumerate() {
        store.set_clock(at(i as i64));
        send(&mut store, &mut hub, &directory, 1, &request(1, 2, text)).unwrap();
    }
    let mut seen = Vec::new();
    while let Delivery::Event(e) = hub.poll(watcher) {
        seen.push(e.message);
    }
    assert_eq!(seen, vec!["a", "b", "c"]);
    let stored: Vec<String> = store.list_between(1, 2).into_iter().map(|m| m.body).collect();
    assert_eq!(stored, seen);
}

#[test]
fn the_steps_lead_from_the_request_to_the_event() {
    let r = request(1, 2, "hi");
    assert!(matches!(r.begin(1), SendAction::ResolveReceiver(2)));
    assert!(matches!(r.begin(3), SendAction::Reject(ChatError::Unauthorized)));
    assert!(matches!(request(1, 2, "").begin(1), SendAction::ResolveReceiver(2)));
    assert!(matches!(request(1, 2, "").begin(3), SendAction::Reject(ChatError::Unauthorized)));
    assert!(matches!(r.on_receiver(None), SendAction::Reject(ChatError::NotFound)));
    assert!(matches!(request(1, 2, "").on_receiver(None), SendAction::Reject(ChatError::NotFound)));
    assert!(matches!(
        request(1, 2, "").on_receiver(Some("Ben".to_string())),
        SendAction::Reject(ChatError::InvalidInput)
    ));
    match r.on_receiver(Some("Ben".to_string())) {
        SendAction::Persist { sender_id, receiver_id, message, receiver_display_name } => {
            assert_eq!(sender_id, 1);
            assert_eq!(receiver_id, 2);
            assert_eq!(message, "hi");
            assert_eq!(receiver_display_name, "Ben");
        }
        _ => panic!("a known receiver lets the message be stored"),
    }
    assert!(matches!(
        r.on_stored(Err(ChatError::StorageError)),
        SendAction::Reject(ChatError::StorageError)
    ));
    match r.on_stored(Ok(at(5))) {
        SendAction::Publish(e) => {
            assert_eq!(e.sender_id, 1);
            assert_eq!(e.receiver_id, 2);
            assert_eq!(e.message, "hi");
            assert_eq!(e.created_at.unix_nanos(), 5_000_000_000);
        }
        _ => panic!("a stored message is published"),
    }
}
