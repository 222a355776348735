use chat_server::consts::{PLACEHOLDER_IMAGE_FEMALE, PLACEHOLDER_IMAGE_MALE};
use chat_server::directory::{Participant, UserDirectory};
use chat_server::errors::error::ChatError;
use chat_server::hub::{BroadcastEvent, Delivery, Hub};
use chat_server::live::{authorize_watch, element_id, LiveAction, LiveView};
use chat_server::timestamp::Timestamp;
use chat_server::user::user_struct::Gender;

fn person(id: i32, name: &str, image: Option<&str>, gender: Gender) -> Participant {
    Participant { id, display_name: name.to_string(), display_image: image.map(|s| s.to_string()), gender }
}

fn ana() -> Participant {
    person(1, "Ana", None, Gender::Female)
}

fn people() -> UserDirectory {
    let mut directory = UserDirectory::new();
    directory.insert(ana()).unwrap();
    directory.insert(person(2, "Ben", Some("http://ben.png"), Gender::Male)).unwrap();
    directory
}

fn event(sender: i32, receiver: i32, body: &str) -> BroadcastEvent {
    BroadcastEvent {
        sender_id: sender,
        receiver_id: receiver,
        message: body.to_string(),
        created_at: Timestamp::from_unix_nanos(1_546_300_800_000_000_000).unwrap(),
    }
}

#[test]
fn only_the_two_participants_may_watch() {
    assert_eq!(authorize_watch(1, 1, 2), Ok(()));
    assert_eq!(authorize_watch(2, 1, 2), Ok(()));
    assert_eq!(authorize_watch(3, 1, 2), Err(ChatError::Unauthorized));
    assert_eq!(authorize_watch(1, 1, 1), Ok(()));
}

#[test]
fn a_view_is_opened_for_a_participant_and_a_known_receiver() {
    let directory = people();
    let view = LiveView::open(&ana(), &directory, 1, 2).ok().unwrap();
    assert_eq!(view.user.id, 1);
    assert_eq!(view.receiver.id, 2);
    assert_eq!(view.receiver.display_name, "Ben");
    assert_eq!(view.sender_id, 1);
    assert_eq!(view.receiver_id, 2);
    assert_eq!(LiveView::open(&ana(), &directory, 2, 3).err(), Some(ChatError::Unauthorized));
    assert_eq!(LiveView::open(&ana(), &directory, 1, 9).err(), Some(ChatError::NotFound));
    let gus = person(7, "Gus", None, Gender::Other);
    let own = LiveView::open(&gus, &directory, 2, 7).ok().unwrap();
    assert_eq!(own.receiver.display_name, "Gus");
}

#[test]
fn a_view_of_one_pair_never_shows_an_event_of_another() {
    let directory = people();
    let view = LiveView::open(&ana(), &directory, 1, 2).ok().unwrap();
    let foreign = event(3, 4, "psst");
    assert!(!view.watches(&foreign));
    assert!(view.render(&foreign).is_none());
    assert!(matches!(view.on_delivery(Delivery::Event(foreign)), LiveAction::Skip));
    for (s, r) in [(1, 3), (3, 1), (2, 3), (3, 2), (1, 1), (2, 2)] {
        assert!(view.render(&event(s, r, "x")).is_none());
    }
    assert!(view.render(&event(1, 2, "x")).is_some());
    assert!(view.render(&event(2, 1, "x")).is_some());
}

#[test]
fn an_own_message_is_shown_under_the_viewers_name() {
    let directory = people();
    let view = LiveView::open(&ana(), &directory, 1, 2).ok().unwrap();
    let shown = view.render(&event(1, 2, "hi")).unwrap();
    assert!(!shown.is_receiver);
    assert_eq!(shown.name, "Ana");
    assert_eq!(shown.display_image, PLACEHOLDER_IMAGE_FEMALE);
    assert_eq!(shown.message, "hi");
    assert_eq!(shown.created_at, "2019-January-1 at 0:0:0");
    assert_eq!(shown.element_id, "msg_12");
}

#[test]
fn the_others_message_is_shown_under_the_receivers_name() {
    let directory = people();
    let view = LiveView::open(&ana(), &directory, 1, 2).ok().unwrap();
    let shown = view.render(&event(2, 1, "hello")).unwrap();
    assert!(shown.is_receiver);
    assert_eq!(shown.name, "Ben");
    assert_eq!(shown.display_image, "http://ben.png");
    assert_eq!(shown.message, "hello");
    let no_picture = LiveView {
        user: ana(),
        receiver: person(2, "Ben", Some(""), Gender::Male),
        sender_id: 1,
        receiver_id: 2,
    };
    assert_eq!(no_picture.render(&event(2, 1, "x")).unwrap().display_image, PLACEHOLDER_IMAGE_MALE);
}

#[test]
fn the_element_is_named_by_the_watched_pair() {
    assert_eq!(element_id(1, 2), "msg_12");
    assert_eq!(element_id(10, -3), "msg_10-3");
}

#[test]
fn deliveries_are_shown_skipped_waited_for_or_end_the_view() {
    let directory = people();
    let view = LiveView::open(&ana(), &directory, 1, 2).ok().unwrap();
    assert!(matches!(view.on_delivery(Delivery::Event(event(2, 1, "x"))), LiveAction::Emit(_)));
    assert!(matches!(view.on_delivery(Delivery::Lagged(3)), LiveAction::Skip));
    assert!(matches!(view.on_delivery(Delivery::Empty), LiveAction::Wait));
    assert!(matches!(view.on_delivery(Delivery::Closed), LiveAction::Stop));
    assert!(matches!(view.on_delivery(Delivery::Cancelled), LiveAction::Stop));
}

#[test]
fn draining_shows_the_watched_events_in_order_and_leaves_the_others_alone() {
    let directory = people();
    let view = LiveView::open(&ana(), &directory, 1, 2).ok().unwrap();
    let mut hub = Hub::new(8).unwrap();
    let mine = hub.subscribe().unwrap();
    let other = hub.subscribe().unwrap();
    hub.publish(event(1, 2, "a"));
    hub.publish(event(3, 4, "not ours"));
    hub.publish(event(2, 1, "b"));
    let (shown, ended) = view.drain(&mut hub, mine);
    assert!(!ended);
    let texts: Vec<&str> = shown.iter().map(|m| m.message.as_str()).collect();
    assert_eq!(texts, vec!["a", "b"]);
    assert!(matches!(hub.poll(mine), Delivery::Empty));
    let mut left = 0;
    while let Delivery::Event(_) = hub.poll(other) {
        left += 1;
    }
    assert_eq!(left, 3);
}

#[test]
fn draining_skips_over_a_gap() {
    let directory = people();
    let view = LiveView::open(&ana(), &directory, 1, 2).ok().unwrap();
    let mut hub = Hub::new(2).unwrap();
    let mine = hub.subscribe().unwrap();
    for text in ["1", "2", "3"] {
        hub.publish(event(1, 2, text));
    }
    let (shown, ended) = view.drain(&mut hub, mine);
    assert!(!ended);
    let texts: Vec<&str> = shown.iter().map(|m| m.message.as_str()).collect();
    assert_eq!(texts, vec!["2", "3"]);
}

#[test]
fn draining_ends_with_the_hub_or_the_subscription() {
    let directory = people();
    let view = LiveView::open(&ana(), &directory, 1, 2).ok().unwrap();
    let mut hub = Hub::new(2).unwrap();
    let mine = hub.subscribe().unwrap();
    hub.publish(event(1, 2, "last"));
    hub.close();
    let (shown, ended) = view.drain(&mut hub, mine);
    assert!(ended);
    assert_eq!(shown.len(), 1);
    let (nothing, ended) = view.drain(&mut hub, 99);
    assert!(ended);
    assert!(nothing.is_empty());
}
