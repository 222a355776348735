use chat_server::api::search::{
    search, unauthorized_search, wants_lookup, SearchData, SearchResult,
};
use chat_server::chats::chat_struct::{Chat, MessagesInChat};
use chat_server::consts::{PLACEHOLDER_IMAGE_FEMALE, PLACEHOLDER_IMAGE_OTHER};
use chat_server::directory::Participant;
use chat_server::errors::error::ChatError;
use chat_server::pages::auth::api::logout::logout_user;
use chat_server::pages::auth::index::{page as greeting_page, AuthPage};
use chat_server::pages::homepage::page as home_page;
use chat_server::pages::chats::api::chats_of_user::{
    chats_of_user, error_if_logged_out, present_chats, ChatsOfUser,
};
use chat_server::pages::chats::index::{page as chats_page, plan, ChatsPage, ChatsPlan};
use chat_server::response::Status;
use chat_server::timestamp::Timestamp;
use chat_server::user::actions::UserActions;
use chat_server::user::user_struct::{Gender, PartialUser, User, UserRole, UserStatus};
use chat_server::utils::custom_redirect::Redirect;

fn at(unix_seconds: i64) -> Timestamp {
    Timestamp::from_unix_nanos(unix_seconds as i128 * 1_000_000_000).unwrap()
}

fn user(id: i32, last_login: i64) -> User {
    User::new(
        id,
        "Ana".to_string(),
        None,
        Some("bio".to_string()),
        at(0),
        at(last_login),
        UserStatus::Active,
        Gender::Female,
        UserRole::User,
        vec!["old.png".to_string()],
    )
}

fn chat(id: i32, sender: i32, receiver: i32, text: &str) -> Chat {
    Chat::new(
        id,
        format!("name{}", receiver),
        receiver,
        format!("avatar{}", receiver),
        format!("name{}", sender),
        sender,
        format!("avatar{}", sender),
        at(1),
        text.to_string(),
    )
}

fn conversation() -> MessagesInChat {
    MessagesInChat::new(
        "sender_id=1&receiver_id=2".to_string(),
        "Ben".to_string(),
        2,
        "b.png".to_string(),
        "Ana".to_string(),
        1,
        "a.png".to_string(),
        vec![],
    )
}

#[test]
fn a_new_user_keeps_every_field() {
    let u = user(4, 50);
    assert_eq!(u.id, 4);
    assert_eq!(u.display_name, "Ana");
    assert_eq!(u.display_image, None);
    assert_eq!(u.biography.as_deref(), Some("bio"));
    assert_eq!(u.creation_date.unix_nanos(), 0);
    assert_eq!(u.last_login_date.unix_nanos(), 50_000_000_000);
    assert_eq!(u.status, UserStatus::Active);
    assert_eq!(u.gender, Gender::Female);
    assert_eq!(u.role, UserRole::User);
    assert_eq!(u.profile_pictures, vec!["old.png".to_string()]);
    let p = Participant::of_user(&u);
    assert_eq!(p.id, 4);
    assert_eq!(p.display_name, "Ana");
    assert_eq!(p.display_image, None);
    assert_eq!(p.gender, Gender::Female);
}

#[test]
fn redirects_point_where_the_routes_are_mounted() {
    assert_eq!(chat_server::pages::auth::index::redirect_if_logged_out(), "/auth/login");
    assert_eq!(chat_server::pages::auth::login::redirect_if_logged_in(), "/auth");
    assert_eq!(chat_server::pages::auth::register::redirect_if_logged_in(), "/auth");
    assert_eq!(chat_server::pages::chats::index::rederirect_if_logged_out(), "/auth/login");
}

#[test]
fn a_redirect_keeps_a_valid_location_only() {
    let home = Redirect::to("/");
    assert_eq!(home.status, Status::Success);
    assert_eq!(home.location.as_deref(), Some("/"));
    assert_eq!(home.header().ok(), Some((Status::Success, "/".to_string())));
    let deep = Redirect::to("/chats?sender_id=1&receiver_id=2#last");
    assert_eq!(deep.location.as_deref(), Some("/chats?sender_id=1&receiver_id=2#last"));
    let broken = Redirect::to("/a b\n");
    assert_eq!(broken.location, None);
    assert_eq!(broken.header().err(), Some(Status::InternalServerError));
}

#[test]
fn statuses_have_their_numbers() {
    assert_eq!(Status::Success.code(), 200);
    assert_eq!(Status::BadRequest.code(), 400);
    assert_eq!(Status::Unauthorized.code(), 401);
    assert_eq!(Status::NotFound.code(), 404);
    assert_eq!(Status::NotAcceptable.code(), 406);
    assert_eq!(Status::InternalServerError.code(), 500);
}

#[test]
fn signing_out_needs_a_session() {
    let out = logout_user(true).ok().unwrap();
    assert_eq!(out.location.as_deref(), Some("/auth/login"));
    let refused = logout_user(false).err().unwrap();
    assert_eq!(refused.status, Status::NotFound);
    assert_eq!(
        refused.message,
        "invalid_request: You are not logged in. Please try refreshing the page."
    );
}

#[test]
fn the_greeting_is_shown_for_thirty_seconds() {
    let now = at(1_000);
    match greeting_page(&user(1, 980), &now, Some("dark"), None) {
        AuthPage::Template(context) => {
            assert_eq!(context.theme, "dark");
            assert_eq!(context.lang, "en");
        }
        AuthPage::Redirect(_) => panic!("signed in twenty seconds ago"),
    }
    assert!(matches!(greeting_page(&user(1, 970), &now, None, None), AuthPage::Template(_)));
    match greeting_page(&user(1, 969), &now, None, None) {
        AuthPage::Redirect(location) => assert_eq!(location, "/chats"),
        AuthPage::Template(_) => panic!("signed in more than thirty seconds ago"),
    }
}

#[test]
fn the_home_page_shows_a_picture_for_a_visitor_who_is_signed_in() {
    let anonymous = home_page(None, None, Some("ph"));
    assert_eq!(anonymous.placeholder_display_image, None);
    assert_eq!(anonymous.context.theme, "light");
    assert_eq!(anonymous.context.lang, "ph");
    let u = user(1, 0);
    assert_eq!(home_page(Some(&u), None, None).placeholder_display_image.as_deref(), Some(PLACEHOLDER_IMAGE_FEMALE));
    let login = chat_server::pages::auth::login::page(Some("system"), Some("ph"));
    assert_eq!((login.theme, login.lang), ("system", "ph"));
    let register = chat_server::pages::auth::register::page(None, None);
    assert_eq!((register.theme, register.lang), ("light", "en"));
}

#[test]
fn users_are_looked_up_for_every_search_text_but_the_empty_one() {
    assert!(!wants_lookup(&SearchData { search: String::new() }));
    assert!(wants_lookup(&SearchData { search: "b".to_string() }));
    assert!(wants_lookup(&SearchData { search: " ".to_string() }));
}

#[test]
fn searching_for_nothing_shows_nothing() {
    let found = vec![PartialUser { id: 2, display_name: "Ben".to_string(), display_image: None }];
    let data = SearchData { search: String::new() };
    assert!(matches!(search(&data, Some(found)), SearchResult::Nothing));
    assert!(matches!(search(&data, None), SearchResult::Nothing));
}

#[test]
fn searching_shows_who_was_found() {
    let data = SearchData { search: "be".to_string() };
    assert!(matches!(search(&data, Some(vec![])), SearchResult::NoUsersFound));
    assert!(matches!(search(&data, None), SearchResult::NoUsersFound));
    let found = vec![PartialUser { id: 2, display_name: "Ben".to_string(), display_image: None }];
    match search(&data, Some(found)) {
        SearchResult::Users(users) => {
            assert_eq!(users.len(), 1);
            assert_eq!(users[0].id, 2);
            assert_eq!(users[0].display_name, "Ben");
        }
        _ => panic!("one user was found"),
    }
    assert_eq!(
        unauthorized_search(),
        "You are not authorized to search without being logged in."
    );
}

#[test]
fn found_users_are_shown_with_a_picture() {
    let matched = vec![
        Participant { id: 2, display_name: "Ben".to_string(), display_image: Some("b.png".to_string()), gender: Gender::Male },
        Participant { id: 3, display_name: "Cy".to_string(), display_image: None, gender: Gender::Other },
    ];
    let users = User::search_for_users_with_display_name(&matched);
    assert_eq!(users.len(), 2);
    assert_eq!(users[0].id, 2);
    assert_eq!(users[0].display_name, "Ben");
    assert_eq!(users[0].display_image.as_deref(), Some("b.png"));
    assert_eq!(users[1].display_image.as_deref(), Some(PLACEHOLDER_IMAGE_OTHER));
}

#[test]
fn only_the_user_may_see_the_users_inbox() {
    assert_eq!(chats_of_user(3, 3), Ok(()));
    assert_eq!(
        chats_of_user(3, 4),
        Err("unauthorized: You are not authorized to view the chats of User: 4.".to_string())
    );
    assert_eq!(
        error_if_logged_out(12),
        "unauthorized: You are not authorized to view the chats of User: 12."
    );
}

#[test]
fn the_inbox_list_shows_the_other_participant() {
    let chats = vec![chat(7, 1, 2, "to ben"), chat(8, 3, 1, "from cy")];
    match present_chats(1, Ok(chats)) {
        ChatsOfUser::Chats(entries) => {
            assert_eq!(entries.len(), 2);
            assert_eq!(entries[0].receiver_name, "name2");
            assert_eq!(entries[0].receiver_avatar, "avatar2");
            assert_eq!(entries[0].receiver_id, 2);
            assert_eq!(entries[0].sender_id, 1);
            assert_eq!(entries[0].message, "to ben");
            assert_eq!(entries[1].receiver_name, "name3");
            assert_eq!(entries[1].receiver_avatar, "avatar3");
            assert_eq!(entries[1].receiver_id, 3);
            assert_eq!(entries[1].sender_id, 1);
            assert_eq!(entries[1].message, "from cy");
        }
        _ => panic!("two conversations were read"),
    }
    assert!(matches!(present_chats(1, Ok(vec![])), ChatsOfUser::NoChats));
    assert!(matches!(present_chats(1, Err(ChatError::StorageError)), ChatsOfUser::Failed));
}

#[test]
fn the_conversation_page_is_planned_from_the_request() {
    assert_eq!(plan(1, None, None, None).ok(), Some(ChatsPlan::Inbox { user_id: 1 }));
    assert_eq!(plan(1, None, None, Some(false)).ok(), Some(ChatsPlan::Inbox { user_id: 1 }));
    assert_eq!(plan(1, None, None, Some(true)).ok(), Some(ChatsPlan::SelectChat));
    assert_eq!(
        plan(1, None, Some(2), Some(true)).ok(),
        Some(ChatsPlan::Conversation { owner_id: 1, receiver_id: 2 })
    );
    assert_eq!(
        plan(1, Some(1), Some(2), None).ok(),
        Some(ChatsPlan::InboxAndConversation { user_id: 1, receiver_id: 2 })
    );
    assert_eq!(
        plan(1, Some(2), Some(1), Some(true)).ok(),
        Some(ChatsPlan::Conversation { owner_id: 2, receiver_id: 1 })
    );
    let refused = plan(1, Some(2), Some(3), None).err().unwrap();
    assert_eq!(refused.status, Status::Unauthorized);
    assert_eq!(refused.message, "You are not authorized to view this chat.");
    assert!(plan(1, Some(2), None, None).is_err());
}

#[test]
fn the_conversation_page_shows_what_was_read() {
    let u = user(1, 0);
    assert!(matches!(
        chats_page(&u, None, None, ChatsPlan::SelectChat, None, Err(ChatError::NotFound)),
        ChatsPage::SelectChat
    ));
    let alone = ChatsPlan::Conversation { owner_id: 1, receiver_id: 2 };
    match chats_page(&u, None, None, alone, None, Ok(conversation())) {
        ChatsPage::Conversation(chat) => assert_eq!(chat.receiver_name, "Ben"),
        _ => panic!("the conversation was read"),
    }
    assert!(matches!(
        chats_page(&u, None, None, alone, None, Err(ChatError::StorageError)),
        ChatsPage::ConversationFailed(ChatError::StorageError)
    ));
    match chats_page(&u, Some("dark"), None, ChatsPlan::Inbox { user_id: 1 }, Some(vec![chat(1, 1, 2, "x")]), Err(ChatError::NotFound)) {
        ChatsPage::Full(full) => {
            assert_eq!(full.context.theme, "dark");
            assert_eq!(full.chats.map(|c| c.len()), Some(1));
            assert_eq!(full.placeholder_display_image, PLACEHOLDER_IMAGE_FEMALE);
            assert!(full.current_chat.is_none());
            assert_eq!(full.receiver_id, None);
            assert_eq!(full.error, None);
        }
        _ => panic!("the whole page was asked for"),
    }
    let both = ChatsPlan::InboxAndConversation { user_id: 1, receiver_id: 2 };
    match chats_page(&u, None, None, both, None, Ok(conversation())) {
        ChatsPage::Full(full) => {
            assert!(full.chats.is_none());
            assert!(full.current_chat.is_some());
            assert_eq!(full.receiver_id, Some(2));
            assert_eq!(full.error, None);
        }
        _ => panic!("the whole page was asked for"),
    }
    match chats_page(&u, None, None, both, None, Err(ChatError::StorageError)) {
        ChatsPage::Full(full) => {
            assert!(full.current_chat.is_none());
            assert_eq!(full.receiver_id, Some(2));
            assert_eq!(full.error, Some("Failed to get chats."));
        }
        _ => panic!("the whole page was asked for"),
    }
}

#[test]
fn a_replaced_picture_joins_the_earlier_ones_unless_it_was_empty() {
    let new = "new.png".to_string();
    let kept = UserActions::update_display_image(Some(&"old.png".to_string()), &new);
    assert_eq!(kept.display_image, "new.png");
    assert_eq!(kept.archived.as_deref(), Some("old.png"));
    let empty = UserActions::update_display_image(Some(&String::new()), &new);
    assert_eq!(empty.archived, None);
    let none = UserActions::update_display_image(None, &String::new());
    assert_eq!(none.display_image, "");
    assert_eq!(none.archived, None);
}
