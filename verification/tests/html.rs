use chat_server::api::search::{search, user_to_html, SearchData, SearchResult, DEFAULT_PICTURE};
use chat_server::chats::chat_struct::{ChatMessage, MessagesInChat};
use chat_server::errors::error::ChatError;
use chat_server::html::{fill, flag};
use chat_server::live::LiveMessage;
use chat_server::pages::chats::api::chats_of_user::{ChatEntry, ChatsOfUser};
use chat_server::pages::chats::index::{failure_to_html, SELECT_CHAT};
use chat_server::send::MESSAGE_INPUT;
use chat_server::text::identifier_text;
use chat_server::user::user_struct::PartialUser;

#[test]
fn a_template_is_filled_gap_by_gap() {
    assert_eq!(fill(&["a", "b", "c"], &["1", "2"]), "a1b2c");
    assert_eq!(fill(&["only"], &[]), "only");
    assert_eq!(fill(&["", ""], &["x"]), "x");
    assert_eq!(fill(&[], &["x"]), "");
}

#[test]
fn a_template_with_too_few_values_ends_at_the_first_empty_gap() {
    assert_eq!(fill(&["a", "b", "c"], &["1"]), "a1b");
    assert_eq!(fill(&["a", "b", "c"], &[]), "a");
}

#[test]
fn values_beyond_the_last_gap_are_left_out() {
    assert_eq!(fill(&["a", "b"], &["1", "2", "3"]), "a1b");
    assert_eq!(fill(&["a"], &["1"]), "a");
}

#[test]
fn marks_and_identifiers_are_written_out() {
    assert_eq!(flag(true), "true");
    assert_eq!(flag(false), "false");
    assert_eq!(identifier_text(0), "0");
    assert_eq!(identifier_text(-12), "-12");
    assert_eq!(identifier_text(i32::MAX), "2147483647");
    assert_eq!(identifier_text(i32::MIN), "-2147483648");
}

fn live(is_receiver: bool) -> LiveMessage {
    LiveMessage {
        is_receiver,
        display_image: "http://ben.png".to_string(),
        name: "Ben".to_string(),
        message: "hello there".to_string(),
        created_at: "2019-January-1 at 0:0:0".to_string(),
        element_id: "msg_12".to_string(),
    }
}

#[test]
fn a_live_message_of_the_other_participant_carries_name_and_picture() {
    let m = live(true);
    let mut expected = format!(
        r##"<li data-isreceiver="{}">
                            <div class="chats__message">
                                <div>
                                <img
                                    src="{}"
                                    alt="{}'s Profile picture"
                                    width="28"
                                    height="28"
                                    loading="lazy"
                                    class="profile"
                                />
                                    <div>
                                        <small>{}</small>
                                        <p>{}</p>
                                    </div>
                                </div>
                                <time>{}</time>
                            </div>
                        </li>"##,
        true, m.display_image, m.name, m.name, m.message, m.created_at
    );
    expected.push_str(&format!(
        r##"
                        <p hx-swap-oob="true" id="{}">{}</p>
                    "##,
        m.element_id, m.message
    ));
    assert_eq!(m.to_html(), expected);
}

#[test]
fn a_live_message_of_the_viewer_carries_the_text_alone() {
    let m = live(false);
    let mut expected = format!(
        r##"<li data-isreceiver="{}">
                            <div class="chats__message">
                                <div>
                                    <p>{}</p>
                                </div>
                                <time>{}</time>
                            </div>
                        </li>"##,
        false, m.message, m.created_at
    );
    expected.push_str(&format!(
        r##"
                        <p hx-swap-oob="true" id="{}">{}</p>
                    "##,
        m.element_id, m.message
    ));
    assert_eq!(m.to_html(), expected);
    assert!(!m.to_html().contains("Ben"));
}

fn conversation(messages: Vec<ChatMessage>) -> MessagesInChat {
    MessagesInChat::new(
        "sender_id=1&receiver_id=2".to_string(),
        "Ben".to_string(),
        2,
        "b.png".to_string(),
        "Ana".to_string(),
        1,
        "a.png".to_string(),
        messages,
    )
}

fn line(is_receiver_message: bool, message: &str) -> ChatMessage {
    ChatMessage {
        is_receiver_message,
        message: message.to_string(),
        sender_id: if is_receiver_message { 2 } else { 1 },
        created_at: "2024-February-29 at 13:5:9".to_string(),
        receiver_id: if is_receiver_message { 1 } else { 2 },
    }
}

fn expected_head(id: &str, picture: &str, name: &str) -> String {
    format!(
        r##"
                        <div class="chats__container" hx-swap="beforeend scroll:down" hx-target="#chat_info_container" sse-swap="message" sse-connect="/events/chats?{}">
                            <nav class="chats__header">
                                <div>
                                    <img
                                        src="{}"
                                        alt="{}'s Profile picture"
                                        width="40"
                                        height="40"
                                        loading="lazy"
                                        class="profile"
                                    />
                                    <span>{}</span>
                                </div>
                            </nav>
                            <ul id="chat_info_container">
                        "##,
        id, picture, name, name
    )
}

fn expected_foot(receiver_id: i32, sender_id: i32) -> String {
    format!(
        r##"   </ul>
                        <div>
                            <form
                                id="chats__form"
                                hx-post="/chats/send"
                                hx-trigger="submit"
                                hx-swap="outerHTML"
                                hx-target="#message_input"
                            >
                                <input name="receiver_id" value="{}" hidden>
                                <input name="sender_id" value="{}" hidden>
                                <input id="message_input" name="message" placeholder="Type a message..." required>
                                <button type="submit" title="Send Message">Send</button>
                            </form>
                        </div>
                        </div>
                        "##,
        receiver_id, sender_id
    )
}

fn expected_line(chat: &MessagesInChat, shown: &ChatMessage) -> String {
    if shown.is_receiver_message {
        format!(
            r##"
                                    <li data-isreceiver="{}">
                                        <div class="chats__message">
                                            <div>
                                                <img
                                                    src="{}"
                                                    alt="{}'s Profile picture"
                                                    width="28"
                                                    height="28"
                                                    loading="lazy"
                                                    class="profile"
                                                />
                                                <div>
                                                    <small>{}</small>
                                                    <p>{}</p>
                                                </div>
                                            </div>
                                            <time>{}</time>
                                        </div>
                                    </li>
                                    "##,
            true, chat.receiver_avatar, chat.receiver_name, chat.receiver_name, shown.message, shown.created_at
        )
    } else {
        format!(
            r##"
                                    <li data-isreceiver="{}">
                                        <div class="chats__message">
                                            <div>
                                                <p>{}</p>
                                            </div>
                                            <time>{}</time>
                                        </div>
                                    </li>
                                    "##,
            false, shown.message, shown.created_at
        )
    }
}

#[test]
fn an_empty_conversation_is_head_and_foot() {
    let chat = conversation(vec![]);
    let expected = format!(
        "{}{}{}",
        expected_head("sender_id=1&receiver_id=2", "b.png", "Ben"),
        "",
        expected_foot(2, 1)
    );
    assert_eq!(chat.to_html(1), expected);
}

#[test]
fn a_conversation_shows_its_messages_in_their_order() {
    let chat = conversation(vec![line(false, "hi"), line(true, "hello"), line(false, "bye")]);
    let mut lines = String::new();
    for shown in &chat.messages {
        assert_eq!(chat.line_to_html(shown), expected_line(&chat, shown));
        lines.push_str(&expected_line(&chat, shown));
    }
    let expected = format!(
        "{}{}{}",
        expected_head("sender_id=1&receiver_id=2", "b.png", "Ben"),
        lines,
        expected_foot(2, 1)
    );
    assert_eq!(chat.to_html(1), expected);
}

#[test]
fn the_receiver_sees_the_sender_in_the_head() {
    let chat = conversation(vec![]);
    let expected = format!(
        "{}{}",
        expected_head("sender_id=1&receiver_id=2", "a.png", "Ana"),
        expected_foot(2, 1)
    );
    assert_eq!(chat.to_html(2), expected);
}

#[test]
fn fixed_fragments_are_what_the_pages_expect() {
    assert_eq!(SELECT_CHAT, "<div><p>Select a chat to start chatting.</p></div>");
    assert_eq!(failure_to_html(ChatError::StorageError), "<div><p>StorageError</p></div>");
    assert_eq!(failure_to_html(ChatError::NotFound), "<div><p>NotFound</p></div>");
    assert_eq!(ChatError::Unauthorized.as_str(), "Unauthorized");
    assert_eq!(ChatError::InvalidInput.as_str(), "InvalidInput");
    assert_eq!(
        MESSAGE_INPUT,
        r#"
        <input id="message_input" type="text" required name="message" placeholder="Type a message" />
    "#
    );
}

fn entry(name: &str, sender_id: i32, receiver_id: i32) -> ChatEntry {
    ChatEntry {
        receiver_name: name.to_string(),
        receiver_avatar: format!("{}.png", name),
        receiver_id,
        sender_id,
        message: format!("newest with {}", name),
    }
}

fn expected_entry(shown: &ChatEntry) -> String {
    format!(
        r##"
                    <li data-iscurrent="">
                        <button
                            type="button"
                            title="Chat with {}"
                            hx-get="/chats?sender_id={}&receiver_id={}"
                            hx-trigger="click"
                            hx-target="#chat_container"
                            hx-sync="button[hx-target='#chat_container']:replace"
                            class="ghost"
                        >
                            <img
                                src="{}"
                                alt="{}'s Profile Picture"
                                width="32"
                                height="32"
                                loading="lazy"
                                class="profile"
                            />
                            <div>
                                <span>{}</span>
                                <p>{}</p>
                            </div>
                        </button>
                        <hr>
                    </li>
                    "##,
        shown.receiver_name,
        shown.sender_id,
        shown.receiver_id,
        shown.receiver_avatar,
        shown.receiver_name,
        shown.receiver_name,
        shown.message
    )
}

#[test]
fn the_inbox_list_is_written_entry_by_entry() {
    let entries = vec![entry("Ben", 1, 2), entry("Cy", 1, 3)];
    let mut expected = String::new();
    for shown in &entries {
        assert_eq!(shown.to_html(), expected_entry(shown));
        expected.push_str(&expected_entry(shown));
    }
    assert_eq!(ChatsOfUser::Chats(entries).to_html(), expected);
}

#[test]
fn an_inbox_without_entries_says_so() {
    assert_eq!(ChatsOfUser::NoChats.to_html(), "<li><p>No chats found</p></li>");
    assert_eq!(
        ChatsOfUser::Failed.to_html(),
        "<li><p>Something went wrong in fetching chats.</p></li>"
    );
    assert_eq!(ChatsOfUser::Chats(vec![]).to_html(), "");
}

fn expected_user(user: &PartialUser) -> String {
    format!(
        r##"
                    <li>
                        <button
                            type="button"
                            title="Chat with {}"
                            hx-get="/chats?receiver_id={}&is_htmx=true"
                            hx-trigger="click"
                            hx-target="#chat_container"
                        >
                            <img
                                src="{}"
                                alt="{}'s Profile Picture"
                                width="32"
                                height="32"
                                loading="lazy"
                                class="profile"
                            />
                            {}
                        </button>
                    </li>
                    "##,
        user.display_name,
        user.id,
        user.display_image.clone().unwrap_or_else(|| "https://via.placeholder.com/40".to_string()),
        user.display_name,
        user.display_name
    )
}

#[test]
fn found_users_are_listed_between_list_tags() {
    let users = vec![
        PartialUser { id: 2, display_name: "Ben".to_string(), display_image: Some("b.png".to_string()) },
        PartialUser { id: 31, display_name: "Cy".to_string(), display_image: None },
    ];
    let mut expected = String::from("<ul>");
    for user in &users {
        assert_eq!(user_to_html(user), expected_user(user));
        expected.push_str(&expected_user(user));
    }
    expected.push_str("</ul>");
    assert_eq!(DEFAULT_PICTURE, "https://via.placeholder.com/40");
    let data = SearchData { search: "b".to_string() };
    assert_eq!(search(&data, Some(users)).to_html(), expected);
}

#[test]
fn a_search_without_result_says_so() {
    assert_eq!(SearchResult::Nothing.to_html(), "");
    assert_eq!(SearchResult::NoUsersFound.to_html(), "<ul><li><p>No users found</p></li></ul>");
    assert_eq!(SearchResult::Users(vec![]).to_html(), "<ul></ul>");
}
