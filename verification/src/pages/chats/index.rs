//! The conversation page: the inbox beside the open conversation.

use vstd::prelude::*;
use crate::chats::chat_struct::{lines, Chat, ChatLine, ChatMessage, ConversationView, MessagesInChat};
use crate::cookies::settings::{default_language, default_theme, page_context, PageContext};
use crate::errors::error::ChatError;
use crate::html::{fill, filled, flag, flag_text, texts};
use crate::response::{Rejection, Status};
use crate::text::{identifier_text, optional_view, signed_decimal};
use crate::user::user_struct::User;
use crate::utils::{avatar, get_placeholder_display_image};

verus! {

/// What is to be read for the page.
#[derive(Clone, Copy, Debug, PartialEq, Eq, Structural)]
pub enum ChatsPlan {
    /// Nothing: no conversation was chosen.
    SelectChat,
    /// The conversation of the two.
    Conversation { owner_id: i32, receiver_id: i32 },
    /// The inbox of the user.
    Inbox { user_id: i32 },
    /// The inbox of the user and the conversation with the receiver.
    InboxAndConversation { user_id: i32, receiver_id: i32 },
}

/// The whole page.
pub struct FullPage {
    pub context: PageContext,
    /// The inbox, where it could be read.
    pub chats: Option<Vec<Chat>>,
    /// The picture shown for the visitor.
    pub placeholder_display_image: String,
    /// The open conversation, where one was chosen and could be read.
    pub current_chat: Option<MessagesInChat>,
    pub receiver_id: Option<i32>,
    /// What is told where the chosen conversation could not be read.
    pub error: Option<&'static str>,
}

/// What the page answers.
pub enum ChatsPage {
    /// The request to choose a conversation.
    SelectChat,
    /// The open conversation alone.
    Conversation(MessagesInChat),
    /// The news that the conversation could not be read, and why.
    ConversationFailed(ChatError),
    /// The whole page.
    Full(FullPage),
}

/// The visitor may see the conversation that the request names: no sender
/// is named, or the visitor is the sender or the receiver.
pub open spec fn may_view(user_id: int, sender_id: Option<i32>, receiver_id: Option<i32>) -> bool {
    match sender_id {
        Some(sender) => sender == user_id || receiver_id == Some(user_id as i32),
        None => true,
    }
}

/// The participant whose conversations are shown: the named sender, and the
/// visitor where none is named.
pub open spec fn owner_of(user_id: i32, sender_id: Option<i32>) -> i32 {
    match sender_id {
        Some(sender) => sender,
        None => user_id,
    }
}

/// What is to be read for a request that the visitor may make.
pub open spec fn plan_of(
    user_id: i32,
    sender_id: Option<i32>,
    receiver_id: Option<i32>,
    is_htmx: Option<bool>,
) -> ChatsPlan {
    let owner = owner_of(user_id, sender_id);
    if is_htmx == Some(true) {
        match receiver_id {
            Some(receiver) => ChatsPlan::Conversation { owner_id: owner, receiver_id: receiver },
            None => ChatsPlan::SelectChat,
        }
    } else {
        match receiver_id {
            Some(receiver) => ChatsPlan::InboxAndConversation {
                user_id: owner,
                receiver_id: receiver,
            },
            None => ChatsPlan::Inbox { user_id: owner },
        }
    }
}

/// What is to be read for the page. A visitor who names a sender and is
/// neither that sender nor the receiver is refused as unauthorized.
pub fn plan(
    user_id: i32,
    sender_id: Option<i32>,
    receiver_id: Option<i32>,
    is_htmx: Option<bool>,
) -> (planned: Result<ChatsPlan, Rejection>)
    ensures
        planned is Ok <==> may_view(user_id as int, sender_id, receiver_id),
        planned matches Ok(p) ==> p == plan_of(user_id, sender_id, receiver_id, is_htmx),
        planned matches Err(rejection) ==> rejection.status == Status::Unauthorized
            && rejection.message@ == "You are not authorized to view this chat."@,
{
    let owner = match sender_id {
        Some(sender) => {
            let is_receiver = match receiver_id {
                Some(receiver) => receiver == user_id,
                None => false,
            };
            if sender != user_id && !is_receiver {
                return Err(
                    Rejection {
                        status: Status::Unauthorized,
                        message: String::from_str("You are not authorized to view this chat."),
                    },
                );
            }
            sender
        },
        None => user_id,
    };
    let htmx = match is_htmx {
        Some(true) => true,
        _ => false,
    };
    if htmx {
        match receiver_id {
            Some(receiver) => Ok(ChatsPlan::Conversation { owner_id: owner, receiver_id: receiver }),
            None => Ok(ChatsPlan::SelectChat),
        }
    } else {
        match receiver_id {
            Some(receiver) => Ok(
                ChatsPlan::InboxAndConversation { user_id: owner, receiver_id: receiver },
            ),
            None => Ok(ChatsPlan::Inbox { user_id: owner }),
        }
    }
}

/// What the page answers, given what was read for its plan: `chats` is the
/// inbox where it could be read, `current` the outcome of reading the
/// chosen conversation.
///
/// The conversation alone is shown as it was read, or with the reason why
/// it could not be. The whole page shows the inbox, the visitor's picture
/// and the chosen conversation; a conversation that could not be read, or
/// was not, leaves a note instead.
pub fn page(
    user: &User,
    theme_cookie: Option<&str>,
    lang_cookie: Option<&str>,
    plan: ChatsPlan,
    chats: Option<Vec<Chat>>,
    current: Result<MessagesInChat, ChatError>,
) -> (answer: ChatsPage)
    ensures
        match plan {
            ChatsPlan::SelectChat => answer is SelectChat,
            ChatsPlan::Conversation { owner_id, receiver_id } => match current {
                Ok(chat) => answer == ChatsPage::Conversation(chat),
                Err(reason) => answer == ChatsPage::ConversationFailed(reason),
            },
            ChatsPlan::Inbox { user_id } => answer matches ChatsPage::Full(full) && full.chats
                == chats && full.current_chat is None && full.receiver_id is None && full.error
                is None && page_is_for(full, user, theme_cookie, lang_cookie),
            ChatsPlan::InboxAndConversation { user_id, receiver_id } => answer matches ChatsPage::Full(
                full,
            ) && full.chats == chats && full.receiver_id == Some(receiver_id) && page_is_for(
                full,
                user,
                theme_cookie,
                lang_cookie,
            ) && match current {
                Ok(chat) => full.current_chat == Some(chat) && full.error is None,
                Err(_) => full.current_chat is None && (full.error matches Some(note) && note@
                    == "Failed to get chats."@),
            },
        },
{
    match plan {
        ChatsPlan::SelectChat => ChatsPage::SelectChat,
        ChatsPlan::Conversation { owner_id, receiver_id } => match current {
            Ok(chat) => ChatsPage::Conversation(chat),
            Err(reason) => ChatsPage::ConversationFailed(reason),
        },
        ChatsPlan::Inbox { user_id } => ChatsPage::Full(
            FullPage {
                context: page_context(theme_cookie, lang_cookie),
                chats,
                placeholder_display_image: get_placeholder_display_image(
                    user.display_image.as_ref(),
                    &user.gender,
                ),
                current_chat: None,
                receiver_id: None,
                error: None,
            },
        ),
        ChatsPlan::InboxAndConversation { user_id, receiver_id } => {
            let context = page_context(theme_cookie, lang_cookie);
            let placeholder_display_image = get_placeholder_display_image(
                user.display_image.as_ref(),
                &user.gender,
            );
            match current {
                Ok(chat) => ChatsPage::Full(
                    FullPage {
                        context,
                        chats,
                        placeholder_display_image,
                        current_chat: Some(chat),
                        receiver_id: Some(receiver_id),
                        error: None,
                    },
                ),
                Err(_) => ChatsPage::Full(
                    FullPage {
                        context,
                        chats,
                        placeholder_display_image,
                        current_chat: None,
                        receiver_id: Some(receiver_id),
                        error: Some("Failed to get chats."),
                    },
                ),
            }
        },
    }
}

/// The page is rendered for this visitor: with the theme and language of
/// the visitor's cookies and the visitor's picture.
pub open spec fn page_is_for(
    full: FullPage,
    user: &User,
    theme_cookie: Option<&str>,
    lang_cookie: Option<&str>,
) -> bool {
    &&& full.context.theme@ == default_theme(theme_cookie).name()
    &&& full.context.lang@ == default_language(lang_cookie).name()
    &&& full.placeholder_display_image@ == avatar(optional_view(user.display_image), user.gender)
}

impl MessagesInChat {
    /// Whether the visitor `user_id` is the receiver of this view, so that
    /// the other participant is its sender.
    pub open spec fn faces_sender(self, user_id: int) -> bool {
        self.receiver_id == user_id
    }

    /// The name of the participant whom the visitor `user_id` talks to.
    pub fn counterpart_name(&self, user_id: i32) -> (name: &String)
        ensures
            *name == if self.faces_sender(user_id as int) {
                self.sender_name
            } else {
                self.receiver_name
            },
    {
        if self.receiver_id == user_id {
            &self.sender_name
        } else {
            &self.receiver_name
        }
    }

    /// The picture of the participant whom the visitor `user_id` talks to.
    pub fn counterpart_avatar(&self, user_id: i32) -> (image: &String)
        ensures
            *image == if self.faces_sender(user_id as int) {
                self.sender_avatar
            } else {
                self.receiver_avatar
            },
    {
        if self.receiver_id == user_id {
            &self.sender_avatar
        } else {
            &self.receiver_avatar
        }
    }

    /// The name shown beside a message: the receiver's for a message marked
    /// as the other participant's, the sender's for any other.
    pub fn author_name(&self, line: &ChatMessage) -> (name: &String)
        ensures
            *name == if line.is_receiver_message {
                self.receiver_name
            } else {
                self.sender_name
            },
    {
        if line.is_receiver_message {
            &self.receiver_name
        } else {
            &self.sender_name
        }
    }

    /// The picture shown beside a message: the receiver's for a message
    /// marked as the other participant's, the sender's for any other.
    pub fn author_avatar(&self, line: &ChatMessage) -> (image: &String)
        ensures
            *image == if line.is_receiver_message {
                self.receiver_avatar
            } else {
                self.sender_avatar
            },
    {
        if line.is_receiver_message {
            &self.receiver_avatar
        } else {
            &self.sender_avatar
        }
    }
}

/// The head of an open conversation. The gaps take the name of the
/// conversation, the picture of the other participant and their name twice.
pub const PANEL_HEAD: [&'static str; 5] = [
    "
                        <div class=\"chats__container\" hx-swap=\"beforeend scroll:down\" hx-target=\"#chat_info_container\" sse-swap=\"message\" sse-connect=\"/events/chats?",
    "\">
                            <nav class=\"chats__header\">
                                <div>
                                    <img
                                        src=\"",
    "\"
                                        alt=\"",
    "'s Profile picture\"
                                        width=\"40\"
                                        height=\"40\"
                                        loading=\"lazy\"
                                        class=\"profile\"
                                    />
                                    <span>",
    "</span>
                                </div>
                            </nav>
                            <ul id=\"chat_info_container\">
                        ",
];

/// A message of the other participant in an open conversation. The gaps
/// take the mark, the picture, the name twice, the message and its time.
pub const PANEL_THEIR_MESSAGE: [&'static str; 7] = [
    "
                                    <li data-isreceiver=\"",
    "\">
                                        <div class=\"chats__message\">
                                            <div>
                                                <img
                                                    src=\"",
    "\"
                                                    alt=\"",
    "'s Profile picture\"
                                                    width=\"28\"
                                                    height=\"28\"
                                                    loading=\"lazy\"
                                                    class=\"profile\"
                                                />
                                                <div>
                                                    <small>",
    "</small>
                                                    <p>",
    "</p>
                                                </div>
                                            </div>
                                            <time>",
    "</time>
                                        </div>
                                    </li>
                                    ",
];

/// A message of the viewer in an open conversation. The gaps take the
/// mark, the message and its time.
pub const PANEL_OWN_MESSAGE: [&'static str; 4] = [
    "
                                    <li data-isreceiver=\"",
    "\">
                                        <div class=\"chats__message\">
                                            <div>
                                                <p>",
    "</p>
                                            </div>
                                            <time>",
    "</time>
                                        </div>
                                    </li>
                                    ",
];

/// The foot of an open conversation, with the form that sends a message.
/// The gaps take the identifiers of the receiver and of the sender.
pub const PANEL_FOOT: [&'static str; 3] = [
    "   </ul>
                        <div>
                            <form
                                id=\"chats__form\"
                                hx-post=\"/chats/send\"
                                hx-trigger=\"submit\"
                                hx-swap=\"outerHTML\"
                                hx-target=\"#message_input\"
                            >
                                <input name=\"receiver_id\" value=\"",
    "\" hidden>
                                <input name=\"sender_id\" value=\"",
    "\" hidden>
                                <input id=\"message_input\" name=\"message\" placeholder=\"Type a message...\" required>
                                <button type=\"submit\" title=\"Send Message\">Send</button>
                            </form>
                        </div>
                        </div>
                        ",
];

/// What is shown where no conversation was chosen.
pub const SELECT_CHAT: &'static str = "<div><p>Select a chat to start chatting.</p></div>";

/// The news that a conversation could not be read. The gap takes the
/// reason.
pub const PANEL_FAILED: [&'static str; 2] = ["<div><p>", "</p></div>"];

/// A message of an open conversation as the page takes it: one of the
/// other participant's under the receiver's name and picture, one of the
/// viewer's own without either.
pub open spec fn line_html(chat: ConversationView, line: ChatLine) -> Seq<char> {
    if line.is_receiver_message {
        filled(
            PANEL_THEIR_MESSAGE@,
            seq![
                flag_text(true),
                chat.receiver_avatar,
                chat.receiver_name,
                chat.receiver_name,
                line.message,
                line.created_at,
            ],
        )
    } else {
        filled(PANEL_OWN_MESSAGE@, seq![flag_text(false), line.message, line.created_at])
    }
}

/// The messages of an open conversation as the page takes them, one after
/// the other.
pub open spec fn lines_html(chat: ConversationView, shown: Seq<ChatLine>) -> Seq<char>
    decreases shown.len(),
{
    if shown.len() == 0 {
        Seq::empty()
    } else {
        lines_html(chat, shown.drop_last()) + line_html(chat, shown.last())
    }
}

/// An open conversation as the page takes it for the visitor `user_id`:
/// the head with the other participant, the messages, and the foot with
/// the form.
pub open spec fn panel_html(chat: ConversationView, user_id: int) -> Seq<char> {
    let name = if chat.receiver_id == user_id {
        chat.sender_name
    } else {
        chat.receiver_name
    };
    let picture = if chat.receiver_id == user_id {
        chat.sender_avatar
    } else {
        chat.receiver_avatar
    };
    filled(PANEL_HEAD@, seq![chat.id, picture, name, name]) + lines_html(chat, chat.messages)
        + filled(
        PANEL_FOOT@,
        seq![signed_decimal(chat.receiver_id), signed_decimal(chat.sender_id)],
    )
}

/// The news that a conversation could not be read, as the page takes it.
pub open spec fn failure_html(reason: ChatError) -> Seq<char> {
    filled(PANEL_FAILED@, seq![reason.name()])
}

/// The news that a conversation could not be read, as the page takes it.
pub fn failure_to_html(reason: ChatError) -> (html: String)
    ensures
        html@ == failure_html(reason),
{
    let values = [reason.as_str()];
    proof {
        assert(texts(values@) =~= seq![reason.name()]);
    }
    fill(&PANEL_FAILED, &values)
}

impl MessagesInChat {
    /// A message of this conversation as the page takes it.
    pub fn line_to_html(&self, line: &ChatMessage) -> (html: String)
        ensures
            html@ == line_html(self@, line@),
    {
        if line.is_receiver_message {
            let values = [
                flag(true),
                self.receiver_avatar.as_str(),
                self.receiver_name.as_str(),
                self.receiver_name.as_str(),
                line.message.as_str(),
                line.created_at.as_str(),
            ];
            proof {
                assert(texts(values@) =~= seq![
                    flag_text(true),
                    self.receiver_avatar@,
                    self.receiver_name@,
                    self.receiver_name@,
                    line.message@,
                    line.created_at@,
                ]);
            }
            fill(&PANEL_THEIR_MESSAGE, &values)
        } else {
            let values = [flag(false), line.message.as_str(), line.created_at.as_str()];
            proof {
                assert(texts(values@) =~= seq![flag_text(false), line.message@, line.created_at@]);
            }
            fill(&PANEL_OWN_MESSAGE, &values)
        }
    }

    /// This conversation as the page takes it for the visitor `user_id`.
    pub fn to_html(&self, user_id: i32) -> (html: String)
        ensures
            html@ == panel_html(self@, user_id as int),
    {
        let name = self.counterpart_name(user_id);
        let picture = self.counterpart_avatar(user_id);
        let head_values = [self.id.as_str(), picture.as_str(), name.as_str(), name.as_str()];
        proof {
            assert(texts(head_values@) =~= seq![self.id@, picture@, name@, name@]);
        }
        let mut html = fill(&PANEL_HEAD, &head_values);
        let ghost head = html@;
        let ghost shown = lines(self.messages@);
        let mut i: usize = 0;
        proof {
            assert(shown.take(0) =~= Seq::<ChatLine>::empty());
        }
        while i < self.messages.len()
            invariant
                i <= self.messages.len(),
                shown == lines(self.messages@),
                html@ == head + lines_html(self@, shown.take(i as int)),
            decreases self.messages.len() - i,
        {
            let line = self.line_to_html(&self.messages[i]);
            proof {
                assert(shown.take(i + 1).drop_last() =~= shown.take(i as int));
                assert(shown.take(i + 1).last() == self.messages@[i as int]@);
            }
            let ghost before = html@;
            html.append(line.as_str());
            proof {
                assert(html@ =~= head + lines_html(self@, shown.take(i + 1)));
            }
            i += 1;
        }
        proof {
            assert(shown.take(i as int) =~= shown);
        }
        let receiver = identifier_text(self.receiver_id);
        let sender = identifier_text(self.sender_id);
        let foot_values = [receiver.as_str(), sender.as_str()];
        proof {
            assert(texts(foot_values@) =~= seq![
                signed_decimal(self.receiver_id as int),
                signed_decimal(self.sender_id as int),
            ]);
        }
        let foot = fill(&PANEL_FOOT, &foot_values);
        html.append(foot.as_str());
        html
    }
}

/// Where a visitor who is not signed in is sent from the conversation
/// page.
pub fn rederirect_if_logged_out() -> (location: &'static str)
    ensures
        location@ == "/auth/login"@,
{
    "/auth/login"
}

} // verus!
