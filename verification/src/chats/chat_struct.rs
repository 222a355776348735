//! The read-models of a conversation: the history as one participant sees
//! it, and the summaries that make up an inbox.

use vstd::prelude::*;
use crate::directory::{identity_of, knows, Identity, UserDirectory};
use crate::errors::error::ChatError;
use crate::store::{
    has_conversation,
    history_of,
    inbox_of,
    latest_of,
    ranked,
    ranked_records,
    records,
    same_conversation,
    threshold_of,
    ConversationStore,
    MessageRecord,
    NameFilter,
    RankedRecord,
    StoredMessage,
};
use crate::text::{push_signed_decimal, signed_decimal};
use crate::timestamp::Timestamp;
use crate::utils::{avatar, get_placeholder_display_image};

verus! {

/// The newest message of a conversation, with both participants named.
pub struct Chat {
    pub id: i32,
    pub receiver_name: String,
    pub receiver_id: i32,
    pub receiver_avatar: String,
    pub sender_name: String,
    pub sender_id: i32,
    pub sender_avatar: String,
    pub created_at: Timestamp,
    pub message: String,
}

/// What a conversation summary says.
pub ghost struct ChatSummary {
    pub id: int,
    pub receiver_name: Seq<char>,
    pub receiver_id: int,
    pub receiver_avatar: Seq<char>,
    pub sender_name: Seq<char>,
    pub sender_id: int,
    pub sender_avatar: Seq<char>,
    pub created_at: int,
    pub message: Seq<char>,
}

/// A message of a conversation as its viewer sees it.
pub struct ChatMessage {
    /// Whether the viewer received the message, so that it is the other
    /// participant's.
    pub is_receiver_message: bool,
    pub message: String,
    pub sender_id: i32,
    pub created_at: String,
    pub receiver_id: i32,
}

/// What a shown message says.
pub ghost struct ChatLine {
    pub is_receiver_message: bool,
    pub message: Seq<char>,
    pub sender_id: int,
    pub created_at: Seq<char>,
    pub receiver_id: int,
}

/// A conversation as its viewer sees it.
pub struct MessagesInChat {
    /// For ex. "sender_id=1&receiver_id=2"
    pub id: String,
    pub receiver_name: String,
    pub receiver_id: i32,
    pub receiver_avatar: String,
    pub sender_name: String,
    pub sender_id: i32,
    pub sender_avatar: String,
    pub messages: Vec<ChatMessage>,
}

/// What a shown conversation says.
pub ghost struct ConversationView {
    pub id: Seq<char>,
    pub receiver_name: Seq<char>,
    pub receiver_id: int,
    pub receiver_avatar: Seq<char>,
    pub sender_name: Seq<char>,
    pub sender_id: int,
    pub sender_avatar: Seq<char>,
    pub messages: Seq<ChatLine>,
}

impl View for Chat {
    type V = ChatSummary;

    open spec fn view(&self) -> ChatSummary {
        ChatSummary {
            id: self.id as int,
            receiver_name: self.receiver_name@,
            receiver_id: self.receiver_id as int,
            receiver_avatar: self.receiver_avatar@,
            sender_name: self.sender_name@,
            sender_id: self.sender_id as int,
            sender_avatar: self.sender_avatar@,
            created_at: self.created_at@,
            message: self.message@,
        }
    }
}

impl View for ChatMessage {
    type V = ChatLine;

    open spec fn view(&self) -> ChatLine {
        ChatLine {
            is_receiver_message: self.is_receiver_message,
            message: self.message@,
            sender_id: self.sender_id as int,
            created_at: self.created_at@,
            receiver_id: self.receiver_id as int,
        }
    }
}

/// What a run of shown messages says.
pub open spec fn lines(messages: Seq<ChatMessage>) -> Seq<ChatLine> {
    Seq::new(messages.len(), |i: int| messages[i]@)
}

/// What a run of summaries says.
pub open spec fn summaries(chats: Seq<Chat>) -> Seq<ChatSummary> {
    Seq::new(chats.len(), |i: int| chats[i]@)
}

impl View for MessagesInChat {
    type V = ConversationView;

    open spec fn view(&self) -> ConversationView {
        ConversationView {
            id: self.id@,
            receiver_name: self.receiver_name@,
            receiver_id: self.receiver_id as int,
            receiver_avatar: self.receiver_avatar@,
            sender_name: self.sender_name@,
            sender_id: self.sender_id as int,
            sender_avatar: self.sender_avatar@,
            messages: lines(self.messages@),
        }
    }
}

/// A stored message as the viewer who talks to `counterpart` sees it. It is
/// marked as the other participant's exactly when its receiver is not the
/// counterpart, whatever the rest of the conversation holds.
pub open spec fn line_of(m: MessageRecord, counterpart: int) -> ChatLine {
    ChatLine {
        is_receiver_message: m.receiver_id != counterpart,
        message: m.body,
        sender_id: m.sender_id,
        created_at: Timestamp::civil_at(m.created_at).text(),
        receiver_id: m.receiver_id,
    }
}

/// A history as the viewer who talks to `counterpart` sees it.
pub open spec fn lines_of(history: Seq<MessageRecord>, counterpart: int) -> Seq<ChatLine> {
    Seq::new(history.len(), |i: int| line_of(history[i], counterpart))
}

/// The name under which a conversation view is known.
pub open spec fn conversation_id(owner: int, counterpart: int) -> Seq<char> {
    "sender_id="@ + signed_decimal(owner) + "&receiver_id="@ + signed_decimal(counterpart)
}

/// The conversation of `owner` with `counterpart` as the owner sees it.
pub open spec fn conversation_of(
    history: Seq<MessageRecord>,
    owner: Identity,
    counterpart: Identity,
) -> ConversationView {
    ConversationView {
        id: conversation_id(owner.id, counterpart.id),
        receiver_name: counterpart.display_name,
        receiver_id: counterpart.id,
        receiver_avatar: avatar(counterpart.display_image, counterpart.gender),
        sender_name: owner.display_name,
        sender_id: owner.id,
        sender_avatar: avatar(owner.display_image, owner.gender),
        messages: lines_of(history, counterpart.id),
    }
}

/// The summary of a conversation whose newest message is `m`.
pub open spec fn summary_of(m: MessageRecord, sender: Identity, receiver: Identity) -> ChatSummary {
    ChatSummary {
        id: m.id,
        receiver_name: receiver.display_name,
        receiver_id: receiver.id,
        receiver_avatar: avatar(receiver.display_image, receiver.gender),
        sender_name: sender.display_name,
        sender_id: sender.id,
        sender_avatar: avatar(sender.display_image, sender.gender),
        created_at: m.created_at,
        message: m.body,
    }
}

/// The directory knows both participants of the message.
pub open spec fn participants_known(m: MessageRecord, directory: Seq<Identity>) -> bool {
    knows(directory, m.sender_id) && knows(directory, m.receiver_id)
}

/// The summary of a conversation whose newest message is `m`, with the
/// participants as the directory names them.
pub open spec fn summary_in(m: MessageRecord, directory: Seq<Identity>) -> ChatSummary {
    summary_of(m, identity_of(directory, m.sender_id), identity_of(directory, m.receiver_id))
}

/// The directory knows the participants of every listed message.
pub open spec fn all_participants_known(inbox: Seq<RankedRecord>, directory: Seq<Identity>) -> bool {
    forall|i: int| 0 <= i < inbox.len() ==> participants_known((#[trigger] inbox[i]).record, directory)
}

/// The summaries of an inbox, in its order.
pub open spec fn summaries_of(inbox: Seq<RankedRecord>, directory: Seq<Identity>) -> Seq<
    ChatSummary,
> {
    Seq::new(inbox.len(), |i: int| summary_in(inbox[i].record, directory))
}

/// The filter that a search applies: none where the search text is empty.
pub open spec fn applied_filter(search: Seq<char>, filter: NameFilter) -> Option<NameFilter> {
    if search.len() == 0 {
        None
    } else {
        Some(filter)
    }
}

impl ChatMessage {
    /// A stored message as the viewer who talks to `counterpart` sees it.
    pub fn of_stored(row: &StoredMessage, counterpart: i32) -> (shown: ChatMessage)
        ensures
            shown@ == line_of(row@, counterpart as int),
    {
        ChatMessage {
            is_receiver_message: row.receiver_id != counterpart,
            message: row.body.clone(),
            sender_id: row.sender_id,
            created_at: row.created_at.to_display_string(),
            receiver_id: row.receiver_id,
        }
    }
}

impl MessagesInChat {
    /// A conversation view made of its parts.
    pub fn new(
        id: String,
        receiver_name: String,
        receiver_id: i32,
        receiver_avatar: String,
        sender_name: String,
        sender_id: i32,
        sender_avatar: String,
        messages: Vec<ChatMessage>,
    ) -> (chat: Self)
        ensures
            chat.id == id,
            chat.receiver_name == receiver_name,
            chat.receiver_id == receiver_id,
            chat.receiver_avatar == receiver_avatar,
            chat.sender_name == sender_name,
            chat.sender_id == sender_id,
            chat.sender_avatar == sender_avatar,
            chat.messages == messages,
    {
        Self {
            id,
            receiver_name,
            receiver_id,
            receiver_avatar,
            sender_name,
            sender_id,
            sender_avatar,
            messages,
        }
    }
}

/// The name under which the conversation of `owner_id` with `receiver_id`
/// is known.
pub fn conversation_name(owner_id: i32, receiver_id: i32) -> (name: String)
    ensures
        name@ == conversation_id(owner_id as int, receiver_id as int),
{
    let mut name = String::from_str("sender_id=");
    push_signed_decimal(&mut name, owner_id as i64);
    name.append("&receiver_id=");
    push_signed_decimal(&mut name, receiver_id as i64);
    assert(name@ =~= conversation_id(owner_id as int, receiver_id as int));
    name
}

impl Chat {
    /// A summary made of its parts.
    pub fn new(
        id: i32,
        receiver_name: String,
        receiver_id: i32,
        receiver_avatar: String,
        sender_name: String,
        sender_id: i32,
        sender_avatar: String,
        created_at: Timestamp,
        message: String,
    ) -> (chat: Self)
        ensures
            chat.id == id,
            chat.receiver_name == receiver_name,
            chat.receiver_id == receiver_id,
            chat.receiver_avatar == receiver_avatar,
            chat.sender_name == sender_name,
            chat.sender_id == sender_id,
            chat.sender_avatar == sender_avatar,
            chat.created_at == created_at,
            chat.message == message,
    {
        Self {
            id,
            receiver_name,
            receiver_id,
            receiver_avatar,
            sender_name,
            sender_id,
            sender_avatar,
            created_at,
            message,
        }
    }

    /// The summary of the conversation whose newest message is `row`; not
    /// found where the directory lacks its sender or its receiver.
    pub fn summarize(row: &StoredMessage, directory: &UserDirectory) -> (made: Result<
        Chat,
        ChatError,
    >)
        ensures
            made is Ok <==> participants_known(row@, directory@),
            made matches Ok(chat) ==> chat@ == summary_in(row@, directory@),
            made matches Err(e) ==> e == ChatError::NotFound,
    {
        let sender = match directory.resolve(row.sender_id) {
            Ok(found) => found,
            Err(_) => {
                return Err(ChatError::NotFound);
            },
        };
        let receiver = match directory.resolve(row.receiver_id) {
            Ok(found) => found,
            Err(_) => {
                return Err(ChatError::NotFound);
            },
        };
        let sender_avatar = get_placeholder_display_image(
            sender.display_image.as_ref(),
            &sender.gender,
        );
        let receiver_avatar = get_placeholder_display_image(
            receiver.display_image.as_ref(),
            &receiver.gender,
        );
        Ok(
            Chat::new(
                row.id,
                receiver.display_name,
                receiver.id,
                receiver_avatar,
                sender.display_name,
                sender.id,
                sender_avatar,
                row.created_at,
                row.body.clone(),
            ),
        )
    }

    /// The conversation of `owner_id` with `receiver_id` as the owner sees
    /// it: both participants as the directory names them, and the history
    /// of the two with each message marked by whether the owner received
    /// it. Not found where the directory lacks one of the two.
    pub fn get_messages(
        store: &ConversationStore,
        directory: &UserDirectory,
        owner_id: i32,
        receiver_id: i32,
    ) -> (found: Result<MessagesInChat, ChatError>)
        ensures
            found is Ok <==> knows(directory@, owner_id as int) && knows(
                directory@,
                receiver_id as int,
            ),
            found matches Err(e) ==> e == ChatError::NotFound,
            found matches Ok(chat) ==> chat@ == conversation_of(
                history_of(store@, owner_id as int, receiver_id as int),
                identity_of(directory@, owner_id as int),
                identity_of(directory@, receiver_id as int),
            ),
    {
        let history = store.list_between(owner_id, receiver_id);
        let owner = match directory.resolve(owner_id) {
            Ok(found) => found,
            Err(_) => {
                return Err(ChatError::NotFound);
            },
        };
        let receiver = match directory.resolve(receiver_id) {
            Ok(found) => found,
            Err(_) => {
                return Err(ChatError::NotFound);
            },
        };
        let mut messages: Vec<ChatMessage> = Vec::new();
        let mut i: usize = 0;
        while i < history.len()
            invariant
                i <= history.len(),
                messages.len() == i,
                forall|k: int|
                    0 <= k < i ==> (#[trigger] messages@[k])@ == line_of(
                        records(history@)[k],
                        receiver_id as int,
                    ),
            decreases history.len() - i,
        {
            messages.push(ChatMessage::of_stored(&history[i], receiver_id));
            i += 1;
        }
        let owner_avatar = get_placeholder_display_image(
            owner.display_image.as_ref(),
            &owner.gender,
        );
        let receiver_avatar = get_placeholder_display_image(
            receiver.display_image.as_ref(),
            &receiver.gender,
        );
        let chat = MessagesInChat::new(
            conversation_name(owner_id, receiver_id),
            receiver.display_name,
            receiver.id,
            receiver_avatar,
            owner.display_name,
            owner.id,
            owner_avatar,
            messages,
        );
        proof {
            assert(lines(chat.messages@) =~= lines_of(records(history@), receiver_id as int));
        }
        Ok(chat)
    }

    /// The inbox of `user_id`: one summary for each conversation of the
    /// user, made of its newest message. With an empty search text every
    /// conversation is listed, the newest first; with a search text only
    /// the messages count whose score in `filter` exceeds its threshold,
    /// and the higher score comes first.
    ///
    /// A filter that is applied and does not hold one score for each
    /// message of the store is refused as invalid input; not found where
    /// the directory lacks a participant of a listed message.
    pub fn get_user_chats(
        store: &ConversationStore,
        directory: &UserDirectory,
        user_id: i32,
        search: &String,
        filter: &NameFilter,
    ) -> (found: Result<Vec<Chat>, ChatError>)
        ensures
            search@.len() != 0 && filter.scores@.len() != store@.len() ==> found == Err::<
                Vec<Chat>,
                ChatError,
            >(ChatError::InvalidInput),
            !(search@.len() != 0 && filter.scores@.len() != store@.len()) ==> {
                let inbox = inbox_of(
                    ranked(store@, applied_filter(search@, *filter)),
                    user_id as int,
                    threshold_of(applied_filter(search@, *filter)),
                );
                match found {
                    Ok(chats) => all_participants_known(inbox, directory@) && summaries(chats@)
                        == summaries_of(inbox, directory@),
                    Err(e) => e == ChatError::NotFound && !all_participants_known(
                        inbox,
                        directory@,
                    ),
                }
            },
    {
        let applied = if search.as_str().is_empty() {
            None
        } else {
            Some(filter)
        };
        let listed = match store.latest_per_conversation(user_id, applied) {
            Ok(listed) => listed,
            Err(_) => {
                return Err(ChatError::InvalidInput);
            },
        };
        let ghost inbox = ranked_records(listed@);
        let mut chats: Vec<Chat> = Vec::new();
        let mut i: usize = 0;
        while i < listed.len()
            invariant
                i <= listed.len(),
                chats.len() == i,
                inbox == ranked_records(listed@),
                !(search@.len() != 0 && filter.scores@.len() != store@.len()),
                inbox == inbox_of(
                    ranked(store@, applied_filter(search@, *filter)),
                    user_id as int,
                    threshold_of(applied_filter(search@, *filter)),
                ),
                forall|k: int| 0 <= k < i ==> participants_known((#[trigger] inbox[k]).record, directory@),
                forall|k: int|
                    0 <= k < i ==> (#[trigger] chats@[k])@ == summary_in(inbox[k].record, directory@),
            decreases listed.len() - i,
        {
            proof {
                assert(inbox[i as int].record == listed@[i as int].message@);
            }
            match Chat::summarize(&listed[i].message, directory) {
                Ok(chat) => {
                    chats.push(chat);
                },
                Err(_) => {
                    proof {
                        assert(!participants_known(inbox[i as int].record, directory@));
                    }
                    return Err(ChatError::NotFound);
                },
            }
            i += 1;
        }
        proof {
            assert(summaries(chats@) =~= summaries_of(inbox, directory@));
        }
        Ok(chats)
    }

    /// The summary of the conversation of `user_id` and `receiver_id`, made
    /// of its newest message. Not found where the two never wrote, or where
    /// the directory lacks the sender or the receiver of that message.
    pub fn get_latest_chat(
        store: &ConversationStore,
        directory: &UserDirectory,
        user_id: i32,
        receiver_id: i32,
    ) -> (found: Result<Chat, ChatError>)
        ensures
            found is Ok <==> has_conversation(store@, user_id as int, receiver_id as int)
                && participants_known(
                latest_of(store@, user_id as int, receiver_id as int),
                directory@,
            ),
            found matches Ok(chat) ==> chat@ == summary_in(
                latest_of(store@, user_id as int, receiver_id as int),
                directory@,
            ),
            found matches Err(e) ==> e == ChatError::NotFound,
    {
        match store.latest_between(user_id, receiver_id) {
            Some(latest) => Chat::summarize(&latest, directory),
            None => Err(ChatError::NotFound),
        }
    }
}

/// In a conversation of two different participants a message is marked as
/// the other participant's exactly when the viewer received it, which is
/// when the counterpart sent it.
pub proof fn lemma_flag_marks_received(m: MessageRecord, owner: int, counterpart: int)
    requires
        same_conversation(m, owner, counterpart),
        owner != counterpart,
    ensures
        line_of(m, counterpart).is_receiver_message == (m.receiver_id == owner),
        line_of(m, counterpart).is_receiver_message == (m.sender_id == counterpart),
{
}

/// What one participant of a conversation sees as the other's message, the
/// other sees as their own.
pub proof fn lemma_flag_flips_with_viewer(m: MessageRecord, owner: int, counterpart: int)
    requires
        same_conversation(m, owner, counterpart),
        owner != counterpart,
    ensures
        line_of(m, counterpart).is_receiver_message == !line_of(m, owner).is_receiver_message,
{
}

/// In a conversation of a participant with themselves no message is marked
/// as the other participant's.
pub proof fn lemma_flag_in_self_conversation(m: MessageRecord, owner: int)
    requires
        m.receiver_id == owner,
    ensures
        !line_of(m, owner).is_receiver_message,
{
}

} // verus!
