//! The inbox of a user, as the list beside the conversation shows it.

use vstd::prelude::*;
use crate::chats::chat_struct::{summaries, Chat, ChatSummary};
use crate::errors::error::{error_text, ChatError, Error, ErrorReason};
use crate::html::{fill, filled, texts};
use crate::text::{identifier_text, push_signed_decimal, signed_decimal};

verus! {

/// What the search field of the list sends.
pub struct SeachFormData {
    pub search: String,
}

/// A conversation as the list shows it to its owner: the other
/// participant, the two identifiers as the owner's link needs them, and the
/// newest message.
pub struct ChatEntry {
    pub receiver_name: String,
    pub receiver_avatar: String,
    pub receiver_id: i32,
    pub sender_id: i32,
    pub message: String,
}

/// What a list entry says.
pub ghost struct ChatEntryRecord {
    pub receiver_name: Seq<char>,
    pub receiver_avatar: Seq<char>,
    pub receiver_id: int,
    pub sender_id: int,
    pub message: Seq<char>,
}

impl View for ChatEntry {
    type V = ChatEntryRecord;

    open spec fn view(&self) -> ChatEntryRecord {
        ChatEntryRecord {
            receiver_name: self.receiver_name@,
            receiver_avatar: self.receiver_avatar@,
            receiver_id: self.receiver_id as int,
            sender_id: self.sender_id as int,
            message: self.message@,
        }
    }
}

/// What the list shows.
pub enum ChatsOfUser {
    /// The user has no conversations, or none matches the search.
    NoChats,
    /// These conversations, in the order of the inbox.
    Chats(Vec<ChatEntry>),
    /// The inbox could not be read.
    Failed,
}

/// The refusal told to a caller who asks for the inbox of `user_id` and is
/// not that user.
pub open spec fn not_authorized_text(user_id: int) -> Seq<char> {
    error_text(
        ErrorReason::Unauthorized,
        "You are not authorized to view the chats of User: "@ + signed_decimal(user_id) + "."@,
    )
}

/// A summary as the list shows it to `user_id`: with the other participant
/// as the receiver, whoever sent the newest message.
pub open spec fn entry_of(chat: ChatSummary, user_id: int) -> ChatEntryRecord {
    if chat.sender_id == user_id {
        ChatEntryRecord {
            receiver_name: chat.receiver_name,
            receiver_avatar: chat.receiver_avatar,
            receiver_id: chat.receiver_id,
            sender_id: chat.sender_id,
            message: chat.message,
        }
    } else {
        ChatEntryRecord {
            receiver_name: chat.sender_name,
            receiver_avatar: chat.sender_avatar,
            receiver_id: chat.sender_id,
            sender_id: chat.receiver_id,
            message: chat.message,
        }
    }
}

/// What a run of list entries says.
pub open spec fn entry_records(entries: Seq<ChatEntry>) -> Seq<ChatEntryRecord> {
    Seq::new(entries.len(), |i: int| entries[i]@)
}

/// The entries of an inbox, in its order.
pub open spec fn entries_of(chats: Seq<ChatSummary>, user_id: int) -> Seq<ChatEntryRecord> {
    Seq::new(chats.len(), |i: int| entry_of(chats[i], user_id))
}

fn not_authorized(user_id: i32) -> (message: String)
    ensures
        message@ == not_authorized_text(user_id as int),
{
    let mut detail = String::from_str("You are not authorized to view the chats of User: ");
    push_signed_decimal(&mut detail, user_id as i64);
    detail.append(".");
    let ghost wanted = "You are not authorized to view the chats of User: "@ + signed_decimal(
        user_id as int,
    ) + "."@;
    assert(detail@ =~= wanted);
    Error::to_string(Error::new(ErrorReason::Unauthorized, detail))
}

impl ChatEntry {
    /// A summary as the list shows it to `user_id`.
    pub fn of_chat(chat: &Chat, user_id: i32) -> (entry: ChatEntry)
        ensures
            entry@ == entry_of(chat@, user_id as int),
    {
        if chat.sender_id == user_id {
            ChatEntry {
                receiver_name: chat.receiver_name.clone(),
                receiver_avatar: chat.receiver_avatar.clone(),
                receiver_id: chat.receiver_id,
                sender_id: chat.sender_id,
                message: chat.message.clone(),
            }
        } else {
            ChatEntry {
                receiver_name: chat.sender_name.clone(),
                receiver_avatar: chat.sender_avatar.clone(),
                receiver_id: chat.sender_id,
                sender_id: chat.receiver_id,
                message: chat.message.clone(),
            }
        }
    }
}

/// Whether `caller_id` may see the inbox of `user_id`: only the user may.
/// Any other caller is told so.
pub fn chats_of_user(caller_id: i32, user_id: i32) -> (allowed: Result<(), String>)
    ensures
        allowed is Ok <==> caller_id == user_id,
        allowed matches Err(message) ==> message@ == not_authorized_text(user_id as int),
{
    if caller_id != user_id {
        return Err(not_authorized(user_id));
    }
    Ok(())
}

/// What the list shows of the inbox that was read for `user_id`: its
/// entries where there are any, and the news that there are none or that
/// the inbox could not be read.
pub fn present_chats(user_id: i32, found: Result<Vec<Chat>, ChatError>) -> (shown: ChatsOfUser)
    ensures
        match found {
            Ok(chats) => if chats@.len() == 0 {
                shown is NoChats
            } else {
                shown matches ChatsOfUser::Chats(entries) && entry_records(entries@) == entries_of(
                    summaries(chats@),
                    user_id as int,
                )
            },
            Err(_) => shown is Failed,
        },
{
    match found {
        Ok(chats) => {
            if chats.len() == 0 {
                return ChatsOfUser::NoChats;
            }
            let mut entries: Vec<ChatEntry> = Vec::new();
            let mut i: usize = 0;
            while i < chats.len()
                invariant
                    i <= chats.len(),
                    entries.len() == i,
                    forall|k: int|
                        0 <= k < i ==> (#[trigger] entries@[k])@ == entry_of(
                            chats@[k]@,
                            user_id as int,
                        ),
                decreases chats.len() - i,
            {
                entries.push(ChatEntry::of_chat(&chats[i], user_id));
                i += 1;
            }
            proof {
                assert(entry_records(entries@) =~= entries_of(summaries(chats@), user_id as int));
            }
            ChatsOfUser::Chats(entries)
        },
        Err(_) => ChatsOfUser::Failed,
    }
}

/// A conversation in the list. The gaps take the name of the other
/// participant, the identifiers of the sender and of the receiver, the
/// picture of the other participant, their name twice again, and the
/// newest message.
pub const INBOX_ENTRY: [&'static str; 8] = [
    "
                    <li data-iscurrent=\"\">
                        <button
                            type=\"button\"
                            title=\"Chat with ",
    "\"
                            hx-get=\"/chats?sender_id=",
    "&receiver_id=",
    "\"
                            hx-trigger=\"click\"
                            hx-target=\"#chat_container\"
                            hx-sync=\"button[hx-target='#chat_container']:replace\"
                            class=\"ghost\"
                        >
                            <img
                                src=\"",
    "\"
                                alt=\"",
    "'s Profile Picture\"
                                width=\"32\"
                                height=\"32\"
                                loading=\"lazy\"
                                class=\"profile\"
                            />
                            <div>
                                <span>",
    "</span>
                                <p>",
    "</p>
                            </div>
                        </button>
                        <hr>
                    </li>
                    ",
];

/// What the list shows where there is no conversation to show.
pub const NO_CHATS: &'static str = "<li><p>No chats found</p></li>";

/// What the list shows where the inbox could not be read.
pub const CHATS_FAILED: &'static str = "<li><p>Something went wrong in fetching chats.</p></li>";

/// A list entry as the page takes it.
pub open spec fn entry_html(entry: ChatEntryRecord) -> Seq<char> {
    filled(
        INBOX_ENTRY@,
        seq![
            entry.receiver_name,
            signed_decimal(entry.sender_id),
            signed_decimal(entry.receiver_id),
            entry.receiver_avatar,
            entry.receiver_name,
            entry.receiver_name,
            entry.message,
        ],
    )
}

/// The entries of a list as the page takes them, one after the other.
pub open spec fn entries_html(entries: Seq<ChatEntryRecord>) -> Seq<char>
    decreases entries.len(),
{
    if entries.len() == 0 {
        Seq::empty()
    } else {
        entries_html(entries.drop_last()) + entry_html(entries.last())
    }
}

impl ChatEntry {
    /// The entry as the page takes it.
    pub fn to_html(&self) -> (html: String)
        ensures
            html@ == entry_html(self@),
    {
        let sender = identifier_text(self.sender_id);
        let receiver = identifier_text(self.receiver_id);
        let values = [
            self.receiver_name.as_str(),
            sender.as_str(),
            receiver.as_str(),
            self.receiver_avatar.as_str(),
            self.receiver_name.as_str(),
            self.receiver_name.as_str(),
            self.message.as_str(),
        ];
        proof {
            assert(texts(values@) =~= seq![
                self.receiver_name@,
                signed_decimal(self.sender_id as int),
                signed_decimal(self.receiver_id as int),
                self.receiver_avatar@,
                self.receiver_name@,
                self.receiver_name@,
                self.message@,
            ]);
        }
        fill(&INBOX_ENTRY, &values)
    }
}

impl ChatsOfUser {
    /// The list as the page takes it.
    pub fn to_html(&self) -> (html: String)
        ensures
            html@ == match *self {
                ChatsOfUser::NoChats => NO_CHATS@,
                ChatsOfUser::Chats(entries) => entries_html(entry_records(entries@)),
                ChatsOfUser::Failed => CHATS_FAILED@,
            },
    {
        match self {
            ChatsOfUser::NoChats => String::from_str(NO_CHATS),
            ChatsOfUser::Failed => String::from_str(CHATS_FAILED),
            ChatsOfUser::Chats(entries) => {
                let ghost shown = entry_records(entries@);
                let mut html = String::new();
                let mut i: usize = 0;
                proof {
                    assert(shown.take(0) =~= Seq::<ChatEntryRecord>::empty());
                }
                while i < entries.len()
                    invariant
                        i <= entries.len(),
                        shown == entry_records(entries@),
                        html@ == entries_html(shown.take(i as int)),
                    decreases entries.len() - i,
                {
                    let entry = entries[i].to_html();
                    proof {
                        assert(shown.take(i + 1).drop_last() =~= shown.take(i as int));
                        assert(shown.take(i + 1).last() == entries@[i as int]@);
                    }
                    html.append(entry.as_str());
                    i += 1;
                }
                proof {
                    assert(shown.take(i as int) =~= shown);
                }
                html
            },
        }
    }
}

/// What a visitor who is not signed in is told when asking for the inbox
/// of `user_id`.
pub fn error_if_logged_out(user_id: i32) -> (message: String)
    ensures
        message@ == not_authorized_text(user_id as int),
{
    not_authorized(user_id)
}

} // verus!
