//! The send pipeline: check the caller, name the receiver, store the
//! message, and only then publish it to the open conversation views.

use vstd::prelude::*;
use vstd::pervasive::unreached;
use crate::directory::{identity_of, knows, Identity, UserDirectory};
use crate::errors::error::ChatError;
use crate::hub::{
    accepts,
    after_publish,
    hub_invariant,
    is_subscribed,
    lemma_publish,
    subscriber,
    BroadcastEvent,
    EventRecord,
    Hub,
    HubState,
};
use crate::response::{Rejection, Status};
use crate::store::{
    history_of,
    ids_increasing,
    lemma_append_extends_history,
    lemma_append_leaves_other_histories,
    next_id,
    same_conversation,
    ConversationStore,
    MessageRecord,
};
use crate::timestamp::Timestamp;

verus! {

/// What a client asks to be sent.
pub struct SendRequest {
    pub sender_id: i32,
    pub receiver_id: i32,
    pub message: String,
}

/// What a request says.
pub ghost struct RequestRecord {
    pub sender_id: int,
    pub receiver_id: int,
    pub message: Seq<char>,
}

impl View for SendRequest {
    type V = RequestRecord;

    open spec fn view(&self) -> RequestRecord {
        RequestRecord {
            sender_id: self.sender_id as int,
            receiver_id: self.receiver_id as int,
            message: self.message@,
        }
    }
}

/// What the pipeline asks to be done next.
pub enum SendAction {
    /// Look up the display name of this participant and hand it to
    /// `on_receiver`.
    ResolveReceiver(i32),
    /// Store this message and hand the outcome to `on_stored`.
    Persist { sender_id: i32, receiver_id: i32, message: String, receiver_display_name: String },
    /// The message is stored: publish this event. The send has succeeded,
    /// whoever listens.
    Publish(BroadcastEvent),
    /// Refuse the request for this reason. Nothing was stored and nothing
    /// is to be published.
    Reject(ChatError),
}

/// What an action says.
pub ghost enum ActionRecord {
    ResolveReceiver(int),
    Persist { sender_id: int, receiver_id: int, message: Seq<char>, receiver_display_name: Seq<char> },
    Publish(EventRecord),
    Reject(ChatError),
}

impl View for SendAction {
    type V = ActionRecord;

    open spec fn view(&self) -> ActionRecord {
        match self {
            SendAction::ResolveReceiver(id) => ActionRecord::ResolveReceiver(*id as int),
            SendAction::Persist { sender_id, receiver_id, message, receiver_display_name } =>
                ActionRecord::Persist {
                sender_id: *sender_id as int,
                receiver_id: *receiver_id as int,
                message: message@,
                receiver_display_name: receiver_display_name@,
            },
            SendAction::Publish(event) => ActionRecord::Publish(event@),
            SendAction::Reject(reason) => ActionRecord::Reject(*reason),
        }
    }
}

/// Why a request is refused before anything is looked up: its sender is
/// not the caller.
pub open spec fn refusal_at_entry(caller: int, request: RequestRecord) -> Option<ChatError> {
    if request.sender_id != caller {
        Some(ChatError::Unauthorized)
    } else {
        None
    }
}

/// Why a request is refused, if it is, in the order of the pipeline: its
/// sender is not the caller; the directory does not know the receiver; its
/// message is empty; the store cannot take another message.
pub open spec fn refusal(
    log: Seq<MessageRecord>,
    directory: Seq<Identity>,
    caller: int,
    request: RequestRecord,
) -> Option<ChatError> {
    if refusal_at_entry(caller, request) is Some {
        refusal_at_entry(caller, request)
    } else if !knows(directory, request.receiver_id) {
        Some(ChatError::NotFound)
    } else if request.message.len() == 0 {
        Some(ChatError::InvalidInput)
    } else if next_id(log) > i32::MAX {
        Some(ChatError::StorageError)
    } else {
        None
    }
}

/// The message that a request becomes in the store.
pub open spec fn stored_form(
    log: Seq<MessageRecord>,
    directory: Seq<Identity>,
    request: RequestRecord,
    created_at: int,
) -> MessageRecord {
    MessageRecord {
        id: next_id(log),
        sender_id: request.sender_id,
        receiver_id: request.receiver_id,
        body: request.message,
        created_at,
        receiver_display_name: identity_of(directory, request.receiver_id).display_name,
    }
}

/// The event that tells of a stored request.
pub open spec fn event_form(request: RequestRecord, created_at: int) -> EventRecord {
    EventRecord {
        sender_id: request.sender_id,
        receiver_id: request.receiver_id,
        message: request.message,
        created_at,
    }
}

impl SendRequest {
    /// The first step: a request whose sender is not the caller is refused
    /// as unauthorized; for any other the receiver is to be looked up.
    pub fn begin(&self, caller_id: i32) -> (action: SendAction)
        ensures
            action@ == match refusal_at_entry(caller_id as int, self@) {
                Some(reason) => ActionRecord::Reject(reason),
                None => ActionRecord::ResolveReceiver(self.receiver_id as int),
            },
    {
        if self.sender_id != caller_id {
            SendAction::Reject(ChatError::Unauthorized)
        } else {
            SendAction::ResolveReceiver(self.receiver_id)
        }
    }

    /// The second step, on the outcome of the lookup: an unknown receiver
    /// ends the send as not found. For a known one an empty message is
    /// refused as invalid, and any other message is to be stored with the
    /// receiver's name beside it.
    pub fn on_receiver(&self, display_name: Option<String>) -> (action: SendAction)
        ensures
            action@ == match display_name {
                Some(name) => if self.message@.len() == 0 {
                    ActionRecord::Reject(ChatError::InvalidInput)
                } else {
                    ActionRecord::Persist {
                        sender_id: self.sender_id as int,
                        receiver_id: self.receiver_id as int,
                        message: self.message@,
                        receiver_display_name: name@,
                    }
                },
                None => ActionRecord::Reject(ChatError::NotFound),
            },
    {
        match display_name {
            Some(name) => {
                if self.message.as_str().is_empty() {
                    SendAction::Reject(ChatError::InvalidInput)
                } else {
                    SendAction::Persist {
                        sender_id: self.sender_id,
                        receiver_id: self.receiver_id,
                        message: self.message.clone(),
                        receiver_display_name: name,
                    }
                }
            },
            None => SendAction::Reject(ChatError::NotFound),
        }
    }

    /// The last step, on the outcome of the write: a failed write ends the
    /// send with the store's reason and publishes nothing; after a write
    /// that succeeded the event is to be published, with the creation time
    /// that the store assigned.
    pub fn on_stored(&self, written: Result<Timestamp, ChatError>) -> (action: SendAction)
        ensures
            action@ == match written {
                Ok(created_at) => ActionRecord::Publish(event_form(self@, created_at@)),
                Err(reason) => ActionRecord::Reject(reason),
            },
    {
        match written {
            Ok(created_at) => SendAction::Publish(
                BroadcastEvent {
                    sender_id: self.sender_id,
                    receiver_id: self.receiver_id,
                    message: self.message.clone(),
                    created_at,
                },
            ),
            Err(reason) => SendAction::Reject(reason),
        }
    }
}

/// The input field that a send answers with, empty for the next message.
pub const MESSAGE_INPUT: &'static str =
    "
        <input id=\"message_input\" type=\"text\" required name=\"message\" placeholder=\"Type a message\" />
    ";

/// The status with which a refused send is answered.
pub open spec fn refusal_status(reason: ChatError) -> Status {
    match reason {
        ChatError::Unauthorized => Status::Unauthorized,
        ChatError::NotFound => Status::NotFound,
        ChatError::StorageError => Status::InternalServerError,
        ChatError::InvalidInput => Status::BadRequest,
    }
}

/// The text with which a refused send is answered.
pub open spec fn refusal_message(reason: ChatError) -> Seq<char> {
    match reason {
        ChatError::Unauthorized => "Unauthorized"@,
        ChatError::NotFound => "User to chat with not found."@,
        ChatError::StorageError => "Something went wrong. Please try again."@,
        ChatError::InvalidInput => "A message must not be empty."@,
    }
}

/// How a refused send is answered.
pub fn rejection_for(reason: ChatError) -> (answer: Rejection)
    ensures
        answer.status == refusal_status(reason),
        answer.message@ == refusal_message(reason),
{
    match reason {
        ChatError::Unauthorized => Rejection {
            status: Status::Unauthorized,
            message: String::from_str("Unauthorized"),
        },
        ChatError::NotFound => Rejection {
            status: Status::NotFound,
            message: String::from_str("User to chat with not found."),
        },
        ChatError::StorageError => Rejection {
            status: Status::InternalServerError,
            message: String::from_str("Something went wrong. Please try again."),
        },
        ChatError::InvalidInput => Rejection {
            status: Status::BadRequest,
            message: String::from_str("A message must not be empty."),
        },
    }
}

/// Sends a message on behalf of `caller_id`: runs the steps of the
/// pipeline against the store, the directory and the hub.
///
/// A refused request changes neither the store nor the hub. An accepted
/// one is stored first, dated by the store, and then published with the
/// creation time that the store gave it; that nobody listens does not make
/// it fail.
pub fn send(
    store: &mut ConversationStore,
    hub: &mut Hub,
    directory: &UserDirectory,
    caller_id: i32,
    request: &SendRequest,
) -> (sent: Result<Timestamp, ChatError>)
    ensures
        ids_increasing(old(store)@),
        ids_increasing(final(store)@),
        hub_invariant(old(hub)@),
        hub_invariant(final(hub)@),
        final(store).clock_reading() == old(store).clock_reading(),
        match refusal(old(store)@, directory@, caller_id as int, request@) {
            Some(reason) => sent == Err::<Timestamp, ChatError>(reason) && final(store)@ == old(
                store,
            )@ && final(hub)@ == old(hub)@,
            None => sent matches Ok(created_at) && created_at@ == old(store).clock_reading()
                && final(store)@ == old(store)@.push(
                stored_form(old(store)@, directory@, request@, old(store).clock_reading()),
            ) && final(hub)@ == after_publish(
                old(hub)@,
                event_form(request@, old(store).clock_reading()),
            ),
        },
{
    proof {
        use_type_invariant(&*store);
        store.lemma_log_grows();
        use_type_invariant(&*hub);
        hub.lemma_shows_a_hub();
    }
    let receiver_id = match request.begin(caller_id) {
        SendAction::ResolveReceiver(receiver_id) => receiver_id,
        SendAction::Reject(reason) => {
            return Err(reason);
        },
        _ => unreached(),
    };
    let receiver_name = directory.display_name_of(receiver_id);
    let (sender_id, receiver_id, message, receiver_display_name) = match request.on_receiver(
        receiver_name,
    ) {
        SendAction::Persist { sender_id, receiver_id, message, receiver_display_name } => (
            sender_id,
            receiver_id,
            message,
            receiver_display_name,
        ),
        SendAction::Reject(reason) => {
            return Err(reason);
        },
        _ => unreached(),
    };
    let written = store.append(sender_id, receiver_id, message, receiver_display_name);
    match request.on_stored(written) {
        SendAction::Publish(event) => {
            let created_at = event.created_at;
            let _ = hub.publish(event);
            Ok(created_at)
        },
        SendAction::Reject(reason) => Err(reason),
        _ => unreached(),
    }
}

/// The log after an accepted request was stored by a store whose clock
/// shows `now`.
pub open spec fn log_after_send(
    log: Seq<MessageRecord>,
    directory: Seq<Identity>,
    request: RequestRecord,
    now: int,
) -> Seq<MessageRecord> {
    log.push(stored_form(log, directory, request, now))
}

/// Storing an accepted request keeps the identifiers of the log growing.
pub proof fn lemma_send_keeps_log(
    log: Seq<MessageRecord>,
    directory: Seq<Identity>,
    request: RequestRecord,
    now: int,
)
    requires
        ids_increasing(log),
    ensures
        ids_increasing(log_after_send(log, directory, request, now)),
{
    let grown = log_after_send(log, directory, request, now);
    assert forall|i: int, j: int| 0 <= i < j < grown.len() implies (#[trigger] grown[i]).id < (
    #[trigger] grown[j]).id by {
        if j == grown.len() - 1 {
            if i < log.len() - 1 {
                assert(log[i].id < log[log.len() - 1].id);
            }
        } else {
            assert(log[i].id < log[j].id);
        }
    }
}

/// A sent message is durable: once stored, it is in the history of the
/// conversation of its sender and its receiver, whichever of the two asks,
/// together with all that the two wrote before.
pub proof fn lemma_sent_message_is_in_history(
    log: Seq<MessageRecord>,
    directory: Seq<Identity>,
    request: RequestRecord,
    now: int,
)
    requires
        ids_increasing(log),
    ensures
        history_of(
            log_after_send(log, directory, request, now),
            request.sender_id,
            request.receiver_id,
        ).contains(stored_form(log, directory, request, now)),
        history_of(
            log_after_send(log, directory, request, now),
            request.receiver_id,
            request.sender_id,
        ).contains(stored_form(log, directory, request, now)),
        history_of(
            log_after_send(log, directory, request, now),
            request.sender_id,
            request.receiver_id,
        ).len() == history_of(log, request.sender_id, request.receiver_id).len() + 1,
{
    let m = stored_form(log, directory, request, now);
    lemma_send_keeps_log(log, directory, request, now);
    lemma_append_extends_history(log, m, request.sender_id, request.receiver_id);
    lemma_append_extends_history(log, m, request.receiver_id, request.sender_id);
}

/// A sent message touches no other conversation: the history of `a` and
/// `b` is the same before and after a message between others was stored.
pub proof fn lemma_send_leaves_other_conversations(
    log: Seq<MessageRecord>,
    directory: Seq<Identity>,
    request: RequestRecord,
    now: int,
    a: int,
    b: int,
)
    requires
        ids_increasing(log),
        !same_conversation(stored_form(log, directory, request, now), a, b),
    ensures
        history_of(log_after_send(log, directory, request, now), a, b) == history_of(log, a, b),
{
    lemma_send_keeps_log(log, directory, request, now);
    lemma_append_leaves_other_histories(log, stored_form(log, directory, request, now), a, b);
}

/// A sent message reaches the open views: on a hub that takes events,
/// every subscriber whose backlog has room finds the event of the send
/// waiting behind what waited before, with the creation time that the store
/// gave to the message.
pub proof fn lemma_sent_message_reaches_subscriber(
    listeners: HubState,
    request: RequestRecord,
    now: int,
    id: int,
)
    requires
        hub_invariant(listeners),
        accepts(listeners),
        is_subscribed(listeners, id),
        subscriber(listeners, id).pending.len() < listeners.capacity,
    ensures
        is_subscribed(after_publish(listeners, event_form(request, now)), id),
        subscriber(after_publish(listeners, event_form(request, now)), id).pending == subscriber(
            listeners,
            id,
        ).pending.push(event_form(request, now)),
        subscriber(after_publish(listeners, event_form(request, now)), id).missed == subscriber(
            listeners,
            id,
        ).missed,
{
    lemma_publish(listeners, event_form(request, now), id);
}

} // verus!
