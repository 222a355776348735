//! The live view of a conversation: what a subscriber makes of the events
//! that the hub hands it. Every subscriber is handed every event; it keeps
//! those of the conversation it watches and drops the rest.

use vstd::prelude::*;
use vstd::pervasive::unreached;
use crate::directory::{identity_of, knows, Identity, Participant, UserDirectory};
use crate::errors::error::ChatError;
use crate::html::{fill, filled, flag, flag_text, texts};
use crate::hub::{
    after_ops,
    after_subscribe,
    can_subscribe,
    handed_in,
    hub_invariant,
    is_subscribed,
    lemma_poll,
    lemma_subscription_sees_all,
    published_in,
    subscriber,
    undisturbed,
    BroadcastEvent,
    Delivery,
    DeliveryRecord,
    EventRecord,
    Hub,
    HubOp,
    HubState,
};
use crate::text::{push_signed_decimal, signed_decimal};
use crate::timestamp::Timestamp;
use crate::utils::{avatar, get_placeholder_display_image};

verus! {

/// An open conversation view: who watches, and which conversation.
pub struct LiveView {
    pub user: Participant,
    pub receiver: Participant,
    pub sender_id: i32,
    pub receiver_id: i32,
}

/// What a live view says.
pub ghost struct LiveViewRecord {
    pub user: Identity,
    pub receiver: Identity,
    pub sender_id: int,
    pub receiver_id: int,
}

impl View for LiveView {
    type V = LiveViewRecord;

    open spec fn view(&self) -> LiveViewRecord {
        LiveViewRecord {
            user: self.user@,
            receiver: self.receiver@,
            sender_id: self.sender_id as int,
            receiver_id: self.receiver_id as int,
        }
    }
}

/// An event as it is shown in a live view.
pub struct LiveMessage {
    /// Whether somebody other than the viewer sent the message.
    pub is_receiver: bool,
    pub display_image: String,
    pub name: String,
    pub message: String,
    pub created_at: String,
    /// The name of the page element that shows the newest message.
    pub element_id: String,
}

/// What a shown event says.
pub ghost struct LiveMessageRecord {
    pub is_receiver: bool,
    pub display_image: Seq<char>,
    pub name: Seq<char>,
    pub message: Seq<char>,
    pub created_at: Seq<char>,
    pub element_id: Seq<char>,
}

impl View for LiveMessage {
    type V = LiveMessageRecord;

    open spec fn view(&self) -> LiveMessageRecord {
        LiveMessageRecord {
            is_receiver: self.is_receiver,
            display_image: self.display_image@,
            name: self.name@,
            message: self.message@,
            created_at: self.created_at@,
            element_id: self.element_id@,
        }
    }
}

/// What a live view does with a delivery.
pub enum LiveAction {
    /// Show this message.
    Emit(LiveMessage),
    /// Show nothing and poll again.
    Skip,
    /// Show nothing and wait for the next event.
    Wait,
    /// End the view.
    Stop,
}

/// What a live action says.
pub ghost enum LiveActionRecord {
    Emit(LiveMessageRecord),
    Skip,
    Wait,
    Stop,
}

impl View for LiveAction {
    type V = LiveActionRecord;

    open spec fn view(&self) -> LiveActionRecord {
        match self {
            LiveAction::Emit(message) => LiveActionRecord::Emit(message@),
            LiveAction::Skip => LiveActionRecord::Skip,
            LiveAction::Wait => LiveActionRecord::Wait,
            LiveAction::Stop => LiveActionRecord::Stop,
        }
    }
}

/// The user may watch the conversation of `sender_id` and `receiver_id`:
/// the user is one of the two.
pub open spec fn may_watch(user_id: int, sender_id: int, receiver_id: int) -> bool {
    user_id == sender_id || user_id == receiver_id
}

/// The event belongs to the conversation of `a` and `b`, whoever of the
/// two sent it.
pub open spec fn event_between(e: EventRecord, a: int, b: int) -> bool {
    (e.sender_id == a && e.receiver_id == b) || (e.sender_id == b && e.receiver_id == a)
}

/// The name of the page element that shows the newest message of a view.
pub open spec fn element_name(sender_id: int, receiver_id: int) -> Seq<char> {
    "msg_"@ + signed_decimal(sender_id) + signed_decimal(receiver_id)
}

/// The event as the view shows it: under the viewer's name and picture
/// where the viewer sent it, under the receiver's where somebody else did.
pub open spec fn shown(view: LiveViewRecord, e: EventRecord) -> LiveMessageRecord {
    let author = if e.sender_id == view.user.id {
        view.user
    } else {
        view.receiver
    };
    LiveMessageRecord {
        is_receiver: e.sender_id != view.user.id,
        display_image: avatar(author.display_image, author.gender),
        name: author.display_name,
        message: e.message,
        created_at: Timestamp::civil_at(e.created_at).text(),
        element_id: element_name(view.sender_id, view.receiver_id),
    }
}

/// What the view makes of an event: shown where the event belongs to the
/// watched conversation, nothing where it does not.
pub open spec fn rendered(view: LiveViewRecord, e: EventRecord) -> Option<LiveMessageRecord> {
    if event_between(e, view.sender_id, view.receiver_id) {
        Some(shown(view, e))
    } else {
        None
    }
}

/// What the view does with a delivery.
pub open spec fn reaction(view: LiveViewRecord, delivery: DeliveryRecord) -> LiveActionRecord {
    match delivery {
        DeliveryRecord::Event(e) => match rendered(view, e) {
            Some(message) => LiveActionRecord::Emit(message),
            None => LiveActionRecord::Skip,
        },
        DeliveryRecord::Lagged(_) => LiveActionRecord::Skip,
        DeliveryRecord::Empty => LiveActionRecord::Wait,
        DeliveryRecord::Closed => LiveActionRecord::Stop,
        DeliveryRecord::Cancelled => LiveActionRecord::Stop,
    }
}

/// What the view shows of a run of events: those of the watched
/// conversation, in their order.
pub open spec fn rendered_all(view: LiveViewRecord, events: Seq<EventRecord>) -> Seq<
    LiveMessageRecord,
>
    decreases events.len(),
{
    if events.len() == 0 {
        Seq::empty()
    } else {
        let before = rendered_all(view, events.drop_last());
        match rendered(view, events.last()) {
            Some(message) => before.push(message),
            None => before,
        }
    }
}

/// Whether `user_id` may watch the conversation of `sender_id` and
/// `receiver_id`; unauthorized where the user is neither of the two.
pub fn authorize_watch(user_id: i32, sender_id: i32, receiver_id: i32) -> (allowed: Result<
    (),
    ChatError,
>)
    ensures
        allowed is Ok <==> may_watch(user_id as int, sender_id as int, receiver_id as int),
        allowed matches Err(e) ==> e == ChatError::Unauthorized,
{
    if user_id != sender_id && receiver_id != user_id {
        Err(ChatError::Unauthorized)
    } else {
        Ok(())
    }
}

/// The name of the page element that shows the newest message of a view.
pub fn element_id(sender_id: i32, receiver_id: i32) -> (name: String)
    ensures
        name@ == element_name(sender_id as int, receiver_id as int),
{
    let mut name = String::from_str("msg_");
    push_signed_decimal(&mut name, sender_id as i64);
    push_signed_decimal(&mut name, receiver_id as i64);
    assert(name@ =~= element_name(sender_id as int, receiver_id as int));
    name
}

impl LiveView {
    /// The receiver that a view of `receiver_id` shows: the user where the
    /// user is the receiver, else the directory's entry.
    pub open spec fn receiver_for(user: Identity, directory: Seq<Identity>, receiver_id: int) -> Identity {
        if receiver_id == user.id {
            user
        } else {
            identity_of(directory, receiver_id)
        }
    }

    /// Opens a view of the conversation of `sender_id` and `receiver_id`
    /// for `user`. Unauthorized where the user is neither of the two; that
    /// granted, not found where the receiver is somebody else whom the
    /// directory does not know.
    pub fn open(
        user: &Participant,
        directory: &UserDirectory,
        sender_id: i32,
        receiver_id: i32,
    ) -> (opened: Result<LiveView, ChatError>)
        ensures
            !may_watch(user.id as int, sender_id as int, receiver_id as int) ==> opened
                == Err::<LiveView, ChatError>(ChatError::Unauthorized),
            may_watch(user.id as int, sender_id as int, receiver_id as int) && receiver_id
                != user.id && !knows(directory@, receiver_id as int) ==> opened == Err::<
                LiveView,
                ChatError,
            >(ChatError::NotFound),
            may_watch(user.id as int, sender_id as int, receiver_id as int) && (receiver_id
                == user.id || knows(directory@, receiver_id as int)) ==> (opened matches Ok(view)
                && view@ == (LiveViewRecord {
                user: user@,
                receiver: LiveView::receiver_for(user@, directory@, receiver_id as int),
                sender_id: sender_id as int,
                receiver_id: receiver_id as int,
            })),
    {
        match authorize_watch(user.id, sender_id, receiver_id) {
            Ok(_) => {},
            Err(e) => {
                return Err(e);
            },
        }
        let receiver = if receiver_id == user.id {
            user.duplicate()
        } else {
            match directory.resolve(receiver_id) {
                Ok(found) => found,
                Err(_) => {
                    return Err(ChatError::NotFound);
                },
            }
        };
        Ok(LiveView { user: user.duplicate(), receiver, sender_id, receiver_id })
    }

    /// Whether the event belongs to the watched conversation.
    pub fn watches(&self, event: &BroadcastEvent) -> (watched: bool)
        ensures
            watched == event_between(event@, self.sender_id as int, self.receiver_id as int),
    {
        (event.sender_id == self.sender_id && event.receiver_id == self.receiver_id) || (
        event.sender_id == self.receiver_id && event.receiver_id == self.sender_id)
    }

    /// What the view makes of an event: the message to show where the event
    /// belongs to the watched conversation, nothing for any other event.
    pub fn render(&self, event: &BroadcastEvent) -> (message: Option<LiveMessage>)
        ensures
            message is Some <==> event_between(
                event@,
                self.sender_id as int,
                self.receiver_id as int,
            ),
            match message {
                Some(m) => rendered(self@, event@) == Some(m@),
                None => rendered(self@, event@) is None,
            },
    {
        if !self.watches(event) {
            return None;
        }
        let own = event.sender_id == self.user.id;
        let author = if own {
            &self.user
        } else {
            &self.receiver
        };
        Some(
            LiveMessage {
                is_receiver: !own,
                display_image: get_placeholder_display_image(
                    author.display_image.as_ref(),
                    &author.gender,
                ),
                name: author.display_name.clone(),
                message: event.message.clone(),
                created_at: event.created_at.to_display_string(),
                element_id: element_id(self.sender_id, self.receiver_id),
            },
        )
    }

    /// What the view does with a delivery: an event of the watched
    /// conversation is shown, any other is passed over, as is the news of
    /// lost events; on an empty backlog the view waits, and it ends when
    /// the hub is closed or the subscription is gone.
    pub fn on_delivery(&self, delivery: Delivery) -> (action: LiveAction)
        ensures
            action@ == reaction(self@, delivery@),
    {
        match delivery {
            Delivery::Event(event) => match self.render(&event) {
                Some(message) => LiveAction::Emit(message),
                None => LiveAction::Skip,
            },
            Delivery::Lagged(_) => LiveAction::Skip,
            Delivery::Empty => LiveAction::Wait,
            Delivery::Closed => LiveAction::Stop,
            Delivery::Cancelled => LiveAction::Stop,
        }
    }
}

/// A message of the other participant as a live view shows it. The gaps
/// take the mark, the picture, the name twice, the message and its time.
pub const LIVE_THEIR_MESSAGE: [&'static str; 7] = [
    "<li data-isreceiver=\"",
    "\">
                            <div class=\"chats__message\">
                                <div>
                                <img
                                    src=\"",
    "\"
                                    alt=\"",
    "'s Profile picture\"
                                    width=\"28\"
                                    height=\"28\"
                                    loading=\"lazy\"
                                    class=\"profile\"
                                />
                                    <div>
                                        <small>",
    "</small>
                                        <p>",
    "</p>
                                    </div>
                                </div>
                                <time>",
    "</time>
                            </div>
                        </li>",
];

/// A message of the viewer as a live view shows it. The gaps take the
/// mark, the message and its time.
pub const LIVE_OWN_MESSAGE: [&'static str; 4] = [
    "<li data-isreceiver=\"",
    "\">
                            <div class=\"chats__message\">
                                <div>
                                    <p>",
    "</p>
                                </div>
                                <time>",
    "</time>
                            </div>
                        </li>",
];

/// The element that shows the newest message of the conversation. The
/// gaps take the name of the element and the message.
pub const LIVE_NEWEST_MESSAGE: [&'static str; 3] = [
    "
                        <p hx-swap-oob=\"true\" id=\"",
    "\">",
    "</p>
                    ",
];

/// A shown event as the page takes it: the message as one of the other
/// participant's or as one of the viewer's own, and behind it the element
/// that shows the newest message.
pub open spec fn live_html(shown: LiveMessageRecord) -> Seq<char> {
    let item = if shown.is_receiver {
        filled(
            LIVE_THEIR_MESSAGE@,
            seq![
                flag_text(true),
                shown.display_image,
                shown.name,
                shown.name,
                shown.message,
                shown.created_at,
            ],
        )
    } else {
        filled(LIVE_OWN_MESSAGE@, seq![flag_text(false), shown.message, shown.created_at])
    };
    item + filled(LIVE_NEWEST_MESSAGE@, seq![shown.element_id, shown.message])
}

impl LiveMessage {
    /// The shown event as the page takes it.
    pub fn to_html(&self) -> (html: String)
        ensures
            html@ == live_html(self@),
    {
        let mut html = if self.is_receiver {
            let values = [
                flag(true),
                self.display_image.as_str(),
                self.name.as_str(),
                self.name.as_str(),
                self.message.as_str(),
                self.created_at.as_str(),
            ];
            proof {
                assert(texts(values@) =~= seq![
                    flag_text(true),
                    self.display_image@,
                    self.name@,
                    self.name@,
                    self.message@,
                    self.created_at@,
                ]);
            }
            fill(&LIVE_THEIR_MESSAGE, &values)
        } else {
            let values = [flag(false), self.message.as_str(), self.created_at.as_str()];
            proof {
                assert(texts(values@) =~= seq![flag_text(false), self.message@, self.created_at@]);
            }
            fill(&LIVE_OWN_MESSAGE, &values)
        };
        let values = [self.element_id.as_str(), self.message.as_str()];
        proof {
            assert(texts(values@) =~= seq![self.element_id@, self.message@]);
        }
        let newest = fill(&LIVE_NEWEST_MESSAGE, &values);
        html.append(newest.as_str());
        html
    }
}

/// What a run of shown events says.
pub open spec fn live_records(messages: Seq<LiveMessage>) -> Seq<LiveMessageRecord> {
    Seq::new(messages.len(), |i: int| messages[i]@)
}

impl LiveView {
    /// Takes everything that waits for the subscription `id` and returns
    /// what the view shows of it, in the order of publishing, and whether
    /// the view has ended. Nothing waits for the subscription afterwards;
    /// what waits for the others is not touched.
    ///
    /// The view has ended where the subscription is not registered or the
    /// hub is closed.
    pub fn drain(&self, hub: &mut Hub, id: u64) -> (taken: (Vec<LiveMessage>, bool))
        ensures
            hub_invariant(old(hub)@),
            hub_invariant(final(hub)@),
            final(hub)@.closed == old(hub)@.closed,
            final(hub)@.capacity == old(hub)@.capacity,
            forall|other: int|
                is_subscribed(final(hub)@, other) == is_subscribed(old(hub)@, other),
            forall|other: int|
                other != id && is_subscribed(old(hub)@, other) ==> subscriber(final(hub)@, other)
                    == subscriber(old(hub)@, other),
            is_subscribed(old(hub)@, id as int) ==> subscriber(final(hub)@, id as int).pending.len()
                == 0 && subscriber(final(hub)@, id as int).missed == 0 && live_records(taken.0@)
                == rendered_all(self@, subscriber(old(hub)@, id as int).pending),
            !is_subscribed(old(hub)@, id as int) ==> taken.0@.len() == 0 && final(hub)@ == old(
                hub,
            )@,
            taken.1 == (!is_subscribed(old(hub)@, id as int) || old(hub)@.closed),
    {
        proof {
            use_type_invariant(&*hub);
            hub.lemma_shows_a_hub();
        }
        let ghost start = hub@;
        let ghost waiting = subscriber(start, id as int).pending;
        let mut messages: Vec<LiveMessage> = Vec::new();
        let mut ended: Option<bool> = None;
        let ghost mut seen: int = 0;
        proof {
            assert(waiting.take(0) =~= Seq::<EventRecord>::empty());
            assert(waiting.skip(0) =~= waiting);
        }
        while ended.is_none()
            invariant
                start == old(hub)@,
                hub_invariant(start),
                hub_invariant(hub@),
                hub@.closed == start.closed,
                hub@.capacity == start.capacity,
                waiting == subscriber(start, id as int).pending,
                0 <= seen <= waiting.len(),
                forall|other: int| is_subscribed(hub@, other) == is_subscribed(start, other),
                forall|other: int|
                    other != id && is_subscribed(start, other) ==> subscriber(hub@, other)
                        == subscriber(start, other),
                is_subscribed(start, id as int) ==> subscriber(hub@, id as int).pending
                    == waiting.skip(seen) && live_records(messages@) == rendered_all(
                    self@,
                    waiting.take(seen),
                ) && (subscriber(hub@, id as int).missed == 0 || (seen == 0 && subscriber(
                    hub@,
                    id as int,
                ).missed == subscriber(start, id as int).missed)),
                !is_subscribed(start, id as int) ==> messages@.len() == 0 && hub@ == start,
                ended matches Some(over) ==> over == (!is_subscribed(start, id as int)
                    || start.closed) && (is_subscribed(start, id as int) ==> seen == waiting.len()
                    && subscriber(hub@, id as int).missed == 0),
            decreases
                    (if ended is None {
                        1int
                    } else {
                        0int
                    }),
                    waiting.len() - seen + (if is_subscribed(hub@, id as int) && subscriber(
                        hub@,
                        id as int,
                    ).missed > 0 {
                        1int
                    } else {
                        0int
                    }),
        {
            let ghost before = hub@;
            let delivery = hub.poll(id);
            proof {
                assert forall|other: int| is_subscribed(hub@, other) == is_subscribed(
                    start,
                    other,
                ) by {
                    lemma_poll(before, id as int, other);
                }
                assert forall|other: int|
                    other != id && is_subscribed(start, other) implies subscriber(hub@, other)
                    == subscriber(start, other) by {
                    lemma_poll(before, id as int, other);
                }
                lemma_poll(before, id as int, id as int);
            }
            match self.on_delivery(delivery) {
                LiveAction::Emit(message) => {
                    let ghost shown_before = live_records(messages@);
                    messages.push(message);
                    proof {
                        assert(waiting.skip(seen)[0] == waiting[seen]);
                        assert(waiting.take(seen + 1).drop_last() =~= waiting.take(seen));
                        assert(waiting.take(seen + 1).last() == waiting[seen]);
                        assert(live_records(messages@) =~= shown_before.push(message@));
                        assert(waiting.skip(seen).drop_first() =~= waiting.skip(seen + 1));
                        seen = seen + 1;
                    }
                },
                LiveAction::Skip => {
                    proof {
                        if subscriber(before, id as int).missed == 0 {
                            assert(waiting.skip(seen)[0] == waiting[seen]);
                            assert(waiting.take(seen + 1).drop_last() =~= waiting.take(seen));
                            assert(waiting.take(seen + 1).last() == waiting[seen]);
                            assert(waiting.skip(seen).drop_first() =~= waiting.skip(seen + 1));
                            seen = seen + 1;
                        }
                    }
                },
                LiveAction::Wait => {
                    proof {
                        assert(waiting.skip(seen).len() == 0);
                    }
                    ended = Some(false);
                },
                LiveAction::Stop => {
                    proof {
                        if is_subscribed(start, id as int) {
                            assert(waiting.skip(seen).len() == 0);
                        }
                    }
                    ended = Some(true);
                },
            }
        }
        proof {
            if is_subscribed(start, id as int) {
                assert(waiting.take(seen) =~= waiting);
            }
        }
        match ended {
            Some(over) => (messages, over),
            None => unreached(),
        }
    }
}

/// Broadcast isolation: a view never shows an event of a conversation
/// other than the one it watches.
pub proof fn lemma_broadcast_isolation(view: LiveViewRecord, e: EventRecord)
    requires
        !event_between(e, view.sender_id, view.receiver_id),
    ensures
        rendered(view, e) is None,
        reaction(view, DeliveryRecord::Event(e)) == LiveActionRecord::Skip,
{
}

/// A conversation has no direction for its viewers either: a view of `a`
/// and `b` keeps the events that a view of `b` and `a` keeps.
pub proof fn lemma_watch_symmetric(e: EventRecord, a: int, b: int)
    ensures
        event_between(e, a, b) == event_between(e, b, a),
{
}

/// Events of two conversations that share no participant never reach each
/// other's views.
pub proof fn lemma_disjoint_conversations_isolated(e: EventRecord, a: int, b: int, c: int, d: int)
    requires
        event_between(e, c, d),
        a != c,
        a != d,
        b != c,
        b != d,
    ensures
        !event_between(e, a, b),
{
}

/// What a view shows of two runs of events, one after the other, is what
/// it shows of the first and then what it shows of the second.
pub proof fn lemma_rendered_all_in_parts(
    view: LiveViewRecord,
    first: Seq<EventRecord>,
    second: Seq<EventRecord>,
)
    ensures
        rendered_all(view, first + second) == rendered_all(view, first) + rendered_all(
            view,
            second,
        ),
    decreases second.len(),
{
    if second.len() == 0 {
        assert(first + second =~= first);
        assert(rendered_all(view, first) + rendered_all(view, second) =~= rendered_all(
            view,
            first,
        ));
    } else {
        let whole = first + second;
        assert(whole.drop_last() =~= first + second.drop_last());
        assert(whole.last() == second.last());
        lemma_rendered_all_in_parts(view, first, second.drop_last());
        match rendered(view, second.last()) {
            Some(message) => {
                assert(rendered_all(view, whole) =~= rendered_all(view, first) + rendered_all(
                    view,
                    second,
                ));
            },
            None => {},
        }
    }
}

/// A view shows all of its conversation that is published while it is
/// open: of what a run published after the subscription was registered,
/// leaving it undisturbed, the events of the watched conversation are, in
/// the order of publishing and each once, those that the view has shown for
/// what its polls were handed and those that it will show for what still
/// waits. Events of other conversations are in neither.
pub proof fn lemma_view_shows_all_of_its_conversation(
    view: LiveViewRecord,
    s: HubState,
    ops: Seq<HubOp>,
)
    requires
        hub_invariant(s),
        can_subscribe(s),
        undisturbed(after_subscribe(s), ops, s.next_id),
    ensures
        rendered_all(view, published_in(ops)) == rendered_all(
            view,
            handed_in(after_subscribe(s), ops, s.next_id),
        ) + rendered_all(
            view,
            subscriber(after_ops(after_subscribe(s), ops), s.next_id).pending,
        ),
{
    lemma_subscription_sees_all(s, ops);
    lemma_rendered_all_in_parts(
        view,
        handed_in(after_subscribe(s), ops, s.next_id),
        subscriber(after_ops(after_subscribe(s), ops), s.next_id).pending,
    );
}

} // verus!
