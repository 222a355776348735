//! The conversation store: every message ever sent, in the order it came,
//! and the reads that a conversation view and an inbox are built from.

use vstd::prelude::*;
use crate::errors::error::ChatError;
use crate::order::{
    asymmetric,
    lemma_insert_keeps_order,
    lemma_insert_members,
    lemma_ordered_unique,
    lemma_take_members,
    ordered_by,
    same_members,
};
use crate::timestamp::Timestamp;

verus! {

/// A message as the store holds it.
pub struct StoredMessage {
    pub id: i32,
    pub sender_id: i32,
    pub receiver_id: i32,
    pub body: String,
    pub created_at: Timestamp,
    /// The receiver's display name at the time of sending.
    pub receiver_display_name: String,
}

/// What a stored message says.
pub ghost struct MessageRecord {
    pub id: int,
    pub sender_id: int,
    pub receiver_id: int,
    pub body: Seq<char>,
    pub created_at: int,
    pub receiver_display_name: Seq<char>,
}

impl View for StoredMessage {
    type V = MessageRecord;

    open spec fn view(&self) -> MessageRecord {
        MessageRecord {
            id: self.id as int,
            sender_id: self.sender_id as int,
            receiver_id: self.receiver_id as int,
            body: self.body@,
            created_at: self.created_at@,
            receiver_display_name: self.receiver_display_name@,
        }
    }
}

/// What a run of stored messages says.
pub open spec fn records(rows: Seq<StoredMessage>) -> Seq<MessageRecord> {
    Seq::new(rows.len(), |i: int| rows[i]@)
}

/// The message belongs to the conversation of `a` and `b`, whoever of the
/// two sent it.
pub open spec fn same_conversation(m: MessageRecord, a: int, b: int) -> bool {
    (m.sender_id == a && m.receiver_id == b) || (m.sender_id == b && m.receiver_id == a)
}

/// `x` comes before `y` in a history: it was created earlier, or at the
/// same instant and stored earlier.
pub open spec fn earlier(x: MessageRecord, y: MessageRecord) -> bool {
    x.created_at < y.created_at || (x.created_at == y.created_at && x.id < y.id)
}

/// Identifiers grow along the log, so none occurs twice.
pub open spec fn ids_increasing(log: Seq<MessageRecord>) -> bool {
    forall|i: int, j: int| 0 <= i < j < log.len() ==> (#[trigger] log[i]).id < (#[trigger] log[j]).id
}

/// Creation times never fall along the sequence, and among equal times the
/// message stored first comes first.
pub open spec fn in_history_order(s: Seq<MessageRecord>) -> bool {
    forall|i: int, j: int| 0 <= i < j < s.len() ==> earlier(#[trigger] s[i], #[trigger] s[j])
}

/// `out` is the history of the conversation of `a` and `b` in `log`: all
/// its messages and no others, in history order.
pub open spec fn is_history_of(
    out: Seq<MessageRecord>,
    log: Seq<MessageRecord>,
    a: int,
    b: int,
) -> bool {
    &&& in_history_order(out)
    &&& forall|m: MessageRecord| #[trigger]
        out.contains(m) <==> (log.contains(m) && same_conversation(m, a, b))
}

/// The history of the conversation of `a` and `b` in `log`.
pub open spec fn history_of(log: Seq<MessageRecord>, a: int, b: int) -> Seq<MessageRecord> {
    choose|out: Seq<MessageRecord>| is_history_of(out, log, a, b)
}

/// The identifier that the next message gets.
pub open spec fn next_id(log: Seq<MessageRecord>) -> int {
    if log.len() == 0 {
        1
    } else {
        log.last().id + 1
    }
}

/// A stored message together with the score that a name matcher gave to
/// its stored receiver name.
pub struct RankedMessage {
    pub message: StoredMessage,
    pub score: u32,
}

/// What a ranked message says.
pub ghost struct RankedRecord {
    pub record: MessageRecord,
    pub score: int,
}

impl View for RankedMessage {
    type V = RankedRecord;

    open spec fn view(&self) -> RankedRecord {
        RankedRecord { record: self.message@, score: self.score as int }
    }
}

/// What a run of ranked messages says.
pub open spec fn ranked_records(rows: Seq<RankedMessage>) -> Seq<RankedRecord> {
    Seq::new(rows.len(), |i: int| rows[i]@)
}

/// The score, in thousandths, that a stored receiver name must exceed to
/// match a search text, unless the caller chooses another.
pub const DEFAULT_NAME_THRESHOLD: u32 = 200;

/// The scores that a name matcher gave to the stored receiver names, one for
/// each message of the store in the order of the log, and the score that a
/// name must exceed to match.
pub struct NameFilter {
    pub scores: Vec<u32>,
    pub threshold: u32,
}

/// The score of the message at place `i` of the log: the matcher's where a
/// filter is given, and one score for all where none is.
pub open spec fn score_at(filter: Option<NameFilter>, i: int) -> int {
    match filter {
        Some(f) => f.scores@[i] as int,
        None => 0,
    }
}

/// The score that a message must exceed to be listed: the filter's
/// threshold, and below every score where no filter is given.
pub open spec fn threshold_of(filter: Option<NameFilter>) -> int {
    match filter {
        Some(f) => f.threshold as int,
        None => -1,
    }
}

/// The log with each message's score beside it.
pub open spec fn ranked(log: Seq<MessageRecord>, filter: Option<NameFilter>) -> Seq<RankedRecord> {
    Seq::new(log.len(), |i: int| RankedRecord { record: log[i], score: score_at(filter, i) })
}

/// The message was sent or received by `user`.
pub open spec fn involves(m: MessageRecord, user: int) -> bool {
    m.sender_id == user || m.receiver_id == user
}

/// The two messages belong to one conversation.
pub open spec fn same_pair(x: MessageRecord, y: MessageRecord) -> bool {
    same_conversation(x, y.sender_id, y.receiver_id)
}

/// The message may be listed in the inbox of `user`: it is one of `all`,
/// involves the user, and its score exceeds the threshold.
pub open spec fn is_candidate(r: RankedRecord, all: Seq<RankedRecord>, user: int, threshold: int) -> bool {
    all.contains(r) && involves(r.record, user) && r.score > threshold
}

/// The message is the latest candidate of its conversation.
pub open spec fn is_latest_candidate(
    r: RankedRecord,
    all: Seq<RankedRecord>,
    user: int,
    threshold: int,
) -> bool {
    &&& is_candidate(r, all, user, threshold)
    &&& forall|o: RankedRecord| #[trigger]
        is_candidate(o, all, user, threshold) && same_pair(o.record, r.record) ==> !earlier(
            r.record,
            o.record,
        )
}

/// `x` is listed before `y` in an inbox: it has the higher score, or the
/// same score and comes later in a history.
pub open spec fn outranks(x: RankedRecord, y: RankedRecord) -> bool {
    x.score > y.score || (x.score == y.score && earlier(y.record, x.record))
}

/// Every message outranks all that follow it.
pub open spec fn in_inbox_order(s: Seq<RankedRecord>) -> bool {
    forall|i: int, j: int| 0 <= i < j < s.len() ==> outranks(#[trigger] s[i], #[trigger] s[j])
}

/// `out` is the inbox of `user` over `all`: the latest candidate of each
/// conversation of the user and nothing else, in inbox order.
pub open spec fn is_inbox_of(
    out: Seq<RankedRecord>,
    all: Seq<RankedRecord>,
    user: int,
    threshold: int,
) -> bool {
    &&& in_inbox_order(out)
    &&& forall|r: RankedRecord| #[trigger]
        out.contains(r) <==> is_latest_candidate(r, all, user, threshold)
}

/// The inbox of `user` over `all`.
pub open spec fn inbox_of(all: Seq<RankedRecord>, user: int, threshold: int) -> Seq<RankedRecord> {
    choose|out: Seq<RankedRecord>| is_inbox_of(out, all, user, threshold)
}

/// `m` is the newest message of the conversation of `a` and `b` in `log`.
pub open spec fn is_latest_between(m: MessageRecord, log: Seq<MessageRecord>, a: int, b: int) -> bool {
    &&& log.contains(m)
    &&& same_conversation(m, a, b)
    &&& forall|o: MessageRecord| #[trigger]
        log.contains(o) && same_conversation(o, a, b) ==> !earlier(m, o)
}

/// The newest message of the conversation of `a` and `b` in `log`.
pub open spec fn latest_of(log: Seq<MessageRecord>, a: int, b: int) -> MessageRecord {
    choose|m: MessageRecord| is_latest_between(m, log, a, b)
}

/// The log holds a message of the conversation of `a` and `b`.
pub open spec fn has_conversation(log: Seq<MessageRecord>, a: int, b: int) -> bool {
    exists|m: MessageRecord| #[trigger] log.contains(m) && same_conversation(m, a, b)
}

impl StoredMessage {
    /// A copy of the message.
    pub fn duplicate(&self) -> (copy: StoredMessage)
        ensures
            copy == *self,
    {
        StoredMessage {
            id: self.id,
            sender_id: self.sender_id,
            receiver_id: self.receiver_id,
            body: self.body.clone(),
            created_at: self.created_at,
            receiver_display_name: self.receiver_display_name.clone(),
        }
    }

    /// Whether the message belongs to the conversation of `a` and `b`.
    pub fn is_between(&self, a: i32, b: i32) -> (between: bool)
        ensures
            between == same_conversation(self@, a as int, b as int),
    {
        (self.sender_id == a && self.receiver_id == b) || (self.sender_id == b && self.receiver_id
            == a)
    }

    /// Whether the message was sent or received by `user`.
    pub fn involves_user(&self, user: i32) -> (involved: bool)
        ensures
            involved == involves(self@, user as int),
    {
        self.sender_id == user || self.receiver_id == user
    }

    /// Whether the message belongs to the conversation that `other` belongs
    /// to.
    pub fn shares_pair_with(&self, other: &StoredMessage) -> (shared: bool)
        ensures
            shared == same_pair(self@, other@),
    {
        self.is_between(other.sender_id, other.receiver_id)
    }

    /// Whether the message comes before `other` in a history.
    pub fn is_earlier_than(&self, other: &StoredMessage) -> (before: bool)
        ensures
            before == earlier(self@, other@),
    {
        let mine = self.created_at.unix_nanos();
        let theirs = other.created_at.unix_nanos();
        mine < theirs || (mine == theirs && self.id < other.id)
    }
}

/// All messages, in the order in which they were stored, and the clock
/// by which the store dates what it is given.
pub struct ConversationStore {
    rows: Vec<StoredMessage>,
    clock: Timestamp,
}

impl View for ConversationStore {
    type V = Seq<MessageRecord>;

    closed spec fn view(&self) -> Seq<MessageRecord> {
        records(self.rows@)
    }
}

/// The place in a history at which `row` belongs: behind all that do not
/// come after it.
fn history_position(out: &Vec<StoredMessage>, row: &StoredMessage) -> (pos: usize)
    requires
        in_history_order(records(out@)),
    ensures
        pos <= out.len(),
        forall|p: int| 0 <= p < pos ==> !earlier(row@, #[trigger] records(out@)[p]),
        forall|q: int| pos <= q < out.len() ==> earlier(row@, #[trigger] records(out@)[q]),
{
    let mut pos: usize = 0;
    while pos < out.len() && !row.is_earlier_than(&out[pos])
        invariant
            pos <= out.len(),
            forall|p: int| 0 <= p < pos ==> !earlier(row@, #[trigger] records(out@)[p]),
        decreases out.len() - pos,
    {
        pos += 1;
    }
    proof {
        assert forall|q: int| pos <= q < out.len() implies earlier(
            row@,
            #[trigger] records(out@)[q],
        ) by {
            if q > pos {
                assert(earlier(records(out@)[pos as int], records(out@)[q]));
            }
        }
    }
    pos
}

/// The filter behind an optional reference.
pub open spec fn filter_of(filter: Option<&NameFilter>) -> Option<NameFilter> {
    match filter {
        Some(f) => Some(*f),
        None => None,
    }
}

fn score_of(filter: Option<&NameFilter>, i: usize) -> (score: u32)
    requires
        filter matches Some(f) ==> i < f.scores@.len(),
    ensures
        score == score_at(filter_of(filter), i as int),
{
    match filter {
        Some(f) => f.scores[i],
        None => 0,
    }
}

fn exceeds_threshold(filter: Option<&NameFilter>, score: u32) -> (passes: bool)
    ensures
        passes == (score > threshold_of(filter_of(filter))),
{
    match filter {
        Some(f) => score > f.threshold,
        None => true,
    }
}

/// The place in an inbox at which a message with the given score belongs:
/// behind all that it does not outrank.
fn inbox_position(out: &Vec<RankedMessage>, row: &StoredMessage, score: u32) -> (pos: usize)
    requires
        in_inbox_order(ranked_records(out@)),
    ensures
        pos <= out.len(),
        forall|p: int|
            0 <= p < pos ==> !outranks(
                RankedRecord { record: row@, score: score as int },
                #[trigger] ranked_records(out@)[p],
            ),
        forall|q: int|
            pos <= q < out.len() ==> outranks(
                RankedRecord { record: row@, score: score as int },
                #[trigger] ranked_records(out@)[q],
            ),
{
    let ghost fresh = RankedRecord { record: row@, score: score as int };
    let mut pos: usize = 0;
    while pos < out.len() && !(score > out[pos].score || (score == out[pos].score
        && out[pos].message.is_earlier_than(row)))
        invariant
            pos <= out.len(),
            fresh == (RankedRecord { record: row@, score: score as int }),
            forall|p: int| 0 <= p < pos ==> !outranks(fresh, #[trigger] ranked_records(out@)[p]),
        decreases out.len() - pos,
    {
        pos += 1;
    }
    proof {
        assert forall|q: int| pos <= q < out.len() implies outranks(
            fresh,
            #[trigger] ranked_records(out@)[q],
        ) by {
            if q > pos {
                assert(outranks(ranked_records(out@)[pos as int], ranked_records(out@)[q]));
            }
        }
    }
    pos
}

impl ConversationStore {
    /// What holds of every store: the identifiers of its rows grow.
    #[verifier::type_invariant]
    pub closed spec fn well_formed(self) -> bool {
        ids_increasing(records(self.rows@))
    }

    /// The identifiers of a store grow along its log.
    pub proof fn lemma_log_grows(self)
        requires
            self.well_formed(),
        ensures
            ids_increasing(self@),
    {
    }

    /// What the store's clock shows, in nanoseconds since the Unix epoch.
    pub closed spec fn clock_reading(&self) -> int {
        self.clock@
    }

    /// A store without messages, whose clock shows `clock`.
    pub fn new(clock: Timestamp) -> (store: ConversationStore)
        ensures
            store@ == Seq::<MessageRecord>::empty(),
            store.clock_reading() == clock@,
    {
        let store = ConversationStore { rows: Vec::new(), clock };
        assert(store@ =~= Seq::<MessageRecord>::empty());
        store
    }

    /// What the store's clock shows.
    pub fn clock(&self) -> (shown: Timestamp)
        ensures
            shown@ == self.clock_reading(),
    {
        self.clock
    }

    /// Sets the store's clock. The messages stay as they are.
    pub fn set_clock(&mut self, clock: Timestamp)
        ensures
            final(self)@ == old(self)@,
            final(self).clock_reading() == clock@,
    {
        proof {
            use_type_invariant(&*self);
        }
        let mut taken = ConversationStore { rows: Vec::new(), clock };
        std::mem::swap(self, &mut taken);
        *self = ConversationStore { rows: taken.rows, clock };
    }

    /// A store that holds the given rows and whose clock shows `clock`, if
    /// the identifiers of the rows grow from each row to the next.
    pub fn from_rows(rows: Vec<StoredMessage>, clock: Timestamp) -> (made: Option<
        ConversationStore,
    >)
        ensures
            made is Some <==> ids_increasing(records(rows@)),
            made matches Some(store) ==> store@ == records(rows@) && store.clock_reading()
                == clock@,
    {
        let mut i: usize = 1;
        while i < rows.len()
            invariant
                1 <= i,
                forall|p: int, q: int|
                    0 <= p < q < i && q < rows.len() ==> (#[trigger] records(rows@)[p]).id < (
                    #[trigger] records(rows@)[q]).id,
            decreases rows.len() - i,
        {
            if rows[i - 1].id >= rows[i].id {
                proof {
                    assert(records(rows@)[i - 1].id >= records(rows@)[i as int].id);
                }
                return None;
            }
            proof {
                assert forall|p: int, q: int| 0 <= p < q < i + 1 && q < rows.len() implies (
                #[trigger] records(rows@)[p]).id < (#[trigger] records(rows@)[q]).id by {
                    if q == i {
                        if p < i - 1 {
                            assert(records(rows@)[p].id < records(rows@)[i - 1].id);
                        }
                        assert(records(rows@)[i - 1].id < records(rows@)[i as int].id);
                    }
                }
            }
            i += 1;
        }
        Some(ConversationStore { rows, clock })
    }

    /// How many messages the store holds.
    pub fn len(&self) -> (n: usize)
        ensures
            ids_increasing(self@),
            n == self@.len(),
    {
        proof {
            use_type_invariant(self);
        }
        self.rows.len()
    }

    /// Stores a new message and returns the creation time that the store
    /// gave it: what its clock shows at the write.
    ///
    /// An empty body is refused as invalid input; a store whose identifiers
    /// are used up refuses the write as a storage error. A refused write
    /// leaves the store as it was.
    pub fn append(
        &mut self,
        sender_id: i32,
        receiver_id: i32,
        body: String,
        receiver_display_name: String,
    ) -> (written: Result<Timestamp, ChatError>)
        ensures
            ids_increasing(old(self)@),
            ids_increasing(final(self)@),
            final(self).clock_reading() == old(self).clock_reading(),
            body@.len() == 0 ==> written == Err::<Timestamp, ChatError>(ChatError::InvalidInput),
            body@.len() != 0 && next_id(old(self)@) > i32::MAX ==> written == Err::<
                Timestamp,
                ChatError,
            >(ChatError::StorageError),
            written is Err ==> final(self)@ == old(self)@,
            body@.len() != 0 && next_id(old(self)@) <= i32::MAX ==> written is Ok,
            written matches Ok(created_at) ==> created_at@ == old(self).clock_reading()
                && final(self)@ == old(self)@.push(
                MessageRecord {
                    id: next_id(old(self)@),
                    sender_id: sender_id as int,
                    receiver_id: receiver_id as int,
                    body: body@,
                    created_at: old(self).clock_reading(),
                    receiver_display_name: receiver_display_name@,
                },
            ),
    {
        proof {
            use_type_invariant(&*self);
        }
        if body.as_str().is_empty() {
            return Err(ChatError::InvalidInput);
        }
        let n = self.rows.len();
        let id: i32 = if n == 0 {
            1
        } else {
            let last = self.rows[n - 1].id;
            if last == i32::MAX {
                return Err(ChatError::StorageError);
            }
            last + 1
        };
        let now = self.clock;
        let ghost before = records(self.rows@);
        let row = StoredMessage { id, sender_id, receiver_id, body, created_at: now, receiver_display_name };
        let mut taken = ConversationStore { rows: Vec::new(), clock: now };
        std::mem::swap(self, &mut taken);
        let mut rows = taken.rows;
        rows.push(row);
        proof {
            let after = records(rows@);
            assert(after =~= before.push(row@));
            assert forall|i: int, j: int| 0 <= i < j < after.len() implies (#[trigger] after[i]).id
                < (#[trigger] after[j]).id by {
                if j == after.len() - 1 {
                    if i < before.len() - 1 {
                        assert(before[i].id < before[before.len() - 1].id);
                    }
                } else {
                    assert(before[i].id < before[j].id);
                }
            }
        }
        *self = ConversationStore { rows, clock: now };
        Ok(now)
    }

    /// The history of the conversation of `a` and `b`: its messages in the
    /// order of their creation times, and among equal times in the order in
    /// which they were stored. Empty where the two never wrote.
    pub fn list_between(&self, a: i32, b: i32) -> (out: Vec<StoredMessage>)
        ensures
            ids_increasing(self@),
            is_history_of(records(out@), self@, a as int, b as int),
            records(out@) == history_of(self@, a as int, b as int),
    {
        proof {
            use_type_invariant(self);
        }
        let ghost log = records(self.rows@);
        let mut out: Vec<StoredMessage> = Vec::new();
        let mut i: usize = 0;
        assert(log.take(0) =~= Seq::<MessageRecord>::empty());
        while i < self.rows.len()
            invariant
                i <= self.rows.len(),
                log == records(self.rows@),
                ids_increasing(log),
                in_history_order(records(out@)),
                forall|m: MessageRecord| #[trigger]
                    records(out@).contains(m) <==> (log.take(i as int).contains(m)
                        && same_conversation(m, a as int, b as int)),
                forall|p: int, k: int|
                    0 <= p < out.len() && i <= k < log.len() ==> (#[trigger] records(out@)[p]).id
                        < (#[trigger] log[k]).id,
            decreases self.rows.len() - i,
        {
            let row = &self.rows[i];
            proof {
                lemma_take_members(log, i as int);
                assert(log[i as int] == row@);
            }
            if row.is_between(a, b) {
                let pos = history_position(&out, row);
                let ghost held = records(out@);
                out.insert(pos, row.duplicate());
                proof {
                    assert(records(out@) =~= held.insert(pos as int, row@));
                    lemma_insert_members(held, pos as int, row@);
                    assert forall|p: int| 0 <= p < pos implies earlier(#[trigger] held[p], row@) by {
                        assert(held[p].id < log[i as int].id);
                    }
                    let before = |x: MessageRecord, y: MessageRecord| earlier(x, y);
                    assert(ordered_by(held, before)) by {
                        assert forall|p: int, q: int| 0 <= p < q < held.len() implies #[trigger] before(
                            held[p],
                            held[q],
                        ) by {
                            assert(earlier(held[p], held[q]));
                        }
                    }
                    assert forall|p: int| 0 <= p < pos implies #[trigger] before(held[p], row@) by {
                        assert(earlier(held[p], row@));
                    }
                    assert forall|q: int| pos <= q < held.len() implies #[trigger] before(
                        row@,
                        held[q],
                    ) by {
                        assert(earlier(row@, held[q]));
                    }
                    lemma_insert_keeps_order(held, pos as int, row@, before);
                    let grown = held.insert(pos as int, row@);
                    assert forall|p: int, q: int| 0 <= p < q < grown.len() implies earlier(
                        #[trigger] grown[p],
                        #[trigger] grown[q],
                    ) by {
                        assert(before(grown[p], grown[q]));
                    }
                    assert forall|p: int, k: int|
                        0 <= p < grown.len() && i + 1 <= k < log.len() implies (
                    #[trigger] grown[p]).id < (#[trigger] log[k]).id by {
                        if p < pos {
                            assert(held[p].id < log[k].id);
                        } else if p == pos {
                            assert(log[i as int].id < log[k].id);
                        } else {
                            assert(held[p - 1].id < log[k].id);
                        }
                    }
                }
            }
            i += 1;
        }
        proof {
            assert(log.take(i as int) =~= log);
            assert(is_history_of(records(out@), log, a as int, b as int));
            lemma_history_unique(
                records(out@),
                history_of(log, a as int, b as int),
                log,
                a as int,
                b as int,
            );
        }
        out
    }

    /// The newest message of the conversation of `a` and `b`, if the two
    /// ever wrote.
    pub fn latest_between(&self, a: i32, b: i32) -> (latest: Option<StoredMessage>)
        ensures
            ids_increasing(self@),
            latest is Some <==> has_conversation(self@, a as int, b as int),
            latest matches Some(m) ==> is_latest_between(m@, self@, a as int, b as int) && m@
                == latest_of(self@, a as int, b as int),
    {
        proof {
            use_type_invariant(self);
        }
        let ghost log = records(self.rows@);
        let mut best: Option<usize> = None;
        let mut i: usize = 0;
        while i < self.rows.len()
            invariant
                i <= self.rows.len(),
                log == records(self.rows@),
                best matches Some(k) ==> k < i && same_conversation(log[k as int], a as int, b as int)
                    && forall|j: int|
                    0 <= j < i && same_conversation(#[trigger] log[j], a as int, b as int)
                        ==> !earlier(log[k as int], log[j]),
                best is None ==> forall|j: int|
                    0 <= j < i ==> !same_conversation(#[trigger] log[j], a as int, b as int),
            decreases self.rows.len() - i,
        {
            let row = &self.rows[i];
            proof {
                assert(log[i as int] == row@);
            }
            if row.is_between(a, b) {
                match best {
                    Some(k) => {
                        if self.rows[k].is_earlier_than(row) {
                            proof {
                                assert(log[k as int] == self.rows@[k as int]@);
                            }
                            best = Some(i);
                        }
                    },
                    None => {
                        best = Some(i);
                    },
                }
            }
            i += 1;
        }
        match best {
            Some(k) => {
                let found = self.rows[k].duplicate();
                proof {
                    assert(log[k as int] == found@);
                    assert(log.contains(found@));
                    assert forall|o: MessageRecord| #[trigger]
                        log.contains(o) && same_conversation(o, a as int, b as int) implies !earlier(
                        found@,
                        o,
                    ) by {
                        let j = choose|j: int| 0 <= j < log.len() && log[j] == o;
                        assert(same_conversation(log[j], a as int, b as int));
                    }
                    assert(is_latest_between(found@, log, a as int, b as int));
                    lemma_latest_unique(found@, latest_of(log, a as int, b as int), log, a as int, b as int);
                }
                Some(found)
            },
            None => {
                proof {
                    if has_conversation(log, a as int, b as int) {
                        let m = choose|m: MessageRecord| #[trigger]
                            log.contains(m) && same_conversation(m, a as int, b as int);
                        let j = choose|j: int| 0 <= j < log.len() && log[j] == m;
                        assert(!same_conversation(log[j], a as int, b as int));
                    }
                }
                None
            },
        }
    }

    fn is_candidate_at(&self, i: usize, user_id: i32, filter: Option<&NameFilter>) -> (listed: bool)
        requires
            i < self@.len(),
            filter matches Some(f) ==> f.scores@.len() == self@.len(),
        ensures
            listed == (involves(self@[i as int], user_id as int) && score_at(
                filter_of(filter),
                i as int,
            ) > threshold_of(filter_of(filter))),
    {
        let row = &self.rows[i];
        proof {
            assert(self@[i as int] == row@);
        }
        row.involves_user(user_id) && exceeds_threshold(filter, score_of(filter, i))
    }

    fn is_latest_at(&self, i: usize, user_id: i32, filter: Option<&NameFilter>) -> (latest: bool)
        requires
            i < self@.len(),
            filter matches Some(f) ==> f.scores@.len() == self@.len(),
        ensures
            latest == is_latest_candidate(
                ranked(self@, filter_of(filter))[i as int],
                ranked(self@, filter_of(filter)),
                user_id as int,
                threshold_of(filter_of(filter)),
            ),
    {
        let ghost log = records(self.rows@);
        let ghost all = ranked(log, filter_of(filter));
        let ghost threshold = threshold_of(filter_of(filter));
        let ghost me = all[i as int];
        proof {
            assert(all.contains(me));
        }
        if !self.is_candidate_at(i, user_id, filter) {
            return false;
        }
        let row = &self.rows[i];
        let mut j: usize = 0;
        while j < self.rows.len()
            invariant
                j <= self.rows.len(),
                i < self.rows.len(),
                row == &self.rows[i as int],
                log == records(self.rows@),
                log == self@,
                all == ranked(log, filter_of(filter)),
                threshold == threshold_of(filter_of(filter)),
                me == all[i as int],
                filter matches Some(f) ==> f.scores@.len() == self@.len(),
                forall|k: int|
                    0 <= k < j && is_candidate(#[trigger] all[k], all, user_id as int, threshold)
                        && same_pair(all[k].record, me.record) ==> !earlier(
                        me.record,
                        all[k].record,
                    ),
            decreases self.rows.len() - j,
        {
            let other = &self.rows[j];
            proof {
                assert(log[j as int] == other@);
                assert(log[i as int] == row@);
                assert(all.contains(all[j as int]));
            }
            if self.is_candidate_at(j, user_id, filter) && other.shares_pair_with(row)
                && row.is_earlier_than(other) {
                proof {
                    assert(is_candidate(all[j as int], all, user_id as int, threshold));
                }
                return false;
            }
            j += 1;
        }
        proof {
            assert(is_candidate(me, all, user_id as int, threshold));
            assert forall|o: RankedRecord| #[trigger]
                is_candidate(o, all, user_id as int, threshold) && same_pair(
                    o.record,
                    me.record,
                ) implies !earlier(me.record, o.record) by {
                let k = choose|k: int| 0 <= k < all.len() && all[k] == o;
                assert(is_candidate(all[k], all, user_id as int, threshold));
            }
        }
        true
    }

    /// The inbox of `user_id`: for each conversation of the user the newest
    /// message among those whose score exceeds the filter's threshold, the
    /// higher score first and among equal scores the newer message first.
    /// Without a filter every message counts and the newest comes first.
    ///
    /// A filter that does not hold one score for each message of the store
    /// is refused as invalid input.
    pub fn latest_per_conversation(&self, user_id: i32, filter: Option<&NameFilter>) -> (listed:
        Result<Vec<RankedMessage>, ChatError>)
        ensures
            listed is Err <==> (filter matches Some(f) && f.scores@.len() != self@.len()),
            listed matches Err(e) ==> e == ChatError::InvalidInput,
            listed matches Ok(out) ==> is_inbox_of(
                ranked_records(out@),
                ranked(self@, filter_of(filter)),
                user_id as int,
                threshold_of(filter_of(filter)),
            ) && ranked_records(out@) == inbox_of(
                ranked(self@, filter_of(filter)),
                user_id as int,
                threshold_of(filter_of(filter)),
            ),
    {
        proof {
            use_type_invariant(self);
        }
        match filter {
            Some(f) => {
                if f.scores.len() != self.rows.len() {
                    return Err(ChatError::InvalidInput);
                }
            },
            None => {},
        }
        let ghost log = records(self.rows@);
        let ghost all = ranked(log, filter_of(filter));
        let ghost threshold = threshold_of(filter_of(filter));
        let mut out: Vec<RankedMessage> = Vec::new();
        let mut i: usize = 0;
        assert(all.take(0) =~= Seq::<RankedRecord>::empty());
        while i < self.rows.len()
            invariant
                i <= self.rows.len(),
                log == records(self.rows@),
                log == self@,
                all == ranked(log, filter_of(filter)),
                threshold == threshold_of(filter_of(filter)),
                filter matches Some(f) ==> f.scores@.len() == self@.len(),
                ids_increasing(log),
                in_inbox_order(ranked_records(out@)),
                forall|r: RankedRecord| #[trigger]
                    ranked_records(out@).contains(r) <==> (all.take(i as int).contains(r)
                        && is_latest_candidate(r, all, user_id as int, threshold)),
                forall|p: int, k: int|
                    0 <= p < out.len() && i <= k < log.len() ==> (#[trigger] ranked_records(
                        out@,
                    )[p]).record.id < (#[trigger] log[k]).id,
            decreases self.rows.len() - i,
        {
            let row = &self.rows[i];
            proof {
                lemma_take_members(all, i as int);
                assert(log[i as int] == row@);
            }
            if self.is_latest_at(i, user_id, filter) {
                let score = score_of(filter, i);
                let pos = inbox_position(&out, row, score);
                let ghost held = ranked_records(out@);
                let ghost fresh = RankedRecord { record: row@, score: score as int };
                out.insert(pos, RankedMessage { message: row.duplicate(), score });
                proof {
                    assert(fresh == all[i as int]);
                    assert(ranked_records(out@) =~= held.insert(pos as int, fresh));
                    lemma_insert_members(held, pos as int, fresh);
                    let before = |x: RankedRecord, y: RankedRecord| outranks(x, y);
                    assert(ordered_by(held, before)) by {
                        assert forall|p: int, q: int| 0 <= p < q < held.len() implies #[trigger] before(
                            held[p],
                            held[q],
                        ) by {
                            assert(outranks(held[p], held[q]));
                        }
                    }
                    assert forall|p: int| 0 <= p < pos implies #[trigger] before(held[p], fresh) by {
                        assert(held[p].record.id < log[i as int].id);
                        assert(!outranks(fresh, held[p]));
                    }
                    assert forall|q: int| pos <= q < held.len() implies #[trigger] before(
                        fresh,
                        held[q],
                    ) by {
                        assert(outranks(fresh, held[q]));
                    }
                    lemma_insert_keeps_order(held, pos as int, fresh, before);
                    let grown = held.insert(pos as int, fresh);
                    assert forall|p: int, q: int| 0 <= p < q < grown.len() implies outranks(
                        #[trigger] grown[p],
                        #[trigger] grown[q],
                    ) by {
                        assert(before(grown[p], grown[q]));
                    }
                    assert forall|p: int, k: int|
                        0 <= p < grown.len() && i + 1 <= k < log.len() implies (
                    #[trigger] grown[p]).record.id < (#[trigger] log[k]).id by {
                        if p < pos {
                            assert(held[p].record.id < log[k].id);
                        } else if p == pos {
                            assert(log[i as int].id < log[k].id);
                        } else {
                            assert(held[p - 1].record.id < log[k].id);
                        }
                    }
                }
            }
            i += 1;
        }
        proof {
            assert(all.take(i as int) =~= all);
            assert(is_inbox_of(ranked_records(out@), all, user_id as int, threshold));
            lemma_inbox_unique(
                ranked_records(out@),
                inbox_of(all, user_id as int, threshold),
                all,
                user_id as int,
                threshold,
            );
        }
        Ok(out)
    }
}

/// The history of a conversation is fixed by the store: two sequences that
/// both are the history of `a` and `b` in one log are the same sequence.
pub proof fn lemma_history_unique(
    x: Seq<MessageRecord>,
    y: Seq<MessageRecord>,
    log: Seq<MessageRecord>,
    a: int,
    b: int,
)
    requires
        is_history_of(x, log, a, b),
        is_history_of(y, log, a, b),
    ensures
        x == y,
{
    let before = |p: MessageRecord, q: MessageRecord| earlier(p, q);
    assert(ordered_by(x, before)) by {
        assert forall|i: int, j: int| 0 <= i < j < x.len() implies #[trigger] before(x[i], x[j]) by {
            assert(earlier(x[i], x[j]));
        }
    }
    assert(ordered_by(y, before)) by {
        assert forall|i: int, j: int| 0 <= i < j < y.len() implies #[trigger] before(y[i], y[j]) by {
            assert(earlier(y[i], y[j]));
        }
    }
    assert(asymmetric(before));
    assert(same_members(x, y));
    lemma_ordered_unique(x, y, before);
}

/// The inbox of a user is fixed by the store and the scores: two sequences
/// that both are the inbox of `user` over `all` are the same sequence.
pub proof fn lemma_inbox_unique(
    x: Seq<RankedRecord>,
    y: Seq<RankedRecord>,
    all: Seq<RankedRecord>,
    user: int,
    threshold: int,
)
    requires
        is_inbox_of(x, all, user, threshold),
        is_inbox_of(y, all, user, threshold),
    ensures
        x == y,
{
    let before = |p: RankedRecord, q: RankedRecord| outranks(p, q);
    assert(ordered_by(x, before)) by {
        assert forall|i: int, j: int| 0 <= i < j < x.len() implies #[trigger] before(x[i], x[j]) by {
            assert(outranks(x[i], x[j]));
        }
    }
    assert(ordered_by(y, before)) by {
        assert forall|i: int, j: int| 0 <= i < j < y.len() implies #[trigger] before(y[i], y[j]) by {
            assert(outranks(y[i], y[j]));
        }
    }
    assert(asymmetric(before));
    assert(same_members(x, y));
    lemma_ordered_unique(x, y, before);
}

/// A conversation has one newest message: two messages that both are the
/// newest of `a` and `b` in a log whose identifiers grow are the same
/// message.
pub proof fn lemma_latest_unique(
    x: MessageRecord,
    y: MessageRecord,
    log: Seq<MessageRecord>,
    a: int,
    b: int,
)
    requires
        ids_increasing(log),
        is_latest_between(x, log, a, b),
        is_latest_between(y, log, a, b),
    ensures
        x == y,
{
    assert(!earlier(x, y));
    assert(!earlier(y, x));
    let i = choose|i: int| 0 <= i < log.len() && log[i] == x;
    let j = choose|j: int| 0 <= j < log.len() && log[j] == y;
    if i < j {
        assert(log[i].id < log[j].id);
    } else if j < i {
        assert(log[j].id < log[i].id);
    }
}

/// A message stored for one conversation changes the history of no other:
/// the history of `a` and `b` is the same before and after a message of
/// another conversation was stored.
pub proof fn lemma_append_leaves_other_histories(
    log: Seq<MessageRecord>,
    m: MessageRecord,
    a: int,
    b: int,
)
    requires
        ids_increasing(log),
        ids_increasing(log.push(m)),
        !same_conversation(m, a, b),
    ensures
        history_of(log.push(m), a, b) == history_of(log, a, b),
{
    let grown = log.push(m);
    let before = lemma_history_exists(log, a, b);
    let after = lemma_history_exists(grown, a, b);
    assert(grown.take(log.len() as int) =~= log);
    assert(grown.take(grown.len() as int) =~= grown);
    lemma_take_members(grown, log.len() as int);
    assert(is_history_of(before, grown, a, b));
    lemma_history_unique(before, after, grown, a, b);
}

/// A stored message is in the history of its conversation, together with
/// all that was there before.
pub proof fn lemma_append_extends_history(
    log: Seq<MessageRecord>,
    m: MessageRecord,
    a: int,
    b: int,
)
    requires
        ids_increasing(log),
        ids_increasing(log.push(m)),
        same_conversation(m, a, b),
    ensures
        history_of(log.push(m), a, b).contains(m),
        history_of(log.push(m), a, b).len() == history_of(log, a, b).len() + 1,
        forall|o: MessageRecord| #[trigger]
            history_of(log, a, b).contains(o) ==> history_of(log.push(m), a, b).contains(o),
{
    let grown = log.push(m);
    let before = lemma_history_exists(log, a, b);
    let after = lemma_history_exists(grown, a, b);
    assert(grown.take(log.len() as int) =~= log);
    assert(grown.take(grown.len() as int) =~= grown);
    lemma_take_members(grown, log.len() as int);
    assert(grown[log.len() as int] == m);
    assert(grown.contains(m));
    lemma_place_in_history(before, m);
    let pos = place_in_history(before, m);
    let built = before.insert(pos, m);
    lemma_insert_members(before, pos, m);
    let order = |x: MessageRecord, y: MessageRecord| earlier(x, y);
    assert(ordered_by(before, order)) by {
        assert forall|p: int, q: int| 0 <= p < q < before.len() implies #[trigger] order(
            before[p],
            before[q],
        ) by {
            assert(earlier(before[p], before[q]));
        }
    }
    assert forall|p: int| 0 <= p < pos implies #[trigger] order(before[p], m) by {
        assert(before.contains(before[p]));
        assert(log.contains(before[p]));
        let k = choose|k: int| 0 <= k < log.len() && log[k] == before[p];
        assert(grown[k].id < grown[log.len() as int].id);
        assert(!earlier(m, before[p]));
    }
    assert forall|q: int| pos <= q < before.len() implies #[trigger] order(m, before[q]) by {
        if q > pos {
            assert(earlier(before[pos], before[q]));
        }
    }
    lemma_insert_keeps_order(before, pos, m, order);
    assert forall|p: int, q: int| 0 <= p < q < built.len() implies earlier(
        #[trigger] built[p],
        #[trigger] built[q],
    ) by {
        assert(order(built[p], built[q]));
    }
    assert(is_history_of(built, grown, a, b));
    lemma_history_unique(built, after, grown, a, b);
}

/// An inbox lists every conversation once: no two of its messages belong
/// to one conversation.
pub proof fn lemma_inbox_one_per_conversation(
    out: Seq<RankedRecord>,
    log: Seq<MessageRecord>,
    filter: Option<NameFilter>,
    user: int,
    i: int,
    j: int,
)
    requires
        ids_increasing(log),
        is_inbox_of(out, ranked(log, filter), user, threshold_of(filter)),
        0 <= i < j < out.len(),
    ensures
        !same_pair(out[i].record, out[j].record),
{
    let all = ranked(log, filter);
    let threshold = threshold_of(filter);
    if same_pair(out[i].record, out[j].record) {
        assert(out.contains(out[i]));
        assert(out.contains(out[j]));
        assert(is_latest_candidate(out[i], all, user, threshold));
        assert(is_latest_candidate(out[j], all, user, threshold));
        assert(is_candidate(out[i], all, user, threshold));
        assert(is_candidate(out[j], all, user, threshold));
        assert(!earlier(out[j].record, out[i].record));
        assert(same_pair(out[j].record, out[i].record));
        assert(!earlier(out[i].record, out[j].record));
        let p = choose|p: int| 0 <= p < all.len() && all[p] == out[i];
        let q = choose|q: int| 0 <= q < all.len() && all[q] == out[j];
        if p < q {
            assert(log[p].id < log[q].id);
        } else if q < p {
            assert(log[q].id < log[p].id);
        }
        assert(out[i] == out[j]);
        assert(outranks(out[i], out[j]));
    }
}

/// Within a history no creation time falls, and of two messages created at
/// the same instant the one that was stored first comes first.
pub proof fn lemma_history_follows_storage(
    out: Seq<MessageRecord>,
    log: Seq<MessageRecord>,
    a: int,
    b: int,
    i: int,
    j: int,
)
    requires
        ids_increasing(log),
        is_history_of(out, log, a, b),
        0 <= i < j < out.len(),
    ensures
        out[i].created_at <= out[j].created_at,
        out[i].created_at == out[j].created_at ==> exists|p: int, q: int|
            0 <= p < q < log.len() && log[p] == out[i] && log[q] == out[j],
{
    assert(earlier(out[i], out[j]));
    assert(out.contains(out[i]));
    assert(out.contains(out[j]));
    let p = choose|p: int| 0 <= p < log.len() && log[p] == out[i];
    let q = choose|q: int| 0 <= q < log.len() && log[q] == out[j];
    if out[i].created_at == out[j].created_at {
        if q < p {
            assert(log[q].id < log[p].id);
        }
        assert(p < q);
    }
}

/// A conversation has no direction: the history of `a` and `b` is the
/// history of `b` and `a`.
pub proof fn lemma_history_symmetric(
    x: Seq<MessageRecord>,
    y: Seq<MessageRecord>,
    log: Seq<MessageRecord>,
    a: int,
    b: int,
)
    requires
        is_history_of(x, log, a, b),
        is_history_of(y, log, b, a),
    ensures
        x == y,
{
    assert forall|m: MessageRecord| #[trigger]
        y.contains(m) <==> (log.contains(m) && same_conversation(m, a, b)) by {
        assert(same_conversation(m, a, b) == same_conversation(m, b, a));
    }
    lemma_history_unique(x, y, log, a, b);
}

/// The place at which `x` belongs in the history `h`: behind all that do
/// not come after it.
pub open spec fn place_in_history(h: Seq<MessageRecord>, x: MessageRecord) -> int
    decreases h.len(),
{
    if h.len() == 0 || earlier(x, h[0]) {
        0
    } else {
        1 + place_in_history(h.drop_first(), x)
    }
}

proof fn lemma_place_in_history(h: Seq<MessageRecord>, x: MessageRecord)
    ensures
        0 <= place_in_history(h, x) <= h.len(),
        forall|p: int| 0 <= p < place_in_history(h, x) ==> !earlier(x, #[trigger] h[p]),
        place_in_history(h, x) < h.len() ==> earlier(x, h[place_in_history(h, x)]),
    decreases h.len(),
{
    if h.len() == 0 || earlier(x, h[0]) {
    } else {
        let rest = h.drop_first();
        lemma_place_in_history(rest, x);
        assert forall|p: int| 0 <= p < place_in_history(h, x) implies !earlier(x, #[trigger] h[p]) by {
            if p > 0 {
                assert(h[p] == rest[p - 1]);
            }
        }
        if place_in_history(h, x) < h.len() {
            assert(h[place_in_history(h, x)] == rest[place_in_history(rest, x)]);
        }
    }
}

/// Every conversation has a history: in a log whose identifiers grow, the
/// messages of `a` and `b` can be put in history order.
pub proof fn lemma_history_exists(log: Seq<MessageRecord>, a: int, b: int) -> (out: Seq<
    MessageRecord,
>)
    requires
        ids_increasing(log),
    ensures
        is_history_of(out, log, a, b),
        out == history_of(log, a, b),
    decreases log.len(),
{
    let out = if log.len() == 0 {
        let none = Seq::<MessageRecord>::empty();
        assert(is_history_of(none, log, a, b));
        none
    } else {
        let shorter = log.drop_last();
        let last = log.last();
        assert(ids_increasing(shorter)) by {
            assert forall|i: int, j: int| 0 <= i < j < shorter.len() implies (
            #[trigger] shorter[i]).id < (#[trigger] shorter[j]).id by {
                assert(log[i].id < log[j].id);
            }
        }
        let held = lemma_history_exists(shorter, a, b);
        assert(shorter =~= log.take(log.len() - 1));
        lemma_take_members(log, log.len() - 1);
        assert(log.take(log.len() as int) =~= log);
        if same_conversation(last, a, b) {
            lemma_place_in_history(held, last);
            let pos = place_in_history(held, last);
            let grown = held.insert(pos, last);
            lemma_insert_members(held, pos, last);
            let before = |x: MessageRecord, y: MessageRecord| earlier(x, y);
            assert(ordered_by(held, before)) by {
                assert forall|p: int, q: int| 0 <= p < q < held.len() implies #[trigger] before(
                    held[p],
                    held[q],
                ) by {
                    assert(earlier(held[p], held[q]));
                }
            }
            assert forall|p: int| 0 <= p < pos implies #[trigger] before(held[p], last) by {
                assert(held.contains(held[p]));
                assert(shorter.contains(held[p]));
                let k = choose|k: int| 0 <= k < shorter.len() && shorter[k] == held[p];
                assert(log[k].id < log[log.len() - 1].id);
                assert(!earlier(last, held[p]));
            }
            assert forall|q: int| pos <= q < held.len() implies #[trigger] before(last, held[q]) by {
                if q > pos {
                    assert(earlier(held[pos], held[q]));
                }
            }
            lemma_insert_keeps_order(held, pos, last, before);
            assert forall|p: int, q: int| 0 <= p < q < grown.len() implies earlier(
                #[trigger] grown[p],
                #[trigger] grown[q],
            ) by {
                assert(before(grown[p], grown[q]));
            }
            assert(is_history_of(grown, log, a, b));
            grown
        } else {
            assert(is_history_of(held, log, a, b));
            held
        }
    };
    lemma_history_unique(out, history_of(log, a, b), log, a, b);
    out
}

/// The history that a store gives for `a` and `b` is the one it gives for
/// `b` and `a`.
pub proof fn lemma_list_between_symmetric(log: Seq<MessageRecord>, a: int, b: int)
    requires
        ids_increasing(log),
    ensures
        history_of(log, a, b) == history_of(log, b, a),
{
    let forth = lemma_history_exists(log, a, b);
    let back = lemma_history_exists(log, b, a);
    lemma_history_symmetric(forth, back, log, a, b);
}

} // verus!
