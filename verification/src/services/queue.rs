//! The admission queue: a first-in first-out ledger of pending requests
//! with derived positions and waiting times.
use crate::config::QueueConfig;
use crate::models::{ChatMessage, QueueStatus};
use std::collections::VecDeque;
use vstd::prelude::*;

verus! {

/// A request that waits in the queue.
#[derive(Debug, Clone)]
pub struct QueuedRequest {
    pub id: String,
    pub messages: Vec<ChatMessage>,
    pub model: String,
    pub system_prompt: String,
    pub timestamp: i64,
}

/// Whether `pos` is the place of the first entry with the given id.
pub open spec fn is_first_at(entries: Seq<QueuedRequest>, id: Seq<char>, pos: int) -> bool {
    &&& 0 <= pos < entries.len()
    &&& entries[pos].id@ == id
    &&& forall|j: int| 0 <= j < pos ==> (#[trigger] entries[j]).id@ != id
}

/// The place, counted from zero, of the first entry with the given id.
pub open spec fn position_of(entries: Seq<QueuedRequest>, id: Seq<char>) -> Option<int> {
    if exists|pos: int| is_first_at(entries, id, pos) {
        Some(choose|pos: int| is_first_at(entries, id, pos))
    } else {
        None
    }
}

/// Whether at most one entry has the given id.
pub open spec fn at_most_once(entries: Seq<QueuedRequest>, id: Seq<char>) -> bool {
    forall|i: int, j: int|
        0 <= i < j < entries.len() ==> !((#[trigger] entries[i]).id@ == id && (
        #[trigger] entries[j]).id@ == id)
}

/// The entries without the first one that has the given id.
pub open spec fn cancelled(entries: Seq<QueuedRequest>, id: Seq<char>) -> Seq<QueuedRequest> {
    match position_of(entries, id) {
        Some(pos) => entries.remove(pos),
        None => entries,
    }
}

/// The status of the entry at place `pos` of a queue of `length` entries.
pub open spec fn status_at(length: nat, processing: bool, per_request_ms: u64, pos: int)
    -> QueueStatus {
    QueueStatus {
        queue_position: (pos + 1) as usize,
        queue_length: length as usize,
        estimated_wait_time: (pos * per_request_ms) as u64,
        is_processing: processing && pos == 0,
    }
}

/// The first entry with an id stands where `position_of` says.
pub proof fn lemma_position_found(entries: Seq<QueuedRequest>, id: Seq<char>, pos: int)
    requires
        is_first_at(entries, id, pos),
    ensures
        position_of(entries, id) == Some(pos),
{
    let other = choose|p: int| is_first_at(entries, id, p);
    assert(is_first_at(entries, id, other));
    if other < pos {
        assert(entries[other].id@ != id);
    }
    if pos < other {
        assert(entries[pos].id@ != id);
    }
}

/// An id that no entry has stands nowhere.
pub proof fn lemma_position_absent(entries: Seq<QueuedRequest>, id: Seq<char>)
    requires
        forall|j: int| 0 <= j < entries.len() ==> (#[trigger] entries[j]).id@ != id,
    ensures
        position_of(entries, id) is None,
{
}

/// Where an entry at or before `upto` has the id, the id has a first place,
/// which is not behind `upto`.
pub proof fn lemma_first_exists(entries: Seq<QueuedRequest>, id: Seq<char>, upto: int)
    requires
        0 <= upto < entries.len(),
        entries[upto].id@ == id,
    ensures
        position_of(entries, id) is Some,
        0 <= position_of(entries, id)->0 <= upto,
        is_first_at(entries, id, position_of(entries, id)->0),
    decreases upto,
{
    if exists|j: int| 0 <= j < upto && (#[trigger] entries[j]).id@ == id {
        let j = choose|j: int| 0 <= j < upto && (#[trigger] entries[j]).id@ == id;
        lemma_first_exists(entries, id, j);
    } else {
        assert(is_first_at(entries, id, upto));
        lemma_position_found(entries, id, upto);
    }
}

/// Calls `uuid::Uuid::new_v4` and writes the identifier with `to_string`.
/// Trusted: the text is in the hyphenated form, which has 36 characters.
/// The identifier is random: nothing else is claimed of it.
#[verifier::external_body]
fn fresh_id() -> (id: String)
    ensures
        id@.len() == 36,
{
    uuid::Uuid::new_v4().to_string()
}

/// Calls `chrono::Utc::now` and `timestamp_millis`: the time of the call, of
/// which nothing is claimed.
#[verifier::external_body]
fn now_millis() -> (millis: i64) {
    chrono::Utc::now().timestamp_millis()
}

/// The admission queue with its queue-wide processing flag.
pub struct QueueService {
    queue: VecDeque<QueuedRequest>,
    processing: bool,
    config: QueueConfig,
}

impl QueueService {
    /// The waiting requests, the oldest first.
    pub closed spec fn entries(&self) -> Seq<QueuedRequest> {
        self.queue@
    }

    /// The queue-wide processing flag.
    pub closed spec fn processing(&self) -> bool {
        self.processing
    }

    /// The estimated cost of one request in milliseconds.
    pub closed spec fn per_request_ms(&self) -> u64 {
        self.config.estimated_time_per_request_ms
    }

    /// Whether nothing but the entries has changed between two states.
    pub open spec fn same_settings(&self, other: &QueueService) -> bool {
        self.processing() == other.processing() && self.per_request_ms() == other.per_request_ms()
    }

    /// Whether the estimated wait of the request with this id fits in 64
    /// bits. It does for an id that is not queued.
    pub open spec fn wait_fits(&self, id: Seq<char>) -> bool {
        position_of(self.entries(), id) matches Some(pos) ==> pos * self.per_request_ms()
            <= u64::MAX
    }

    /// The status of the first request with this id, if there is one.
    pub open spec fn status_of(&self, id: Seq<char>) -> Option<QueueStatus> {
        match position_of(self.entries(), id) {
            Some(pos) => Some(
                status_at(self.entries().len(), self.processing(), self.per_request_ms(), pos),
            ),
            None => None,
        }
    }

    /// An empty queue that is not processing.
    pub fn new(config: QueueConfig) -> (service: QueueService)
        ensures
            service.entries() == Seq::<QueuedRequest>::empty(),
            !service.processing(),
            service.per_request_ms() == config.estimated_time_per_request_ms,
    {
        QueueService { queue: VecDeque::new(), processing: false, config }
    }

    /// Appends a request with the given id and time of admission to the back
    /// of the queue.
    pub fn append(
        &mut self,
        id: String,
        timestamp: i64,
        messages: Vec<ChatMessage>,
        model: String,
        system_prompt: String,
    )
        ensures
            final(self).entries() == old(self).entries().push(
                (QueuedRequest { id, messages, model, system_prompt, timestamp }),
            ),
            final(self).same_settings(old(self)),
    {
        let request = QueuedRequest { id, messages, model, system_prompt, timestamp };
        self.queue.push_back(request);
    }

    /// Admits a request under a fresh random id, stamped with the current
    /// time, and returns the id.
    pub fn enqueue(
        &mut self,
        messages: Vec<ChatMessage>,
        model: String,
        system_prompt: String,
    ) -> (id: String)
        ensures
            id@.len() == 36,
            final(self).entries().len() == old(self).entries().len() + 1,
            final(self).entries().drop_last() == old(self).entries(),
            final(self).entries().last().id == id,
            final(self).entries().last().messages == messages,
            final(self).entries().last().model == model,
            final(self).entries().last().system_prompt == system_prompt,
            final(self).same_settings(old(self)),
    {
        let id = fresh_id();
        let timestamp = now_millis();
        let ghost before = self.entries();
        self.append(id.clone(), timestamp, messages, model, system_prompt);
        proof {
            assert(self.entries().drop_last() =~= before);
        }
        id
    }

    /// The place of the first request with this id.
    fn find(&self, request_id: &str) -> (found: Option<usize>)
        ensures
            found matches Some(pos) ==> position_of(self.entries(), request_id@) == Some(
                pos as int,
            ) && pos < self.entries().len(),
            found is None ==> position_of(self.entries(), request_id@) is None,
    {
        let wanted = request_id.to_owned();
        let mut i: usize = 0;
        while i < self.queue.len()
            invariant
                i <= self.queue@.len(),
                wanted@ == request_id@,
                forall|j: int| 0 <= j < i ==> (#[trigger] self.queue@[j]).id@ != request_id@,
            decreases self.queue@.len() - i,
        {
            if self.queue[i].id == wanted {
                proof {
                    lemma_position_found(self.entries(), request_id@, i as int);
                }
                return Some(i);
            }
            i += 1;
        }
        proof {
            lemma_position_absent(self.entries(), request_id@);
        }
        None
    }

    /// The status of the first request with this id: its place counted from
    /// one, the queue's length, the estimated wait (the place counted from
    /// zero times the cost of one request) and whether it is being
    /// processed. `None` for an id that is not queued.
    pub fn get_status(&self, request_id: &str) -> (status: Option<QueueStatus>)
        requires
            self.wait_fits(request_id@),
        ensures
            status == self.status_of(request_id@),
    {
        match self.find(request_id) {
            Some(pos) => {
                let length: usize = self.queue.len();
                let per_request: u64 = self.config.estimated_time_per_request_ms;
                assert(pos * per_request <= u64::MAX);
                let wait: u64 = (pos as u64) * per_request;
                Some(
                    QueueStatus {
                        queue_position: pos + 1,
                        queue_length: length,
                        estimated_wait_time: wait,
                        is_processing: self.processing && pos == 0,
                    },
                )
            },
            None => None,
        }
    }

    /// The queue's length and its processing flag.
    pub fn get_queue_info(&self) -> (info: (usize, bool))
        ensures
            info.0 == self.entries().len(),
            info.1 == self.processing(),
    {
        (self.queue.len(), self.processing)
    }

    /// Takes the oldest request out of the queue.
    pub fn dequeue(&mut self) -> (request: Option<QueuedRequest>)
        ensures
            final(self).same_settings(old(self)),
            old(self).entries().len() == 0 ==> request is None && final(self).entries() == old(self).entries(),
            old(self).entries().len() > 0 ==> request == Some(old(self).entries()[0]) && final(self).entries() == old(self).entries().drop_first(),
    {
        let request = self.queue.pop_front();
        proof {
            if old(self).entries().len() > 0 {
                assert(self.entries() =~= old(self).entries().drop_first());
            }
        }
        request
    }

    /// Sets the queue-wide processing flag.
    pub fn set_processing(&mut self, is_processing: bool)
        ensures
            final(self).processing() == is_processing,
            final(self).entries() == old(self).entries(),
            final(self).per_request_ms() == old(self).per_request_ms(),
    {
        self.processing = is_processing;
    }

    /// Whether the queue is free to process a request.
    pub fn can_process(&self) -> (free: bool)
        ensures
            free == !self.processing(),
    {
        !self.processing
    }

    /// Removes the first request with this id and says whether there was
    /// one.
    pub fn cancel(&mut self, request_id: &str) -> (removed: bool)
        ensures
            removed == (position_of(old(self).entries(), request_id@) is Some),
            final(self).entries() == cancelled(old(self).entries(), request_id@),
            final(self).same_settings(old(self)),
    {
        match self.find(request_id) {
            Some(pos) => {
                let _ = self.queue.remove(pos);
                proof {
                    assert(self.entries() =~= old(self).entries().remove(pos as int));
                }
                true
            },
            None => false,
        }
    }

    /// The number of waiting requests.
    pub fn len(&self) -> (length: usize)
        ensures
            length == self.entries().len(),
    {
        self.queue.len()
    }

    /// Whether no request waits.
    pub fn is_empty(&self) -> (empty: bool)
        ensures
            empty == (self.entries().len() == 0),
    {
        self.queue.len() == 0
    }
}

/// First in, first out. A request appended to a queue stands behind all
/// that waited before it, which keep their places. So from an empty queue to
/// which `a` and then `b` were appended, the first removal from the front
/// gives `a`, the second gives `b`, and then the queue is empty. A request
/// that waits alone stands at the first place.
pub proof fn lemma_first_in_first_out(
    waiting: Seq<QueuedRequest>,
    a: QueuedRequest,
    b: QueuedRequest,
    processing: bool,
    per_request_ms: u64,
)
    ensures
        forall|i: int| 0 <= i < waiting.len() ==> waiting.push(a)[i] == waiting[i],
        waiting.push(a).last() == a,
        Seq::<QueuedRequest>::empty().push(a).push(b)[0] == a,
        Seq::<QueuedRequest>::empty().push(a).push(b).drop_first()[0] == b,
        Seq::<QueuedRequest>::empty().push(a).push(b).drop_first().drop_first().len() == 0,
        position_of(Seq::<QueuedRequest>::empty().push(a), a.id@) == Some(0int),
        status_at(1, processing, per_request_ms, 0).queue_position == 1,
        status_at(1, processing, per_request_ms, 0).estimated_wait_time == 0,
{
    let alone = Seq::<QueuedRequest>::empty().push(a);
    assert(is_first_at(alone, a.id@, 0));
    lemma_position_found(alone, a.id@, 0);
}

/// Cancelling an id that is queued removes exactly the first entry with
/// that id: the queue is shorter by one and every other entry keeps its
/// order.
pub proof fn lemma_cancel_removes_one(entries: Seq<QueuedRequest>, id: Seq<char>)
    requires
        position_of(entries, id) is Some,
    ensures
        is_first_at(entries, id, position_of(entries, id)->0),
        cancelled(entries, id).len() == entries.len() - 1,
        forall|j: int|
            0 <= j < position_of(entries, id)->0 ==> cancelled(entries, id)[j] == entries[j],
        forall|j: int|
            position_of(entries, id)->0 <= j < entries.len() - 1 ==> cancelled(entries, id)[j]
                == entries[j + 1],
{
    let pos = position_of(entries, id)->0;
    assert(is_first_at(entries, id, pos));
}

/// Where at most one entry has the id, a second cancellation finds
/// nothing: after the first, no entry has the id.
pub proof fn lemma_cancel_twice(entries: Seq<QueuedRequest>, id: Seq<char>)
    requires
        at_most_once(entries, id),
    ensures
        position_of(cancelled(entries, id), id) is None,
        cancelled(cancelled(entries, id), id) == cancelled(entries, id),
{
    let rest = cancelled(entries, id);
    if position_of(entries, id) is Some {
        let pos = position_of(entries, id)->0;
        assert(is_first_at(entries, id, pos));
        assert forall|j: int| 0 <= j < rest.len() implies (#[trigger] rest[j]).id@ != id by {
            if j < pos {
                assert(rest[j] == entries[j]);
            } else {
                assert(rest[j] == entries[j + 1]);
                assert(!(entries[pos].id@ == id && entries[j + 1].id@ == id));
            }
        }
        lemma_position_absent(rest, id);
    }
}

} // verus!
