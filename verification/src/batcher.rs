//! The buffer between the journal and the uploader.
//!
//! Events are collected until the buffer has to be closed: because the next
//! event is older than the last one, because the batch would grow beyond what
//! one call may carry, or because its first event has waited long enough. A
//! closed buffer is handed out as one batch, in arrival order; its owner
//! uploads it.

use vstd::prelude::*;
use crate::clock::current_time_millis;
use crate::configuration::Configuration;
use crate::event::{byte_weight, get_event_num_bytes, total_weight, LogEvent};
use crate::grouping::in_time_order;

verus! {

/// Largest weight of one batch, in bytes.
pub const MAX_BATCH_BYTES: u128 = 1_048_576;

/// Age, in milliseconds, beyond which the first event of a buffer makes the
/// buffer stale.
pub const MAX_AGE_MS: i64 = 1000;

/// Timestamp of the first of `events`, if there is one.
pub open spec fn first_timestamp_of(events: Seq<LogEvent>) -> Option<i64> {
    if events.len() == 0 {
        None
    } else {
        Some(events[0].timestamp)
    }
}

/// Timestamp of the last of `events`, if there is one.
pub open spec fn last_timestamp_of(events: Seq<LogEvent>) -> Option<i64> {
    if events.len() == 0 {
        None
    } else {
        Some(events.last().timestamp)
    }
}

/// Whether a buffer that holds `pending` is closed before `event` is taken
/// in: it holds something, and `event` is older than its last event, or would
/// make it too heavy, or would make it reach `max_events` events.
pub open spec fn closes_buffer(pending: Seq<LogEvent>, max_events: nat, event: LogEvent) -> bool {
    &&& pending.len() > 0
    &&& {
        ||| event.timestamp < pending.last().timestamp
        ||| total_weight(pending) + byte_weight(event) > MAX_BATCH_BYTES
        ||| pending.len() + 1 >= max_events
    }
}

/// What a buffer may hold between two calls: fewer events than `max_events`,
/// or one event; and no more than the largest weight of a batch, unless it
/// holds one event that alone is heavier.
pub open spec fn within_limits(pending: Seq<LogEvent>, max_events: nat) -> bool {
    &&& pending.len() < max_events || pending.len() <= 1
    &&& total_weight(pending) <= MAX_BATCH_BYTES || pending.len() == 1
}

/// Whether a buffer whose first event carries `first_timestamp` is stale at
/// `now_ms`: the event is more than a second old.
pub open spec fn is_stale_at(first_timestamp: Option<i64>, now_ms: i64) -> bool {
    match first_timestamp {
        Some(first) => now_ms - first > MAX_AGE_MS,
        None => false,
    }
}

/// The weight of a sequence that ends in `event` is the weight of what stands
/// before it plus the weight of `event`.
pub proof fn lemma_total_weight_push(events: Seq<LogEvent>, event: LogEvent)
    ensures
        total_weight(events.push(event)) == total_weight(events) + byte_weight(event),
{
    assert(events.push(event).drop_last() =~= events);
}

/// The buffer of events that wait for their upload.
pub struct UploadThreadState {
    conf: Configuration,
    events: Vec<LogEvent>,
    first_timestamp: Option<i64>,
    last_timestamp: Option<i64>,
    num_pending_bytes: u128,
}

impl UploadThreadState {
    /// The events that wait, in arrival order.
    pub closed spec fn pending(&self) -> Seq<LogEvent> {
        self.events@
    }

    /// Timestamp of the first event that waits.
    pub closed spec fn first_ts(&self) -> Option<i64> {
        self.first_timestamp
    }

    /// Timestamp of the event that was taken in last.
    pub closed spec fn last_ts(&self) -> Option<i64> {
        self.last_timestamp
    }

    /// Weight of the events that wait.
    pub closed spec fn pending_bytes(&self) -> nat {
        self.num_pending_bytes as nat
    }

    /// The settings that the buffer was made with.
    pub closed spec fn configuration(&self) -> Configuration {
        self.conf
    }

    /// Number of events at which the buffer is closed.
    pub open spec fn max_events(&self) -> nat {
        self.configuration().spec_max_events()
    }

    /// The buffer is consistent: its counters describe the events that wait,
    /// the events are in time order, and the buffer is within its limits.
    pub open spec fn wf(&self) -> bool {
        &&& self.pending_bytes() == total_weight(self.pending())
        &&& self.first_ts() == first_timestamp_of(self.pending())
        &&& self.last_ts() == last_timestamp_of(self.pending())
        &&& in_time_order(self.pending())
        &&& within_limits(self.pending(), self.max_events())
    }

    /// An empty buffer.
    pub fn new(conf: Configuration) -> (state: UploadThreadState)
        ensures
            state.wf(),
            state.pending() == Seq::<LogEvent>::empty(),
            state.first_ts() is None,
            state.last_ts() is None,
            state.pending_bytes() == 0,
            state.configuration() == conf,
    {
        UploadThreadState {
            conf,
            events: Vec::new(),
            first_timestamp: None,
            last_timestamp: None,
            num_pending_bytes: 0,
        }
    }

    /// Hands out the events that wait, as one batch, and leaves the buffer
    /// empty. Nothing is handed out where nothing waits.
    pub fn flush(&mut self) -> (flushed: Option<Vec<LogEvent>>)
        requires
            old(self).wf(),
        ensures
            final(self).wf(),
            final(self).configuration() == old(self).configuration(),
            final(self).pending() == Seq::<LogEvent>::empty(),
            final(self).first_ts() is None,
            final(self).last_ts() is None,
            final(self).pending_bytes() == 0,
            flushed is Some <==> old(self).pending().len() > 0,
            flushed matches Some(batch) ==> {
                &&& batch@ == old(self).pending()
                &&& in_time_order(batch@)
                &&& within_limits(batch@, old(self).max_events())
            },
    {
        if self.events.is_empty() {
            assert(self.events@ =~= Seq::<LogEvent>::empty());
            return None;
        }
        let mut events: Vec<LogEvent> = Vec::new();
        std::mem::swap(&mut events, &mut self.events);
        self.first_timestamp = None;
        self.last_timestamp = None;
        self.num_pending_bytes = 0;
        Some(events)
    }

    /// Takes in one event. The buffer is closed first where `closes_buffer`
    /// says so, and what it held is handed out as one batch; the event is
    /// then the only one that waits. Otherwise the event joins those that
    /// wait.
    pub fn push(&mut self, event: LogEvent) -> (flushed: Option<Vec<LogEvent>>)
        requires
            old(self).wf(),
        ensures
            final(self).wf(),
            final(self).configuration() == old(self).configuration(),
            flushed is Some <==> closes_buffer(old(self).pending(), old(self).max_events(), event),
            flushed matches Some(batch) ==> {
                &&& batch@ == old(self).pending()
                &&& in_time_order(batch@)
                &&& within_limits(batch@, old(self).max_events())
            },
            final(self).pending() == if flushed is Some {
                seq![event]
            } else {
                old(self).pending().push(event)
            },
            final(self).pending().last() == event,
            byte_weight(event) <= MAX_BATCH_BYTES ==> final(self).pending_bytes()
                <= MAX_BATCH_BYTES,
            !old(self).configuration().is_debug_mode_enabled ==> final(self).pending().len()
                < final(self).max_events(),
    {
        let mut flushed: Option<Vec<LogEvent>> = None;

        // An event that is older than the last one closes the buffer.
        if let Some(last_timestamp) = self.last_timestamp {
            if event.timestamp < last_timestamp {
                flushed = self.flush();
            }
        }

        // So does an event that would make the batch too heavy.
        let event_num_bytes = get_event_num_bytes(&event);
        if event_num_bytes > MAX_BATCH_BYTES || self.num_pending_bytes > MAX_BATCH_BYTES
            - event_num_bytes {
            let batch = self.flush();
            if flushed.is_none() {
                flushed = batch;
            }
        }

        // And one that would make the buffer reach the largest number of events.
        let max_events = self.conf.max_events();
        if self.events.len() >= max_events - 1 {
            let batch = self.flush();
            if flushed.is_none() {
                flushed = batch;
            }
        }

        proof {
            lemma_total_weight_push(self.events@, event);
            if self.events@.len() > 0 {
                let before = self.events@;
                let after = before.push(event);
                assert forall|i: int, j: int| 0 <= i <= j < after.len() implies after[i].timestamp
                    <= after[j].timestamp by {
                    if j == before.len() {
                        if i < before.len() {
                            assert(before[i].timestamp <= before.last().timestamp);
                        }
                    }
                }
            } else {
                assert(self.events@.push(event) =~= seq![event]);
            }
        }
        if self.events.is_empty() {
            self.first_timestamp = Some(event.timestamp);
        }
        self.last_timestamp = Some(event.timestamp);
        self.num_pending_bytes = self.num_pending_bytes + event_num_bytes;
        self.events.push(event);
        flushed
    }

    /// Whether the first event that waits is more than a second older than
    /// `now_ms`.
    pub fn is_stale(&self, now_ms: i64) -> (stale: bool)
        ensures
            stale == is_stale_at(self.first_ts(), now_ms),
    {
        match self.first_timestamp {
            Some(first_timestamp) => (now_ms as i128) - (first_timestamp as i128) > (
            MAX_AGE_MS as i128),
            None => false,
        }
    }

    /// Closes the buffer if it is stale at `now_ms`, and hands out what it
    /// held; leaves it as it is otherwise.
    pub fn flush_if_stale(&mut self, now_ms: i64) -> (flushed: Option<Vec<LogEvent>>)
        requires
            old(self).wf(),
        ensures
            final(self).wf(),
            final(self).configuration() == old(self).configuration(),
            flushed is Some <==> is_stale_at(old(self).first_ts(), now_ms),
            flushed matches Some(batch) ==> {
                &&& batch@ == old(self).pending()
                &&& in_time_order(batch@)
                &&& within_limits(batch@, old(self).max_events())
            },
            final(self).pending() == if flushed is Some {
                Seq::<LogEvent>::empty()
            } else {
                old(self).pending()
            },
    {
        if self.is_stale(now_ms) {
            self.flush()
        } else {
            None
        }
    }

    /// Closes the buffer if it is stale by the machine's clock, and hands out
    /// what it held; leaves it as it is otherwise.
    pub fn flush_if_stale_now(&mut self) -> (flushed: Option<Vec<LogEvent>>)
        requires
            old(self).wf(),
        ensures
            final(self).wf(),
            final(self).configuration() == old(self).configuration(),
            flushed matches Some(batch) ==> {
                &&& batch@ == old(self).pending()
                &&& batch@.len() > 0
                &&& in_time_order(batch@)
                &&& within_limits(batch@, old(self).max_events())
            },
            final(self).pending() == if flushed is Some {
                Seq::<LogEvent>::empty()
            } else {
                old(self).pending()
            },
    {
        let now_ms = current_time_millis();
        self.flush_if_stale(now_ms)
    }

    /// Number of events that wait.
    pub fn len(&self) -> (count: usize)
        ensures
            count == self.pending().len(),
    {
        self.events.len()
    }

    /// The events that wait, in arrival order.
    pub fn events(&self) -> (events: &Vec<LogEvent>)
        ensures
            events@ == self.pending(),
    {
        &self.events
    }

    /// Timestamp of the first event that waits.
    pub fn first_timestamp(&self) -> (timestamp: Option<i64>)
        ensures
            timestamp == self.first_ts(),
    {
        self.first_timestamp
    }

    /// Timestamp of the event that was taken in last.
    pub fn last_timestamp(&self) -> (timestamp: Option<i64>)
        ensures
            timestamp == self.last_ts(),
    {
        self.last_timestamp
    }

    /// Weight of the events that wait.
    pub fn num_pending_bytes(&self) -> (bytes: u128)
        ensures
            bytes == self.pending_bytes(),
    {
        self.num_pending_bytes
    }

    /// The settings that the buffer was made with.
    pub fn conf(&self) -> (conf: &Configuration)
        ensures
            *conf == self.configuration(),
    {
        &self.conf
    }
}

} // verus!
