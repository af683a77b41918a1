//! Log events and their weight under the PutLogEvents accounting.

use vstd::prelude::*;
use vstd::string::*;

verus! {

/// Bytes that the service counts for each event on top of its message.
pub const EVENT_OVERHEAD_BYTES: u128 = 26;

/// One journal entry on its way to the log stream.
#[derive(Clone, Debug, PartialEq, Eq)]
pub struct LogEvent {
    /// The text of the entry, `"{comm}: {text}"` for entries read from the journal.
    pub message: String,
    /// Milliseconds since the Unix epoch.
    pub timestamp: i64,
}

/// Number of bytes in the UTF-8 encoding of `text`.
pub open spec fn len_utf8(text: Seq<char>) -> nat {
    vstd::utf8::encode_utf8(text).len()
}

/// Weight of a message of `message_bytes` bytes: the service adds a fixed
/// overhead to each event.
pub open spec fn weight_of(message_bytes: nat) -> nat {
    message_bytes + 26
}

/// Weight of an event as the service counts it against the size of a batch.
pub open spec fn byte_weight(event: LogEvent) -> nat {
    weight_of(len_utf8(event.message@))
}

/// Sum of the weights of `events`.
pub open spec fn total_weight(events: Seq<LogEvent>) -> nat
    decreases events.len(),
{
    if events.len() == 0 {
        0
    } else {
        total_weight(events.drop_last()) + byte_weight(events.last())
    }
}

impl LogEvent {
    /// An event with the given message and timestamp.
    pub fn new(message: String, timestamp: i64) -> (event: LogEvent)
        ensures
            event.message == message,
            event.timestamp == timestamp,
    {
        LogEvent { message, timestamp }
    }

    /// A copy of the event.
    pub fn duplicate(&self) -> (copy: LogEvent)
        ensures
            copy == *self,
    {
        LogEvent { message: self.message.clone(), timestamp: self.timestamp }
    }
}

/// Number of bytes that this event takes in a batch, as PutLogEvents counts
/// them: the UTF-8 length of the message plus a fixed overhead per event.
pub fn get_event_num_bytes(event: &LogEvent) -> (bytes: u128)
    ensures
        bytes == byte_weight(*event),
        bytes == len_utf8(event.message@) + 26,
        bytes <= usize::MAX + 26,
{
    let text: &str = event.message.as_str();
    let length: usize = text.as_bytes().len();
    (length as u128) + EVENT_OVERHEAD_BYTES
}

/// The weight of two sequences laid end to end is the sum of their weights.
pub proof fn lemma_total_weight_add(a: Seq<LogEvent>, b: Seq<LogEvent>)
    ensures
        total_weight(a + b) == total_weight(a) + total_weight(b),
    decreases b.len(),
{
    if b.len() == 0 {
        assert(a + b =~= a);
    } else {
        lemma_total_weight_add(a, b.drop_last());
        assert((a + b).drop_last() =~= a + b.drop_last());
        assert((a + b).last() == b.last());
    }
}

/// A piece of a sequence weighs no more than the sequence.
pub proof fn lemma_total_weight_subrange(events: Seq<LogEvent>, from: int, to: int)
    requires
        0 <= from <= to <= events.len(),
    ensures
        total_weight(events.subrange(from, to)) <= total_weight(events),
{
    let head = events.subrange(0, from);
    let piece = events.subrange(from, to);
    let tail = events.subrange(to, events.len() as int);
    assert(events =~= head + piece + tail);
    lemma_total_weight_add(head, piece);
    lemma_total_weight_add(head + piece, tail);
}

/// An event without text weighs exactly the overhead.
pub proof fn lemma_weight_of_empty_message(event: LogEvent)
    requires
        event.message@.len() == 0,
    ensures
        byte_weight(event) == 26,
{
    assert(vstd::utf8::encode_utf8(event.message@).len() == 0);
}

} // verus!
