//! Turning a journal entry into a log event.

use vstd::prelude::*;
use vstd::string::*;
use crate::clock::current_time_millis;
use crate::event::LogEvent;

verus! {

/// One entry of the journal: its fields, each with its name and its value.
#[derive(Clone, Debug, PartialEq, Eq)]
pub struct JournalRecord {
    pub fields: Vec<(String, String)>,
}

/// The value of the first of `fields` that is named `name`.
pub open spec fn field_value(fields: Seq<(String, String)>, name: Seq<char>) -> Option<String>
    decreases fields.len(),
{
    if fields.len() == 0 {
        None
    } else if fields[0].0@ == name {
        Some(fields[0].1)
    } else {
        field_value(fields.drop_first(), name)
    }
}

/// A field that is not among the first `at` is found from `at` on.
proof fn lemma_field_value_skip(fields: Seq<(String, String)>, name: Seq<char>, at: int)
    requires
        0 <= at <= fields.len(),
        forall|i: int| 0 <= i < at ==> fields[i].0@ != name,
    ensures
        field_value(fields, name) == field_value(fields.skip(at), name),
    decreases at,
{
    if at == 0 {
        assert(fields.skip(0) =~= fields);
    } else {
        lemma_field_value_skip(fields.drop_first(), name, at - 1);
        assert(fields.drop_first().skip(at - 1) =~= fields.skip(at));
    }
}

/// Whether `c` is a decimal digit.
pub open spec fn is_digit(c: char) -> bool {
    '0' <= c && c <= '9'
}

/// Whether `text` holds decimal digits only.
pub open spec fn all_digits(text: Seq<char>) -> bool {
    forall|i: int| 0 <= i < text.len() ==> is_digit(#[trigger] text[i])
}

/// The number that the decimal digits `digits` write.
pub open spec fn decimal_value(digits: Seq<char>) -> int
    decreases digits.len(),
{
    if digits.len() == 0 {
        0
    } else {
        10 * decimal_value(digits.drop_last()) + (digits.last() as u32 - '0' as u32)
    }
}

/// Whether `text` starts with a sign.
pub open spec fn has_sign(text: Seq<char>) -> bool {
    text.len() > 0 && (text[0] == '+' || text[0] == '-')
}

/// What follows the sign of `text`, or all of it where it has no sign.
pub open spec fn digits_of(text: Seq<char>) -> Seq<char> {
    if has_sign(text) {
        text.drop_first()
    } else {
        text
    }
}

/// The number that `text` writes: decimal digits behind an optional sign.
pub open spec fn signed_value(text: Seq<char>) -> int {
    if text.len() > 0 && text[0] == '-' {
        -decimal_value(digits_of(text))
    } else {
        decimal_value(digits_of(text))
    }
}

/// The 64-bit number that `text` writes in decimal: an optional sign, then
/// one digit or more and nothing else. There is none where `text` is of
/// another form or the number does not fit.
pub open spec fn parsed_i64(text: Seq<char>) -> Option<i64> {
    if digits_of(text).len() > 0 && all_digits(digits_of(text)) && i64::MIN <= signed_value(text)
        <= i64::MAX {
        Some(signed_value(text) as i64)
    } else {
        None
    }
}

/// The quotient of `micros` by a thousand, rounded towards zero.
pub open spec fn micros_to_millis(micros: i64) -> int {
    if micros >= 0 {
        micros / 1000
    } else {
        -((-micros) / 1000)
    }
}

/// The name of the field that holds an entry's text.
pub open spec fn message_field() -> Seq<char> {
    "MESSAGE"@
}

/// The name of the field that holds the command that wrote an entry.
pub open spec fn comm_field() -> Seq<char> {
    "_COMM"@
}

/// The name of the field that holds the time, in microseconds, at which an
/// entry was written.
pub open spec fn timestamp_field() -> Seq<char> {
    "_SOURCE_REALTIME_TIMESTAMP"@
}

/// The command that wrote the entry, and a fixed word where the entry does
/// not say.
pub open spec fn comm_of(fields: Seq<(String, String)>) -> Seq<char> {
    match field_value(fields, comm_field()) {
        Some(comm) => comm@,
        None => "unknown"@,
    }
}

/// The time of the entry in milliseconds, where the entry gives it as a
/// number of microseconds.
pub open spec fn timestamp_millis_of(fields: Seq<(String, String)>) -> Option<int> {
    match field_value(fields, timestamp_field()) {
        Some(text) => match parsed_i64(text@) {
            Some(micros) => Some(micros_to_millis(micros)),
            None => None,
        },
        None => None,
    }
}

/// The text of the event that is made of an entry with text `message`.
pub open spec fn event_message(fields: Seq<(String, String)>, message: Seq<char>) -> Seq<char> {
    comm_of(fields) + ": "@ + message
}

/// What stands for a field that an entry lacks, where an entry is shown.
pub open spec fn shown(value: Option<String>) -> Seq<char> {
    match value {
        Some(text) => text@,
        None => "nil"@,
    }
}

/// An entry in short, for reports.
pub open spec fn short_form(fields: Seq<(String, String)>) -> Seq<char> {
    "msg: "@ + shown(field_value(fields, message_field())) + "\tts: "@ + shown(
        field_value(fields, timestamp_field()),
    ) + "\tcomm: "@ + shown(field_value(fields, comm_field()))
}

impl JournalRecord {
    /// The value of the first field named `name`.
    pub fn get(&self, name: &str) -> (value: Option<&String>)
        ensures
            match value {
                Some(text) => field_value(self.fields@, name@) == Some(*text),
                None => field_value(self.fields@, name@) is None,
            },
    {
        let wanted = String::from_str(name);
        let mut at: usize = 0;
        while at < self.fields.len()
            invariant
                at <= self.fields.len(),
                wanted@ == name@,
                forall|i: int| 0 <= i < at ==> self.fields@[i].0@ != name@,
            decreases self.fields.len() - at,
        {
            if self.fields[at].0 == wanted {
                proof {
                    lemma_field_value_skip(self.fields@, name@, at as int);
                    assert(self.fields@.skip(at as int)[0] == self.fields@[at as int]);
                }
                return Some(&self.fields[at].1);
            }
            at += 1;
        }
        proof {
            lemma_field_value_skip(self.fields@, name@, at as int);
        }
        None
    }
}

/// Reads a 64-bit number written in decimal, with an optional sign.
pub fn parse_i64(text: &str) -> (value: Option<i64>)
    ensures
        value == parsed_i64(text@),
{
    if !text.is_ascii() {
        proof {
            let at = choose|i: int|
                0 <= i < text@.len() && !('\0' <= #[trigger] text@[i] <= '\u{7f}');
            if has_sign(text@) {
                assert(at > 0);
                assert(digits_of(text@)[at - 1] == text@[at]);
            } else {
                assert(digits_of(text@)[at] == text@[at]);
            }
        }
        return None;
    }
    let bytes = text.as_bytes();
    let length = bytes.len();
    proof {
        is_ascii_spec_bytes(text);
        assert(bytes@.len() == text@.len());
        assert forall|i: int| 0 <= i < length implies bytes@[i] == #[trigger] text@[i] as u8
            && '\0' <= text@[i] <= '\u{7f}' by {}
    }
    if length == 0 {
        return None;
    }
    let negative = bytes[0] == 45u8;
    let start: usize = if bytes[0] == 45u8 || bytes[0] == 43u8 {
        1
    } else {
        0
    };
    let ghost digits = digits_of(text@);
    proof {
        assert(has_sign(text@) <==> start == 1);
        assert(digits =~= text@.subrange(start as int, length as int));
    }
    if start == length {
        return None;
    }
    let mut magnitude: i128 = 0;
    let mut too_large = false;
    let mut at: usize = start;
    while at < length
        invariant
            start <= at <= length,
            length == text@.len(),
            bytes@.len() == length,
            forall|i: int|
                0 <= i < length ==> bytes@[i] == #[trigger] text@[i] as u8 && '\0' <= text@[i]
                    <= '\u{7f}',
            digits == digits_of(text@),
            digits == text@.subrange(start as int, length as int),
            all_digits(text@.subrange(start as int, at as int)),
            !too_large ==> magnitude == decimal_value(text@.subrange(start as int, at as int)),
            too_large ==> decimal_value(text@.subrange(start as int, at as int))
                > 0x8000_0000_0000_0000,
            0 <= magnitude <= 0x8000_0000_0000_0000,
        decreases length - at,
    {
        let byte = bytes[at];
        if byte < 48u8 || byte > 57u8 {
            proof {
                assert(digits[at - start] == text@[at as int]);
                assert(!is_digit(text@[at as int]));
            }
            return None;
        }
        proof {
            let before = text@.subrange(start as int, at as int);
            let after = text@.subrange(start as int, at + 1);
            assert(after.drop_last() =~= before);
            assert(after.last() == text@[at as int]);
            assert(is_digit(text@[at as int]));
            assert(text@[at as int] as u32 - '0' as u32 == byte - 48);
            assert forall|i: int| 0 <= i < after.len() implies is_digit(#[trigger] after[i]) by {
                if i < before.len() {
                    assert(after[i] == before[i]);
                }
            }
        }
        if !too_large {
            magnitude = magnitude * 10 + ((byte - 48u8) as i128);
            if magnitude > 0x8000_0000_0000_0000 {
                too_large = true;
                magnitude = 0;
            }
        }
        at += 1;
    }
    proof {
        assert(text@.subrange(start as int, at as int) == digits);
    }
    if too_large {
        None
    } else if negative {
        Some((-magnitude) as i64)
    } else if magnitude == 0x8000_0000_0000_0000 {
        None
    } else {
        Some(magnitude as i64)
    }
}

/// The number of milliseconds in `micros` microseconds, rounded towards
/// zero.
pub fn millis_of_micros(micros: i64) -> (millis: i64)
    ensures
        millis == micros_to_millis(micros),
{
    micros / 1000
}

/// The command that wrote the entry, or `unknown` where the entry does not
/// name it.
pub fn get_record_comm(record: &JournalRecord) -> (comm: String)
    ensures
        comm@ == comm_of(record.fields@),
{
    if let Some(comm) = record.get("_COMM") {
        comm.clone()
    } else {
        String::from_str("unknown")
    }
}

/// The time of the entry in milliseconds since the Unix epoch: a thousandth
/// of the entry's own time in microseconds, or `now_ms` where the entry gives
/// no time that can be read.
pub fn record_timestamp_millis_or(record: &JournalRecord, now_ms: i64) -> (millis: i64)
    ensures
        millis == match timestamp_millis_of(record.fields@) {
            Some(time) => time,
            None => now_ms as int,
        },
{
    if let Some(timestamp) = record.get("_SOURCE_REALTIME_TIMESTAMP") {
        if let Some(micros) = parse_i64(timestamp.as_str()) {
            return millis_of_micros(micros);
        }
    }
    now_ms
}

/// The time of the entry in milliseconds since the Unix epoch: a thousandth
/// of the entry's own time in microseconds, or the time of the machine's
/// clock where the entry gives no time that can be read.
pub fn get_record_timestamp_millis(record: &JournalRecord) -> (millis: i64)
    ensures
        timestamp_millis_of(record.fields@) matches Some(time) ==> millis == time,
{
    if let Some(timestamp) = record.get("_SOURCE_REALTIME_TIMESTAMP") {
        if let Some(micros) = parse_i64(timestamp.as_str()) {
            return millis_of_micros(micros);
        }
    }
    current_time_millis()
}

/// The text of the event for an entry: the command, a colon and a blank, and
/// the entry's own text.
fn compose_message(record: &JournalRecord, message: &String) -> (text: String)
    ensures
        text@ == event_message(record.fields@, message@),
{
    let mut text = get_record_comm(record);
    text.append(": ");
    text.append(message.as_str());
    text
}

/// The log event for a journal entry, stamped `now_ms` where the entry gives
/// no time of its own. An entry without text makes no event.
pub fn parse_record_at(record: &JournalRecord, now_ms: i64) -> (event: Option<LogEvent>)
    ensures
        match field_value(record.fields@, message_field()) {
            None => event is None,
            Some(message) => event matches Some(made) && made.message@ == event_message(
                record.fields@,
                message@,
            ) && made.timestamp == match timestamp_millis_of(record.fields@) {
                Some(time) => time,
                None => now_ms as int,
            },
        },
{
    if let Some(message) = record.get("MESSAGE") {
        Some(
            LogEvent {
                message: compose_message(record, message),
                timestamp: record_timestamp_millis_or(record, now_ms),
            },
        )
    } else {
        None
    }
}

/// The log event for a journal entry, stamped by the machine's clock where
/// the entry gives no time of its own. An entry without text makes no event.
pub fn parse_record(record: JournalRecord) -> (event: Option<LogEvent>)
    ensures
        match field_value(record.fields@, message_field()) {
            None => event is None,
            Some(message) => event matches Some(made) && made.message@ == event_message(
                record.fields@,
                message@,
            ) && (timestamp_millis_of(record.fields@) matches Some(time) ==> made.timestamp
                == time),
        },
{
    if let Some(message) = record.get("MESSAGE") {
        Some(
            LogEvent {
                message: compose_message(&record, message),
                timestamp: get_record_timestamp_millis(&record),
            },
        )
    } else {
        None
    }
}

/// The entry in short, for reports: its text, its time and its command, with
/// `nil` for what it lacks.
pub fn short_record(record: &JournalRecord) -> (text: String)
    ensures
        text@ == short_form(record.fields@),
{
    let mut text = String::from_str("msg: ");
    match record.get("MESSAGE") {
        Some(value) => text.append(value.as_str()),
        None => text.append("nil"),
    }
    text.append("\tts: ");
    match record.get("_SOURCE_REALTIME_TIMESTAMP") {
        Some(value) => text.append(value.as_str()),
        None => text.append("nil"),
    }
    text.append("\tcomm: ");
    match record.get("_COMM") {
        Some(value) => text.append(value.as_str()),
        None => text.append("nil"),
    }
    text
}

} // verus!
