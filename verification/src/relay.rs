//! The event relay: it takes what an instance's event stream hands over,
//! one receive at a time, and decides which log line to emit.

use vstd::prelude::*;

use crate::event::{event_message, render_event, suppressed, Event};

verus! {

/// What one receive on an instance's event stream hands over.
#[derive(Debug, PartialEq, Eq)]
pub enum Received {
    /// The next event.
    Event(Event),
    /// The receive failed because the reader had fallen behind and events
    /// were lost before they reached it; the stream can be read on.
    Lagged,
    /// The stream has ended: the instance shut down or the stream was closed.
    Closed,
    /// The receive failed and the stream cannot be read any further.
    Failed,
}

/// What the relay does after one receive.
#[derive(Debug, PartialEq, Eq)]
pub enum RelayAction {
    /// Append this line to the log and go on receiving.
    Emit(String),
    /// Append nothing and go on receiving.
    Skip,
    /// Stop relaying, silently.
    Stop,
}

/// A log line: the time stamp, a colon and a space, the message.
pub open spec fn log_line(timestamp: Seq<char>, message: Seq<char>) -> Seq<char> {
    timestamp + ": "@ + message
}

/// The pattern that a time stamp is written by: year, month and day, a
/// space, hour, minute and second.
pub open spec fn timestamp_pattern() -> Seq<char> {
    "%Y-%m-%d %H:%M:%S"@
}

/// Whether `c` is one of the digits `0` to `9`.
pub open spec fn is_digit(c: char) -> bool {
    '0' as u32 <= c as u32 <= '9' as u32
}

/// Whether `tail` has the form `-MM-DD HH:MM:SS`, each letter a digit.
pub open spec fn is_month_to_second(tail: Seq<char>) -> bool {
    &&& tail.len() == 15
    &&& tail[0] == '-' && is_digit(tail[1]) && is_digit(tail[2])
    &&& tail[3] == '-' && is_digit(tail[4]) && is_digit(tail[5])
    &&& tail[6] == ' ' && is_digit(tail[7]) && is_digit(tail[8])
    &&& tail[9] == ':' && is_digit(tail[10]) && is_digit(tail[11])
    &&& tail[12] == ':' && is_digit(tail[13]) && is_digit(tail[14])
}

/// Whether `text` has the form of a time stamp, `YYYY-MM-DD HH:MM:SS`: a
/// year of four digits, or of a sign and four or more digits, and behind it
/// month, day, hour, minute and second in two digits each.
pub open spec fn is_timestamp(text: Seq<char>) -> bool {
    let year = text.len() - 15;
    &&& text.len() >= 19
    &&& is_digit(text[0]) || ((text[0] == '+' || text[0] == '-') && year >= 5)
    &&& forall|i: int| 1 <= i < year ==> is_digit(#[trigger] text[i])
    &&& is_month_to_second(text.skip(year))
}

/// Whether `line` is the log line of `message` under some time stamp.
pub open spec fn is_stamped(line: Seq<char>, message: Seq<char>) -> bool {
    exists|timestamp: Seq<char>| is_timestamp(timestamp) && line == log_line(timestamp, message)
}

/// The messages that one event adds to the log: its own, or none where the
/// relay passes over it.
pub open spec fn messages_of(e: Event) -> Seq<Seq<char>> {
    if suppressed(e) {
        Seq::empty()
    } else {
        seq![event_message(e)]
    }
}

/// The messages that the relay logs for a stream of events, in the order in
/// which it logs them.
pub open spec fn relay_messages(events: Seq<Event>) -> Seq<Seq<char>>
    decreases events.len(),
{
    if events.len() == 0 {
        Seq::empty()
    } else {
        relay_messages(events.drop_last()) + messages_of(events.last())
    }
}

/// Where in the log the message of the event at index `i` stands, if the
/// relay does not pass over that event: behind the messages of the events
/// before it.
pub open spec fn position(events: Seq<Event>, i: int) -> int {
    relay_messages(events.take(i)).len() as int
}

/// The current local time, written by `pattern`. `std::time::SystemTime::now`
/// reads the clock. chrono's `From<SystemTime>` for `DateTime<Local>` turns
/// the reading into local time, for a clock before 1970 as well as after
/// it; chrono holds the years from -262143 to 262142 and takes the offset
/// from the time zone of the system, or UTC where it cannot read the zone.
/// `DateTime::format` writes the time. Which time comes out depends on the
/// clock and the zone of the machine, so nothing is claimed of it but the
/// form that chrono's formatting gives every outcome: the year zero-padded
/// to four digits, with a sign in front where it lies outside 0 to 9999,
/// and two digits for each of month, day, hour, minute and second.
#[verifier::external_body]
fn local_time_text(pattern: &str) -> (s: String)
    requires
        pattern@ == timestamp_pattern(),
    ensures
        is_timestamp(s@),
{
    let now = chrono::DateTime::<chrono::Local>::from(std::time::SystemTime::now());
    now.format(pattern).to_string()
}

/// Joins a time stamp and a message to a log line.
pub fn format_line(timestamp: &str, message: &str) -> (line: String)
    ensures
        line@ == log_line(timestamp@, message@),
{
    let mut line = String::from_str(timestamp);
    line.append(": ");
    line.append(message);
    line
}

/// The line that logs `message` at the current local time.
pub fn stamp_message(message: &str) -> (line: String)
    ensures
        is_stamped(line@, message@),
{
    let timestamp = local_time_text("%Y-%m-%d %H:%M:%S");
    format_line(timestamp.as_str(), message)
}

/// One step of the relay, for a receive that was made at `timestamp`: an
/// event is logged under that time stamp unless the relay passes over it,
/// a receive that only lagged is passed over, and the end of the stream or
/// a receive after which the stream cannot be read stops the relay.
pub fn relay_step(received: &Received, timestamp: &str) -> (action: RelayAction)
    ensures
        match *received {
            Received::Event(e) => if suppressed(e) {
                action is Skip
            } else {
                action matches RelayAction::Emit(line) && line@ == log_line(
                    timestamp@,
                    event_message(e),
                )
            },
            Received::Lagged => action is Skip,
            Received::Closed => action is Stop,
            Received::Failed => action is Stop,
        },
{
    match received {
        Received::Event(e) => match render_event(e) {
            Some(message) => RelayAction::Emit(format_line(timestamp, message.as_str())),
            None => RelayAction::Skip,
        },
        Received::Lagged => RelayAction::Skip,
        Received::Closed => RelayAction::Stop,
        Received::Failed => RelayAction::Stop,
    }
}

/// One step of the relay. It decides first and reads the clock only for a
/// line that it emits, which it stamps with the current local time.
pub fn handle_event(received: &Received) -> (action: RelayAction)
    ensures
        match *received {
            Received::Event(e) => if suppressed(e) {
                action is Skip
            } else {
                action matches RelayAction::Emit(line) && is_stamped(line@, event_message(e))
            },
            Received::Lagged => action is Skip,
            Received::Closed => action is Stop,
            Received::Failed => action is Stop,
        },
{
    match received {
        Received::Event(e) => match render_event(e) {
            Some(message) => RelayAction::Emit(stamp_message(message.as_str())),
            None => RelayAction::Skip,
        },
        Received::Lagged => RelayAction::Skip,
        Received::Closed => RelayAction::Stop,
        Received::Failed => RelayAction::Stop,
    }
}

/// The events that the relay takes from a stream of receives: every event
/// before the first receive that stops it. A receive that only lagged
/// hands over no event and ends nothing.
pub open spec fn delivered(stream: Seq<Received>) -> Seq<Event>
    decreases stream.len(),
{
    if stream.len() == 0 {
        Seq::empty()
    } else {
        match stream.first() {
            Received::Event(e) => seq![e] + delivered(stream.drop_first()),
            Received::Lagged => delivered(stream.drop_first()),
            Received::Closed => Seq::empty(),
            Received::Failed => Seq::empty(),
        }
    }
}

/// The receives that hand over `events` one by one.
pub open spec fn received_events(events: Seq<Event>) -> Seq<Received> {
    Seq::new(events.len(), |i: int| Received::Event(events[i]))
}

/// Relays a stream of receives until it stops or runs out: the lines that
/// log, at the current local time, the events that the relay takes from
/// it, one for each event that it does not pass over, in the order of the
/// events.
pub fn relay_stream(stream: &Vec<Received>) -> (lines: Vec<String>)
    ensures
        lines@.len() == relay_messages(delivered(stream@)).len(),
        forall|k: int|
            0 <= k < lines@.len() ==> is_stamped(
                #[trigger] lines@[k]@,
                relay_messages(delivered(stream@))[k],
            ),
{
    let mut lines: Vec<String> = Vec::new();
    let mut i: usize = 0;
    let ghost mut taken: Seq<Event> = Seq::empty();
    assert(stream@.skip(0) =~= stream@);
    while i < stream.len()
        invariant
            i <= stream@.len(),
            delivered(stream@) == taken + delivered(stream@.skip(i as int)),
            lines@.len() == relay_messages(taken).len(),
            forall|k: int|
                0 <= k < lines@.len() ==> is_stamped(
                    #[trigger] lines@[k]@,
                    relay_messages(taken)[k],
                ),
        decreases stream@.len() - i,
    {
        let ghost rest = stream@.skip(i as int);
        assert(rest.first() == stream@[i as int]);
        assert(rest.drop_first() =~= stream@.skip(i + 1));
        match handle_event(&stream[i]) {
            RelayAction::Emit(line) => {
                proof {
                    let e = stream@[i as int]->Event_0;
                    let longer = taken.push(e);
                    assert(longer.drop_last() =~= taken);
                    assert(taken + (seq![e] + delivered(stream@.skip(i + 1))) =~= longer
                        + delivered(stream@.skip(i + 1)));
                    taken = longer;
                }
                lines.push(line);
            },
            RelayAction::Skip => {
                proof {
                    if stream@[i as int] is Event {
                        let e = stream@[i as int]->Event_0;
                        let longer = taken.push(e);
                        assert(longer.drop_last() =~= taken);
                        assert(relay_messages(longer) =~= relay_messages(taken));
                        assert(taken + (seq![e] + delivered(stream@.skip(i + 1))) =~= longer
                            + delivered(stream@.skip(i + 1)));
                        taken = longer;
                    }
                }
            },
            RelayAction::Stop => {
                assert(delivered(stream@) =~= taken);
                return lines;
            },
        }
        i += 1;
    }
    assert(delivered(stream@) =~= taken);
    lines
}

/// The relay logs a stream that is followed by another as it logs the
/// first, followed by what it logs for the second.
pub proof fn lemma_relay_messages_concat(a: Seq<Event>, b: Seq<Event>)
    ensures
        relay_messages(a + b) == relay_messages(a) + relay_messages(b),
    decreases b.len(),
{
    if b.len() == 0 {
        assert(a + b =~= a);
        assert(relay_messages(a) + relay_messages(b) =~= relay_messages(a));
    } else {
        lemma_relay_messages_concat(a, b.drop_last());
        assert((a + b).drop_last() =~= a + b.drop_last());
        assert((a + b).last() == b.last());
        assert(relay_messages(a + b) =~= relay_messages(a) + relay_messages(b));
    }
}

/// The message of an event that the relay does not pass over stands in the
/// log, word for word, behind the messages of all events before it.
pub proof fn lemma_relay_logs_event(events: Seq<Event>, i: int)
    requires
        0 <= i < events.len(),
        !suppressed(events[i]),
    ensures
        0 <= position(events, i) < relay_messages(events).len(),
        relay_messages(events)[position(events, i)] == event_message(events[i]),
        position(events, i + 1) == position(events, i) + 1,
{
    let before = events.take(i);
    let upto = events.take(i + 1);
    let after = events.skip(i + 1);
    assert(upto.drop_last() =~= before);
    assert(upto.last() == events[i]);
    assert(upto + after =~= events);
    lemma_relay_messages_concat(upto, after);
}

/// An event that the relay passes over leaves no line in the log.
pub proof fn lemma_relay_passes_over(events: Seq<Event>, i: int)
    requires
        0 <= i < events.len(),
        suppressed(events[i]),
    ensures
        relay_messages(events) == relay_messages(events.remove(i)),
        position(events, i + 1) == position(events, i),
{
    let before = events.take(i);
    let upto = events.take(i + 1);
    let after = events.skip(i + 1);
    assert(upto.drop_last() =~= before);
    assert(upto.last() == events[i]);
    assert(relay_messages(upto) =~= relay_messages(before));
    assert(upto + after =~= events);
    assert(before + after =~= events.remove(i));
    lemma_relay_messages_concat(upto, after);
    lemma_relay_messages_concat(before, after);
}

/// The log never runs backwards: the position in the log grows with the
/// index in the stream.
pub proof fn lemma_position_monotonic(events: Seq<Event>, i: int, j: int)
    requires
        0 <= i <= j <= events.len(),
    ensures
        position(events, i) <= position(events, j) <= relay_messages(events).len(),
{
    let head = events.take(i);
    let middle = events.subrange(i, j);
    let tail = events.skip(j);
    assert(head + middle =~= events.take(j));
    assert(events.take(j) + tail =~= events);
    lemma_relay_messages_concat(head, middle);
    lemma_relay_messages_concat(events.take(j), tail);
}

/// The relay keeps the order of the events: of two events that it does not
/// pass over, the message of the earlier one stands before the message of
/// the later one in the log, each word for word.
pub proof fn lemma_relay_preserves_order(events: Seq<Event>, i: int, j: int)
    requires
        0 <= i < j < events.len(),
        !suppressed(events[i]),
        !suppressed(events[j]),
    ensures
        0 <= position(events, i) < position(events, j) < relay_messages(events).len(),
        relay_messages(events)[position(events, i)] == event_message(events[i]),
        relay_messages(events)[position(events, j)] == event_message(events[j]),
{
    lemma_relay_logs_event(events, i);
    lemma_relay_logs_event(events, j);
    lemma_position_monotonic(events, i + 1, j);
}

/// From receives that hand over events one by one the relay takes every
/// event, and then what it takes from the receives behind them.
pub proof fn lemma_delivered_events_then(events: Seq<Event>, rest: Seq<Received>)
    ensures
        delivered(received_events(events) + rest) == events + delivered(rest),
    decreases events.len(),
{
    let stream = received_events(events) + rest;
    if events.len() == 0 {
        assert(stream =~= rest);
        assert(events + delivered(rest) =~= delivered(rest));
    } else {
        assert(stream.first() == Received::Event(events[0]));
        assert(stream.drop_first() =~= received_events(events.drop_first()) + rest);
        lemma_delivered_events_then(events.drop_first(), rest);
        assert(seq![events[0]] + (events.drop_first() + delivered(rest)) =~= events + delivered(
            rest,
        ));
    }
}

/// A receive that only lagged does not end the relay: the events that the
/// stream hands over after it are logged behind those from before it, in
/// their order, and the relay reads on until the stream is closed.
pub proof fn lemma_relay_goes_on_after_lag(
    before: Seq<Event>,
    after: Seq<Event>,
    unread: Seq<Received>,
)
    ensures
        delivered(
            received_events(before) + seq![Received::Lagged] + received_events(after)
                + seq![Received::Closed] + unread,
        ) == before + after,
        relay_messages(
            delivered(
                received_events(before) + seq![Received::Lagged] + received_events(after)
                    + seq![Received::Closed] + unread,
            ),
        ) == relay_messages(before) + relay_messages(after),
{
    let end = seq![Received::Closed] + unread;
    let late = received_events(after) + end;
    let lagged = seq![Received::Lagged] + late;
    let stream = received_events(before) + seq![Received::Lagged] + received_events(after)
        + seq![Received::Closed] + unread;
    assert(stream =~= received_events(before) + lagged);
    lemma_delivered_events_then(before, lagged);
    assert(lagged.first() == Received::Lagged);
    assert(lagged.drop_first() =~= late);
    lemma_delivered_events_then(after, end);
    assert(end.first() == Received::Closed);
    assert(delivered(end) =~= Seq::<Event>::empty());
    assert(before + (after + Seq::<Event>::empty()) =~= before + after);
    lemma_relay_messages_concat(before, after);
}

/// The end of the stream, or a receive after which it cannot be read, ends
/// the relay: nothing behind it is taken.
pub proof fn lemma_relay_stops(events: Seq<Event>, stop: Received, unread: Seq<Received>)
    requires
        stop is Closed || stop is Failed,
    ensures
        delivered(received_events(events) + seq![stop] + unread) == events,
{
    let end = seq![stop] + unread;
    assert(received_events(events) + seq![stop] + unread =~= received_events(events) + end);
    lemma_delivered_events_then(events, end);
    assert(end.first() == stop);
    assert(delivered(end) =~= Seq::<Event>::empty());
    assert(events + Seq::<Event>::empty() =~= events);
}

} // verus!
