//! Reading the events that the `evdev` crate delivers.
//!
//! An `evdev::InputEvent` is opaque to the proofs. What its accessors
//! return is known to them by name only; the functions here copy those
//! values out and check them.

use crate::event::{EventKind, RawEvent, Timestamp};
use vstd::prelude::*;

verus! {

#[verifier::external_type_specification]
#[verifier::external_body]
pub struct ExInputEvent(evdev::InputEvent);

/// The code field of an event: what `evdev::InputEvent::code` returns.
pub uninterp spec fn event_code(event: evdev::InputEvent) -> u16;

/// The value field of an event: what `evdev::InputEvent::value` returns.
pub uninterp spec fn event_value(event: evdev::InputEvent) -> i32;

/// The kind of an event, by the variant of the summary that
/// `evdev::InputEvent::destructure` returns.
pub uninterp spec fn event_kind(event: evdev::InputEvent) -> EventKind;

/// The time fields of an event, seconds and microseconds, as they stand in
/// the raw event that `evdev::InputEvent` wraps.
pub uninterp spec fn event_time(event: evdev::InputEvent) -> (i64, i64);

/// `evdev::InputEvent::code` returns the event's code field, which depends
/// on the event alone.
pub assume_specification[ evdev::InputEvent::code ](event: &evdev::InputEvent) -> (code: u16)
    ensures
        code == event_code(*event),
;

/// `evdev::InputEvent::value` returns the event's value field, which
/// depends on the event alone.
pub assume_specification[ evdev::InputEvent::value ](event: &evdev::InputEvent) -> (value: i32)
    ensures
        value == event_value(*event),
;

/// Calls `evdev::InputEvent::destructure` and tells the variants of the
/// summary apart. The summary's variant depends on the event alone; which
/// variant an event gets is not claimed.
#[verifier::external_body]
fn kind_of(event: &evdev::InputEvent) -> (kind: EventKind)
    ensures
        kind == event_kind(*event),
{
    match event.destructure() {
        evdev::EventSummary::Key(..) => EventKind::Key,
        evdev::EventSummary::Synchronization(..) => EventKind::Sync,
        evdev::EventSummary::Misc(..) => EventKind::Misc,
        _ => EventKind::Other,
    }
}

/// Borrows the raw event through `evdev::InputEvent`'s `AsRef` and copies
/// its two time fields, seconds and microseconds. The fields are read as
/// they stand: no arithmetic is done on them, so no value of them is a
/// fault here. What they hold is not claimed.
#[verifier::external_body]
fn time_fields_of(event: &evdev::InputEvent) -> (parts: (i64, i64))
    ensures
        parts == event_time(*event),
{
    let raw = event.as_ref();
    (raw.time.tv_sec as i64, raw.time.tv_usec as i64)
}

/// The plain event that a device event stands for: its kind, code and
/// value, and its time where the time fields hold a time at or after the
/// Unix epoch that can be counted in microseconds.
pub open spec fn read_event_spec(event: evdev::InputEvent) -> Option<RawEvent> {
    RawEvent::from_fields_spec(
        event_kind(event),
        event_code(event),
        event_value(event),
        Timestamp::time_parts_spec(event_time(event).0, event_time(event).1),
    )
}

/// Copies the plain values out of a device event. Returns `None` where the
/// event's time fields hold no time that can be counted in microseconds
/// since the Unix epoch: a negative second count, a microsecond count
/// outside one second, or a sum beyond 64 bits.
pub fn read_event(event: &evdev::InputEvent) -> (raw: Option<RawEvent>)
    ensures
        raw == read_event_spec(*event),
{
    let (secs, micros) = time_fields_of(event);
    let time = Timestamp::time_parts(secs, micros);
    RawEvent::from_fields(kind_of(event), event.code(), event.value(), time)
}

} // verus!
