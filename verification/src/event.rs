//! Input events as the filter sees them, their classification, and the
//! verdicts the filter gives.

use crate::text::{decimal_text, push_decimal};
use vstd::prelude::*;
use vstd::string::StringExecFns;

verus! {

/// Code of the synchronization frames that an output device writes by itself.
pub const SYNTHETIC_SYNC_CODE: u16 = 0;

/// Code of the miscellaneous frames that an output device writes by itself.
pub const SYNTHETIC_MISC_CODE: u16 = 4;

/// Microseconds in a millisecond.
pub const MICROS_PER_MILLI: u64 = 1000;

/// Microseconds in a second.
pub const MICROS_PER_SECOND: u64 = 1_000_000;

/// An instant, in microseconds since a fixed origin.
#[derive(Clone, Copy, Debug, PartialEq, Eq, Structural)]
pub struct Timestamp {
    pub micros: u64,
}

impl Timestamp {
    /// The instant `secs` seconds and `micros` microseconds after the
    /// origin, if it can be counted in 64 bits.
    pub open spec fn from_parts_spec(secs: u64, micros: u32) -> Option<Timestamp> {
        if secs * MICROS_PER_SECOND + micros <= u64::MAX {
            Some(Timestamp { micros: (secs * MICROS_PER_SECOND + micros) as u64 })
        } else {
            None
        }
    }

    /// Puts an instant together from whole seconds and the microseconds
    /// beyond them. Returns `None` where the sum does not fit.
    pub fn from_parts(secs: u64, micros: u32) -> (instant: Option<Timestamp>)
        ensures
            instant == Self::from_parts_spec(secs, micros),
    {
        if secs > (u64::MAX - micros as u64) / MICROS_PER_SECOND {
            None
        } else {
            Some(Timestamp { micros: secs * MICROS_PER_SECOND + micros as u64 })
        }
    }

    /// A time given as signed counts of seconds and microseconds, as
    /// unsigned counts: there for a second count that is not negative and a
    /// microsecond count that is less than a second, not there otherwise.
    pub open spec fn time_parts_spec(secs: i64, micros: i64) -> Option<(u64, u32)> {
        if secs >= 0 && 0 <= micros < MICROS_PER_SECOND {
            Some((secs as u64, micros as u32))
        } else {
            None
        }
    }

    /// Checks a time that a device hands over as two signed counts, seconds
    /// since the origin and the microseconds beyond them. Returns the two
    /// counts unsigned, or `None` where the time lies before the origin or
    /// the microsecond count is not within one second.
    pub fn time_parts(secs: i64, micros: i64) -> (parts: Option<(u64, u32)>)
        ensures
            parts == Self::time_parts_spec(secs, micros),
    {
        if secs >= 0 && micros >= 0 && micros < 1_000_000 {
            Some((secs as u64, micros as u32))
        } else {
            None
        }
    }

    /// Whole milliseconds from `earlier` to `self`; nothing if `earlier` is
    /// the later of the two.
    pub open spec fn millis_since_spec(self, earlier: Timestamp) -> Option<u64> {
        if self.micros < earlier.micros {
            None
        } else {
            Some(((self.micros - earlier.micros) / (MICROS_PER_MILLI as int)) as u64)
        }
    }

    /// Whole milliseconds elapsed since `earlier`, rounded down. Returns
    /// `None` when the clock ran backwards between the two instants.
    pub fn millis_since(&self, earlier: Timestamp) -> (elapsed: Option<u64>)
        ensures
            elapsed == self.millis_since_spec(earlier),
    {
        if self.micros < earlier.micros {
            None
        } else {
            Some((self.micros - earlier.micros) / MICROS_PER_MILLI)
        }
    }
}

/// The kind of device event, as far as the filter tells kinds apart.
#[derive(Clone, Copy, Debug, PartialEq, Eq, Structural)]
pub enum EventKind {
    Key,
    Sync,
    Misc,
    Other,
}

/// One event read from the device, as plain values.
#[derive(Clone, Copy, Debug, PartialEq, Eq, Structural)]
pub struct RawEvent {
    pub kind: EventKind,
    pub code: u16,
    /// 0 is a release, 1 a press, anything above 1 a repeat of a held key.
    pub value: i32,
    pub timestamp: Timestamp,
}

impl RawEvent {
    /// The event made of the given fields, with its time given as whole
    /// seconds since the origin and the microseconds beyond them. There is
    /// no event where the time is missing or cannot be counted in 64 bits.
    pub open spec fn from_fields_spec(
        kind: EventKind,
        code: u16,
        value: i32,
        time: Option<(u64, u32)>,
    ) -> Option<RawEvent> {
        match time {
            Some((secs, micros)) => match Timestamp::from_parts_spec(secs, micros) {
                Some(timestamp) => Some(RawEvent { kind, code, value, timestamp }),
                None => None,
            },
            None => None,
        }
    }

    /// Puts an event together from the fields that a device hands over.
    /// Kind, code and value are taken as they are. The time comes as whole
    /// seconds since the origin and the microseconds beyond them; the event
    /// exists exactly if the time is there and fits a `Timestamp`.
    pub fn from_fields(kind: EventKind, code: u16, value: i32, time: Option<(u64, u32)>) -> (raw:
        Option<RawEvent>)
        ensures
            raw == Self::from_fields_spec(kind, code, value, time),
    {
        match time {
            Some((secs, micros)) => match Timestamp::from_parts(secs, micros) {
                Some(timestamp) => Some(RawEvent { kind, code, value, timestamp }),
                None => None,
            },
            None => None,
        }
    }
}

/// Why an event was forwarded or suppressed.
#[derive(Clone, Copy, Debug, PartialEq, Eq, Structural)]
pub enum Reason {
    /// The event is not a key event.
    NonKeyEvent,
    /// The event is a frame that the output device writes by itself.
    Synthetic,
    /// The key is held down and repeats.
    Hold,
    /// A release of a key that was pressed.
    KeyUp,
    /// A press of a key that was never released before.
    FirstPress,
    /// A press long enough after the last release.
    KeyDown,
    /// A release of a key that was not pressed.
    NotPressed,
    /// A press too soon after the last release.
    TooSoon { elapsed_ms: u64 },
}

/// What kind of transition, if any, an event stands for.
#[derive(Clone, Copy, Debug, PartialEq, Eq, Structural)]
pub enum Category {
    /// Not subject to filtering, for the reason given.
    Passthrough(Reason),
    /// A frame that the output device writes by itself; writing it again
    /// would duplicate it.
    SyntheticIgnore,
    Hold,
    KeyUp,
    KeyDown,
}

/// The filter's decision on one event.
#[derive(Clone, Copy, Debug, PartialEq, Eq, Structural)]
pub enum Verdict {
    Forward(Reason),
    Suppress(Reason),
}

/// The clock ran backwards: a press carries a time before the release that
/// was recorded for its key.
#[derive(Clone, Copy, Debug, PartialEq, Eq, Structural)]
pub struct ClockFault {
    pub code: u16,
    pub last_release: Timestamp,
    pub now: Timestamp,
}

impl Reason {
    /// The reason in words.
    pub open spec fn message_spec(&self) -> Seq<char> {
        match *self {
            Reason::NonKeyEvent => "non-key event"@,
            Reason::Synthetic => "synthetic event"@,
            Reason::Hold => "hold"@,
            Reason::KeyUp => "key up"@,
            Reason::FirstPress => "first press"@,
            Reason::KeyDown => "key down"@,
            Reason::NotPressed => "key not pressed beforehand"@,
            Reason::TooSoon { elapsed_ms } => "last key up happened "@ + decimal_text(
                elapsed_ms as nat,
            ) + " ms ago"@,
        }
    }

    /// The reason in words, for logs and messages.
    pub fn message(&self) -> (text: String)
        ensures
            text@ == self.message_spec(),
    {
        match self {
            Reason::NonKeyEvent => String::from_str("non-key event"),
            Reason::Synthetic => String::from_str("synthetic event"),
            Reason::Hold => String::from_str("hold"),
            Reason::KeyUp => String::from_str("key up"),
            Reason::FirstPress => String::from_str("first press"),
            Reason::KeyDown => String::from_str("key down"),
            Reason::NotPressed => String::from_str("key not pressed beforehand"),
            Reason::TooSoon { elapsed_ms } => {
                let mut text = String::from_str("last key up happened ");
                push_decimal(&mut text, *elapsed_ms);
                text.append(" ms ago");
                text
            },
        }
    }
}

impl ClockFault {
    /// The fault in words: the key and the two instants, in microseconds.
    pub open spec fn message_spec(&self) -> Seq<char> {
        "clock ran backwards for key "@ + decimal_text(self.code as nat) + ": last key up at "@
            + decimal_text(self.last_release.micros as nat) + " us, key down at "@ + decimal_text(
            self.now.micros as nat,
        ) + " us"@
    }

    /// The fault in words, with what it takes to find the cause: the key
    /// and the two instants.
    pub fn message(&self) -> (text: String)
        ensures
            text@ == self.message_spec(),
    {
        let mut text = String::from_str("clock ran backwards for key ");
        push_decimal(&mut text, self.code as u64);
        text.append(": last key up at ");
        push_decimal(&mut text, self.last_release.micros);
        text.append(" us, key down at ");
        push_decimal(&mut text, self.now.micros);
        text.append(" us");
        text
    }
}

impl Verdict {
    /// Whether the event passed the filter.
    pub open spec fn is_forward_spec(&self) -> bool {
        self is Forward
    }

    /// Whether the event is to be written to the output device: it passed
    /// the filter and is not one of the frames the device writes by itself.
    pub open spec fn emits_spec(&self) -> bool {
        match *self {
            Verdict::Forward(reason) => reason != Reason::Synthetic,
            Verdict::Suppress(_) => false,
        }
    }

    /// The reason carried by the verdict.
    pub open spec fn reason_spec(&self) -> Reason {
        match *self {
            Verdict::Forward(reason) => reason,
            Verdict::Suppress(reason) => reason,
        }
    }

    #[verifier::when_used_as_spec(is_forward_spec)]
    pub fn is_forward(&self) -> (forward: bool)
        ensures
            forward == self.is_forward_spec(),
    {
        match self {
            Verdict::Forward(_) => true,
            Verdict::Suppress(_) => false,
        }
    }

    #[verifier::when_used_as_spec(emits_spec)]
    pub fn emits(&self) -> (emit: bool)
        ensures
            emit == self.emits_spec(),
    {
        match self {
            Verdict::Forward(Reason::Synthetic) => false,
            Verdict::Forward(_) => true,
            Verdict::Suppress(_) => false,
        }
    }

    #[verifier::when_used_as_spec(reason_spec)]
    pub fn reason(&self) -> (reason: Reason)
        ensures
            reason == self.reason_spec(),
    {
        match self {
            Verdict::Forward(reason) => *reason,
            Verdict::Suppress(reason) => *reason,
        }
    }
}

/// Whether `code` is one of the codes reserved for the frames that the
/// output device writes by itself.
pub open spec fn is_synthetic_code(code: u16) -> bool {
    code == SYNTHETIC_SYNC_CODE || code == SYNTHETIC_MISC_CODE
}

/// The category of an event. The rules apply in this order: an event that
/// is not a key event passes through; a reserved code marks a synthetic
/// frame; a value above 1 is a hold; 0 is a release; anything else is a
/// press.
pub open spec fn classify_spec(raw: RawEvent) -> Category {
    if raw.kind != EventKind::Key {
        Category::Passthrough(Reason::NonKeyEvent)
    } else if is_synthetic_code(raw.code) {
        Category::SyntheticIgnore
    } else if raw.value > 1 {
        Category::Hold
    } else if raw.value == 0 {
        Category::KeyUp
    } else {
        Category::KeyDown
    }
}

/// Classifies a raw event. The result depends on the event alone, not on
/// anything seen before it.
pub fn classify(raw: &RawEvent) -> (category: Category)
    ensures
        category == classify_spec(*raw),
{
    match raw.kind {
        EventKind::Key => {
            if raw.code == SYNTHETIC_SYNC_CODE || raw.code == SYNTHETIC_MISC_CODE {
                Category::SyntheticIgnore
            } else if raw.value > 1 {
                Category::Hold
            } else if raw.value == 0 {
                Category::KeyUp
            } else {
                Category::KeyDown
            }
        },
        _ => Category::Passthrough(Reason::NonKeyEvent),
    }
}

} // verus!
