use double_tap::engine::ChatterFilter;
use double_tap::config::AppConfig;
use double_tap::event::{EventKind, RawEvent, Reason, Timestamp, Verdict};
use double_tap::input::read_event;
use evdev::InputEvent;
use std::time::{SystemTime, UNIX_EPOCH};

#[test]
fn key_event_is_copied_field_by_field() {
    let raw = read_event(&InputEvent::new(1, 30, 1));
    assert_eq!(
        raw,
        Some(RawEvent { kind: EventKind::Key, code: 30, value: 1, timestamp: Timestamp { micros: 0 } })
    );
    let raw = read_event(&InputEvent::new(1, 48, 0)).unwrap();
    assert_eq!((raw.kind, raw.code, raw.value), (EventKind::Key, 48, 0));
    let raw = read_event(&InputEvent::new(1, 48, -7)).unwrap();
    assert_eq!((raw.kind, raw.code, raw.value), (EventKind::Key, 48, -7));
}

#[test]
fn event_types_map_to_kinds() {
    let kind = |type_: u16| read_event(&InputEvent::new(type_, 9, 2)).unwrap().kind;
    assert_eq!(kind(0), EventKind::Sync);
    assert_eq!(kind(1), EventKind::Key);
    assert_eq!(kind(4), EventKind::Misc);
    for other in [2u16, 3, 5, 0x11, 0x12, 0x14, 0x15, 0x16, 0x17, 0x1f, 0x100, u16::MAX] {
        assert_eq!(kind(other), EventKind::Other);
    }
}

#[test]
fn event_time_is_counted_from_the_epoch_in_microseconds() {
    let before = SystemTime::now().duration_since(UNIX_EPOCH).unwrap().as_micros() as u64;
    let raw = read_event(&InputEvent::new_now(1, 30, 1)).unwrap();
    let after = SystemTime::now().duration_since(UNIX_EPOCH).unwrap().as_micros() as u64;
    assert!(before <= raw.timestamp.micros + 1);
    assert!(raw.timestamp.micros <= after);
}

#[test]
fn device_events_run_through_the_filter() {
    let mut filter = ChatterFilter::new(AppConfig::default());
    let press = read_event(&InputEvent::new(1, 30, 1)).unwrap();
    let release = read_event(&InputEvent::new(1, 30, 0)).unwrap();
    let frame = read_event(&InputEvent::new(0, 0, 0)).unwrap();
    assert_eq!(filter.process(&press, None), Ok(Verdict::Forward(Reason::FirstPress)));
    assert_eq!(filter.process(&frame, None), Ok(Verdict::Forward(Reason::NonKeyEvent)));
    assert_eq!(filter.process(&release, None), Ok(Verdict::Forward(Reason::KeyUp)));
    assert_eq!(
        filter.process(&press, None),
        Ok(Verdict::Suppress(Reason::TooSoon { elapsed_ms: 0 }))
    );
}

fn timed(secs: i64, micros: i64, code: u16, value: i32) -> InputEvent {
    InputEvent::from(libc::input_event {
        time: libc::timeval { tv_sec: secs, tv_usec: micros },
        type_: 1,
        code,
        value,
    })
}

#[test]
fn event_time_is_seconds_and_microseconds_of_the_raw_event() {
    assert_eq!(
        read_event(&timed(5, 7, 30, 1)),
        Some(RawEvent {
            kind: EventKind::Key,
            code: 30,
            value: 1,
            timestamp: Timestamp { micros: 5_000_007 }
        })
    );
    assert_eq!(read_event(&timed(0, 999_999, 30, 0)).unwrap().timestamp.micros, 999_999);
    assert_eq!(
        read_event(&timed(1_700_000_000, 123_456, 30, 0)).unwrap().timestamp.micros,
        1_700_000_000_123_456
    );
}

#[test]
fn event_before_the_epoch_has_no_countable_time() {
    assert_eq!(read_event(&timed(-1, 0, 30, 1)), None);
    assert_eq!(read_event(&timed(-1, 999_999, 30, 1)), None);
    assert_eq!(read_event(&timed(i64::MIN, 0, 30, 1)), None);
}

#[test]
fn event_with_microseconds_outside_a_second_has_no_countable_time() {
    assert_eq!(read_event(&timed(0, 1_000_000, 30, 1)), None);
    assert_eq!(read_event(&timed(0, -1, 30, 1)), None);
    assert_eq!(read_event(&timed(0, 4_294_968, 30, 1)), None);
    assert_eq!(read_event(&timed(0, i64::MAX, 30, 1)), None);
    assert_eq!(read_event(&timed(i64::MAX, 1_000_000, 30, 1)), None);
}

#[test]
fn event_too_late_to_count_has_no_countable_time() {
    let most = (u64::MAX / 1_000_000) as i64;
    let rest = (u64::MAX % 1_000_000) as i64;
    assert_eq!(read_event(&timed(most, rest, 30, 1)).unwrap().timestamp.micros, u64::MAX);
    assert_eq!(read_event(&timed(most, rest + 1, 30, 1)), None);
    assert_eq!(read_event(&timed(most + 1, 0, 30, 1)), None);
    assert_eq!(read_event(&timed(i64::MAX, 0, 30, 1)), None);
}

#[test]
fn code_and_value_are_not_mixed_up() {
    let raw = read_event(&timed(1, 2, 3, 4)).unwrap();
    assert_eq!((raw.code, raw.value, raw.timestamp.micros), (3, 4, 1_000_002));
}
