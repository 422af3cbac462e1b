use double_tap::config::{AppConfig, KeyConfig, KeyboardConfig, Threshold};
use double_tap::engine::{advance, BatchReport, ChatterFilter, KeyState};
use double_tap::event::{Category, ClockFault, EventKind, RawEvent, Reason, Timestamp, Verdict};

const KEY_A: u16 = 30;
const KEY_B: u16 = 48;

fn ms(millis: u64) -> Timestamp {
    Timestamp { micros: millis * 1000 }
}

fn global(threshold_ms: u64) -> AppConfig {
    AppConfig { threshold_ms, key_overrides: vec![], keyboard_overrides: vec![] }
}

fn down(code: u16, millis: u64) -> RawEvent {
    RawEvent { kind: EventKind::Key, code, value: 1, timestamp: ms(millis) }
}

fn up(code: u16, millis: u64) -> RawEvent {
    RawEvent { kind: EventKind::Key, code, value: 0, timestamp: ms(millis) }
}

fn hold(code: u16, millis: u64) -> RawEvent {
    RawEvent { kind: EventKind::Key, code, value: 2, timestamp: ms(millis) }
}

fn released() -> KeyState {
    KeyState { is_pressed: false, last_release_time: None }
}

fn forward(reason: Reason) -> Result<Verdict, ClockFault> {
    Ok(Verdict::Forward(reason))
}

fn suppress(reason: Reason) -> Result<Verdict, ClockFault> {
    Ok(Verdict::Suppress(reason))
}

#[test]
fn fresh_filter_has_every_key_released() {
    let filter = ChatterFilter::new(global(30));
    for code in [0u16, 1, KEY_A, KEY_B, u16::MAX] {
        assert_eq!(filter.key_state(code), released());
    }
    assert_eq!(filter.config(), &global(30));
}

#[test]
fn first_press_is_forwarded_whatever_the_threshold() {
    for threshold in [0u64, 30, u64::MAX] {
        let mut filter = ChatterFilter::new(global(threshold));
        assert_eq!(filter.process(&down(KEY_A, 0), None), forward(Reason::FirstPress));
        assert_eq!(
            filter.key_state(KEY_A),
            KeyState { is_pressed: true, last_release_time: None }
        );
    }
}

#[test]
fn press_is_forwarded_only_strictly_above_the_threshold() {
    for (elapsed, expected) in [
        (0u64, suppress(Reason::TooSoon { elapsed_ms: 0 })),
        (29, suppress(Reason::TooSoon { elapsed_ms: 29 })),
        (30, suppress(Reason::TooSoon { elapsed_ms: 30 })),
        (31, forward(Reason::KeyDown)),
        (1000, forward(Reason::KeyDown)),
    ] {
        let mut filter = ChatterFilter::new(global(30));
        assert_eq!(filter.process(&down(KEY_A, 100), None), forward(Reason::FirstPress));
        assert_eq!(filter.process(&up(KEY_A, 200), None), forward(Reason::KeyUp));
        assert_eq!(filter.process(&down(KEY_A, 200 + elapsed), None), expected);
    }
}

#[test]
fn suppressed_press_leaves_the_state_as_it_was() {
    let mut filter = ChatterFilter::new(global(30));
    let _ = filter.process(&down(KEY_A, 0), None);
    let _ = filter.process(&up(KEY_A, 50), None);
    let before = filter.key_state(KEY_A);
    assert_eq!(before, KeyState { is_pressed: false, last_release_time: Some(ms(50)) });
    assert_eq!(filter.process(&down(KEY_A, 60), None), suppress(Reason::TooSoon { elapsed_ms: 10 }));
    assert_eq!(filter.key_state(KEY_A), before);
}

#[test]
fn forwarded_press_keeps_the_release_time() {
    let mut filter = ChatterFilter::new(global(30));
    let _ = filter.process(&down(KEY_A, 0), None);
    let _ = filter.process(&up(KEY_A, 50), None);
    assert_eq!(filter.process(&down(KEY_A, 100), None), forward(Reason::KeyDown));
    assert_eq!(
        filter.key_state(KEY_A),
        KeyState { is_pressed: true, last_release_time: Some(ms(50)) }
    );
}

#[test]
fn elapsed_time_is_counted_in_whole_milliseconds() {
    let mut filter = ChatterFilter::new(global(30));
    let at = |micros: u64| Timestamp { micros };
    let key = |value: i32, micros: u64| RawEvent {
        kind: EventKind::Key,
        code: KEY_A,
        value,
        timestamp: at(micros),
    };
    let _ = filter.process(&key(1, 0), None);
    let _ = filter.process(&key(0, 900), None);
    assert_eq!(filter.process(&key(1, 31_899), None), suppress(Reason::TooSoon { elapsed_ms: 30 }));
    assert_eq!(filter.process(&key(1, 31_900), None), forward(Reason::KeyDown));
}

#[test]
fn release_without_press_is_suppressed_and_changes_nothing() {
    let mut filter = ChatterFilter::new(global(30));
    assert_eq!(filter.process(&up(KEY_A, 10), None), suppress(Reason::NotPressed));
    assert_eq!(filter.key_state(KEY_A), released());
    let _ = filter.process(&down(KEY_A, 20), None);
    assert_eq!(filter.process(&up(KEY_A, 30), None), forward(Reason::KeyUp));
    let after = filter.key_state(KEY_A);
    assert_eq!(filter.process(&up(KEY_A, 35), None), suppress(Reason::NotPressed));
    assert_eq!(filter.key_state(KEY_A), after);
    assert_eq!(after, KeyState { is_pressed: false, last_release_time: Some(ms(30)) });
}

#[test]
fn hold_and_non_key_events_are_always_forwarded() {
    let mut filter = ChatterFilter::new(global(u64::MAX));
    assert_eq!(filter.process(&hold(KEY_A, 0), None), forward(Reason::Hold));
    let _ = filter.process(&down(KEY_A, 1), None);
    let _ = filter.process(&up(KEY_A, 2), None);
    let state = filter.key_state(KEY_A);
    assert_eq!(filter.process(&hold(KEY_A, 3), None), forward(Reason::Hold));
    for kind in [EventKind::Sync, EventKind::Misc, EventKind::Other] {
        for value in [0, 1, 2] {
            let raw = RawEvent { kind, code: KEY_A, value, timestamp: ms(0) };
            assert_eq!(filter.process(&raw, None), forward(Reason::NonKeyEvent));
        }
    }
    assert_eq!(filter.key_state(KEY_A), state);
}

#[test]
fn synthetic_frames_pass_the_filter_but_are_not_written_out() {
    let mut filter = ChatterFilter::new(global(30));
    for code in [0u16, 4] {
        for value in [0, 1, 2] {
            let raw = RawEvent { kind: EventKind::Key, code, value, timestamp: ms(5) };
            let verdict = filter.process(&raw, None).unwrap();
            assert_eq!(verdict, Verdict::Forward(Reason::Synthetic));
            assert!(!verdict.emits());
            assert_eq!(filter.key_state(code), released());
        }
    }
}

#[test]
fn scenario_chatter_after_release_is_measured_from_the_release() {
    let mut filter = ChatterFilter::new(global(30));
    assert_eq!(filter.process(&down(KEY_A, 0), None), forward(Reason::FirstPress));
    assert_eq!(filter.process(&up(KEY_A, 50), None), forward(Reason::KeyUp));
    assert_eq!(
        filter.key_state(KEY_A),
        KeyState { is_pressed: false, last_release_time: Some(ms(50)) }
    );
    assert_eq!(filter.process(&down(KEY_A, 70), None), suppress(Reason::TooSoon { elapsed_ms: 20 }));
    assert_eq!(filter.process(&down(KEY_A, 90), None), forward(Reason::KeyDown));
    assert_eq!(Reason::KeyDown.message(), "key down");
    assert_eq!(Reason::FirstPress.message(), "first press");
}

#[test]
fn scenario_excluded_key_is_never_filtered() {
    let config = AppConfig {
        threshold_ms: 30,
        key_overrides: vec![KeyConfig { code: KEY_A, threshold_ms: 1000, excluded: true }],
        keyboard_overrides: vec![],
    };
    let mut filter = ChatterFilter::new(config);
    assert_eq!(filter.process(&down(KEY_A, 0), None), forward(Reason::FirstPress));
    let mut now = 10;
    for gap in [0u64, 1, 29, 30, 31, 5000] {
        assert_eq!(filter.process(&up(KEY_A, now), None), forward(Reason::KeyUp));
        now += gap;
        assert_eq!(filter.process(&down(KEY_A, now), None), forward(Reason::KeyDown));
        now += 1;
    }
}

#[test]
fn scenario_zero_threshold_forwards_every_later_press() {
    let config = AppConfig {
        threshold_ms: 30,
        key_overrides: vec![KeyConfig { code: KEY_A, threshold_ms: 0, excluded: false }],
        keyboard_overrides: vec![],
    };
    let mut filter = ChatterFilter::new(config);
    assert_eq!(filter.process(&down(KEY_A, 0), None), forward(Reason::FirstPress));
    let mut now = 10;
    for gap in [1u64, 2, 29, 30, 31, 5000] {
        assert_eq!(filter.process(&up(KEY_A, now), None), forward(Reason::KeyUp));
        now += gap;
        assert_eq!(filter.process(&down(KEY_A, now), None), forward(Reason::KeyDown));
        now += 1;
    }
    assert_eq!(filter.process(&up(KEY_A, now), None), forward(Reason::KeyUp));
    assert_eq!(
        filter.process(&down(KEY_A, now), None),
        suppress(Reason::TooSoon { elapsed_ms: 0 })
    );
}

#[test]
fn scenario_release_of_unseen_key_then_first_press() {
    let mut filter = ChatterFilter::new(global(30));
    let verdict = filter.process(&up(KEY_B, 100), None).unwrap();
    assert_eq!(verdict, Verdict::Suppress(Reason::NotPressed));
    assert_eq!(verdict.reason().message(), "key not pressed beforehand");
    assert_eq!(filter.process(&down(KEY_B, 101), None), forward(Reason::FirstPress));
}

#[test]
fn press_dated_before_the_release_is_a_clock_fault() {
    let mut filter = ChatterFilter::new(global(30));
    let _ = filter.process(&down(KEY_A, 0), None);
    let _ = filter.process(&up(KEY_A, 50), None);
    let before = filter.key_state(KEY_A);
    let fault = ClockFault { code: KEY_A, last_release: ms(50), now: ms(49) };
    assert_eq!(filter.process(&down(KEY_A, 49), None), Err(fault));
    assert_eq!(filter.key_state(KEY_A), before);
    assert_eq!(filter.process(&down(KEY_A, 90), None), forward(Reason::KeyDown));
}

#[test]
fn clock_fault_is_reported_even_for_an_excluded_key() {
    let config = AppConfig {
        threshold_ms: 30,
        key_overrides: vec![KeyConfig { code: KEY_A, threshold_ms: 0, excluded: true }],
        keyboard_overrides: vec![],
    };
    let mut filter = ChatterFilter::new(config);
    let _ = filter.process(&down(KEY_A, 10), None);
    let _ = filter.process(&up(KEY_A, 20), None);
    assert_eq!(
        filter.process(&down(KEY_A, 19), None),
        Err(ClockFault { code: KEY_A, last_release: ms(20), now: ms(19) })
    );
}

#[test]
fn keys_do_not_influence_each_other() {
    let mut filter = ChatterFilter::new(global(30));
    assert_eq!(filter.process(&down(KEY_A, 0), None), forward(Reason::FirstPress));
    assert_eq!(filter.process(&up(KEY_A, 50), None), forward(Reason::KeyUp));
    assert_eq!(filter.process(&down(KEY_B, 60), None), forward(Reason::FirstPress));
    assert_eq!(filter.key_state(KEY_A), KeyState { is_pressed: false, last_release_time: Some(ms(50)) });
    assert_eq!(filter.process(&down(KEY_A, 70), None), suppress(Reason::TooSoon { elapsed_ms: 20 }));
    assert_eq!(filter.key_state(KEY_B), KeyState { is_pressed: true, last_release_time: None });
    assert_eq!(filter.process(&up(KEY_B, 75), None), forward(Reason::KeyUp));
    assert_eq!(filter.process(&up(KEY_A, 80), None), suppress(Reason::NotPressed));
}

#[test]
fn thresholds_are_resolved_per_key_and_keyboard() {
    let config = AppConfig {
        threshold_ms: 30,
        key_overrides: vec![KeyConfig { code: KEY_A, threshold_ms: 100, excluded: false }],
        keyboard_overrides: vec![KeyboardConfig {
            keyboard_name: "worn-kbd".to_string(),
            threshold_ms: 10,
            key_overrides: vec![],
        }],
    };
    let run = |keyboard: Option<&str>, code: u16, gap: u64| {
        let mut filter = ChatterFilter::new(config.clone());
        let _ = filter.process(&down(code, 0), keyboard);
        let _ = filter.process(&up(code, 1), keyboard);
        filter.process(&down(code, 1 + gap), keyboard)
    };
    assert_eq!(run(Some("worn-kbd"), KEY_A, 100), suppress(Reason::TooSoon { elapsed_ms: 100 }));
    assert_eq!(run(Some("worn-kbd"), KEY_A, 101), forward(Reason::KeyDown));
    assert_eq!(run(Some("worn-kbd"), KEY_B, 10), suppress(Reason::TooSoon { elapsed_ms: 10 }));
    assert_eq!(run(Some("worn-kbd"), KEY_B, 11), forward(Reason::KeyDown));
    assert_eq!(run(Some("other-kbd"), KEY_B, 30), suppress(Reason::TooSoon { elapsed_ms: 30 }));
    assert_eq!(run(None, KEY_B, 31), forward(Reason::KeyDown));
}

#[test]
fn evaluate_takes_the_category_as_given() {
    let mut filter = ChatterFilter::new(global(30));
    assert_eq!(
        filter.evaluate(Category::Passthrough(Reason::NonKeyEvent), KEY_A, ms(0), None),
        forward(Reason::NonKeyEvent)
    );
    assert_eq!(filter.evaluate(Category::SyntheticIgnore, KEY_A, ms(0), None), forward(Reason::Synthetic));
    assert_eq!(filter.evaluate(Category::Hold, KEY_A, ms(0), None), forward(Reason::Hold));
    assert_eq!(filter.evaluate(Category::KeyUp, KEY_A, ms(0), None), suppress(Reason::NotPressed));
    assert_eq!(filter.key_state(KEY_A), released());
    assert_eq!(filter.evaluate(Category::KeyDown, KEY_A, ms(0), None), forward(Reason::FirstPress));
    assert_eq!(filter.evaluate(Category::KeyUp, KEY_A, ms(5), None), forward(Reason::KeyUp));
    assert_eq!(
        filter.evaluate(Category::KeyDown, KEY_A, ms(6), None),
        suppress(Reason::TooSoon { elapsed_ms: 1 })
    );
}

#[test]
fn advance_is_the_state_machine_of_one_key() {
    let limit = Threshold { threshold_ms: 30, excluded: false };
    let pressed = KeyState { is_pressed: true, last_release_time: None };
    let after_release = KeyState { is_pressed: false, last_release_time: Some(ms(50)) };
    assert_eq!(
        advance(KEY_A, released(), Category::KeyDown, ms(0), limit),
        (pressed, forward(Reason::FirstPress))
    );
    assert_eq!(
        advance(KEY_A, pressed, Category::KeyUp, ms(50), limit),
        (after_release, forward(Reason::KeyUp))
    );
    assert_eq!(
        advance(KEY_A, after_release, Category::KeyDown, ms(80), limit),
        (after_release, suppress(Reason::TooSoon { elapsed_ms: 30 }))
    );
    assert_eq!(
        advance(KEY_A, after_release, Category::KeyDown, ms(81), limit),
        (KeyState { is_pressed: true, last_release_time: Some(ms(50)) }, forward(Reason::KeyDown))
    );
    assert_eq!(
        advance(KEY_A, after_release, Category::KeyDown, ms(49), limit),
        (after_release, Err(ClockFault { code: KEY_A, last_release: ms(50), now: ms(49) }))
    );
    assert_eq!(
        advance(KEY_A, pressed, Category::KeyDown, ms(1), limit),
        (pressed, forward(Reason::FirstPress))
    );
}

fn sample_events() -> Vec<RawEvent> {
    vec![
        down(KEY_A, 0),
        RawEvent { kind: EventKind::Sync, code: 0, value: 0, timestamp: ms(0) },
        up(KEY_A, 50),
        down(KEY_A, 70),
        up(KEY_A, 71),
        RawEvent { kind: EventKind::Key, code: 4, value: 1, timestamp: ms(72) },
        up(KEY_B, 80),
        down(KEY_A, 90),
        hold(KEY_A, 95),
        down(KEY_B, 96),
        up(KEY_A, 120),
        down(KEY_A, 150),
        down(KEY_A, 151),
    ]
}

#[test]
fn batch_reports_verdicts_and_events_to_write() {
    let events = sample_events();
    let mut filter = ChatterFilter::new(global(30));
    let report = filter.process_batch(&events, None);
    let expected = vec![
        Verdict::Forward(Reason::FirstPress),
        Verdict::Forward(Reason::NonKeyEvent),
        Verdict::Forward(Reason::KeyUp),
        Verdict::Suppress(Reason::TooSoon { elapsed_ms: 20 }),
        Verdict::Suppress(Reason::NotPressed),
        Verdict::Forward(Reason::Synthetic),
        Verdict::Suppress(Reason::NotPressed),
        Verdict::Forward(Reason::KeyDown),
        Verdict::Forward(Reason::Hold),
        Verdict::Forward(Reason::FirstPress),
        Verdict::Forward(Reason::KeyUp),
        Verdict::Suppress(Reason::TooSoon { elapsed_ms: 30 }),
        Verdict::Forward(Reason::KeyDown),
    ];
    assert_eq!(report.verdicts, expected);
    assert_eq!(report.fault, None);
    let written: Vec<RawEvent> = [0usize, 1, 2, 7, 8, 9, 10, 12].iter().map(|&i| events[i]).collect();
    assert_eq!(report.emitted, written);
    assert_eq!(filter.key_state(KEY_A), KeyState { is_pressed: true, last_release_time: Some(ms(120)) });
    assert_eq!(filter.key_state(KEY_B), KeyState { is_pressed: true, last_release_time: None });
}

#[test]
fn batch_equals_processing_one_by_one() {
    let events = sample_events();
    let mut whole = ChatterFilter::new(global(30));
    let report = whole.process_batch(&events, Some("any-kbd"));
    let mut single = ChatterFilter::new(global(30));
    let verdicts: Vec<Verdict> =
        events.iter().map(|raw| single.process(raw, Some("any-kbd")).unwrap()).collect();
    assert_eq!(report.verdicts, verdicts);
    for code in [KEY_A, KEY_B, 0, 4] {
        assert_eq!(whole.key_state(code), single.key_state(code));
    }
}

#[test]
fn batch_stops_at_a_clock_fault() {
    let events = vec![down(KEY_A, 10), up(KEY_A, 50), down(KEY_B, 60), down(KEY_A, 40), up(KEY_B, 70)];
    let mut filter = ChatterFilter::new(global(30));
    let report = filter.process_batch(&events, None);
    assert_eq!(
        report,
        BatchReport {
            verdicts: vec![
                Verdict::Forward(Reason::FirstPress),
                Verdict::Forward(Reason::KeyUp),
                Verdict::Forward(Reason::FirstPress),
            ],
            emitted: vec![events[0], events[1], events[2]],
            fault: Some(ClockFault { code: KEY_A, last_release: ms(50), now: ms(40) }),
        }
    );
    assert_eq!(filter.key_state(KEY_B), KeyState { is_pressed: true, last_release_time: None });
    assert_eq!(filter.key_state(KEY_A), KeyState { is_pressed: false, last_release_time: Some(ms(50)) });
}

#[test]
fn empty_batch_changes_nothing() {
    let mut filter = ChatterFilter::new(global(30));
    let _ = filter.process(&down(KEY_A, 0), None);
    let report = filter.process_batch(&Vec::new(), None);
    assert_eq!(report, BatchReport { verdicts: vec![], emitted: vec![], fault: None });
    assert_eq!(filter.key_state(KEY_A), KeyState { is_pressed: true, last_release_time: None });
}

#[test]
fn replaying_what_was_forwarded_forwards_it_all_again() {
    let events = sample_events();
    let mut first = ChatterFilter::new(global(30));
    let report = first.process_batch(&events, None);
    let forwarded: Vec<RawEvent> = events
        .iter()
        .zip(report.verdicts.iter())
        .filter(|(_, verdict)| verdict.is_forward())
        .map(|(raw, _)| *raw)
        .collect();
    let kept: Vec<Verdict> = report.verdicts.iter().copied().filter(|v| v.is_forward()).collect();
    let mut second = ChatterFilter::new(global(30));
    let again = second.process_batch(&forwarded, None);
    assert_eq!(again.verdicts, kept);
    assert_eq!(again.fault, None);
    assert_eq!(again.emitted, report.emitted);
    for code in [KEY_A, KEY_B, 0, 4] {
        assert_eq!(second.key_state(code), first.key_state(code));
    }
    let mut third = ChatterFilter::new(global(30));
    assert_eq!(third.process_batch(&report.emitted, None).emitted, report.emitted);
}

#[test]
fn same_events_give_same_verdicts() {
    let events = sample_events();
    let mut one = ChatterFilter::new(global(30));
    let mut two = ChatterFilter::new(global(30));
    assert_eq!(one.process_batch(&events, None), two.process_batch(&events, None));
}
