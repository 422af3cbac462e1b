//! What holds of the filter on every input.

use crate::config::AppConfig;
use crate::engine::{
    forwarded_events, fresh_keys, kept_events, run_spec, step_keys, step_verdict, tracks_all,
    KeyState, Trace,
};
use crate::event::{
    classify_spec, is_synthetic_code, Category, ClockFault, EventKind, RawEvent, Reason, Timestamp,
    Verdict,
};
use vstd::prelude::*;

verus! {

/// Whether a verdict goes with a change of the key's state: it forwards a
/// release or a press.
pub open spec fn moves_state(verdict: Verdict) -> bool {
    verdict == Verdict::Forward(Reason::KeyUp) || verdict == Verdict::Forward(Reason::FirstPress)
        || verdict == Verdict::Forward(Reason::KeyDown)
}

/// The verdicts that forward, in order.
pub open spec fn forwarded_verdicts(verdicts: Seq<Verdict>) -> Seq<Verdict> {
    verdicts.filter(|verdict: Verdict| verdict.is_forward())
}

/// The verdict on a press that comes `elapsed_ms` after the recorded
/// release, under the threshold `threshold_ms`.
pub open spec fn timed_verdict(elapsed_ms: u64, threshold_ms: u64, excluded: bool) -> Verdict {
    if excluded || elapsed_ms > threshold_ms {
        Verdict::Forward(Reason::KeyDown)
    } else {
        Verdict::Suppress(Reason::TooSoon { elapsed_ms })
    }
}

/// A press of a key that has no release on record is forwarded as a first
/// press, whatever the configuration says, and leaves the key pressed.
pub proof fn lemma_first_press_forwarded(
    config: AppConfig,
    keyboard: Option<Seq<char>>,
    keys: Map<u16, KeyState>,
    raw: RawEvent,
)
    requires
        classify_spec(raw) == Category::KeyDown,
        keys[raw.code].last_release_time.is_none(),
    ensures
        step_verdict(config, keyboard, keys, raw) == Ok::<Verdict, ClockFault>(
            Verdict::Forward(Reason::FirstPress),
        ),
        step_keys(config, keyboard, keys, raw)[raw.code] == keys[raw.code].after_press(),
{
}

/// A press that comes `elapsed_ms` milliseconds after the recorded release
/// of its key is forwarded if the key is excluded or `elapsed_ms` is
/// strictly above the threshold, and suppressed otherwise. For a key that
/// is not excluded it is therefore forwarded exactly when `elapsed_ms` is
/// above the threshold. The recorded release time stays as it was either
/// way, and a suppressed press changes nothing at all.
pub proof fn lemma_press_after_release(
    config: AppConfig,
    keyboard: Option<Seq<char>>,
    keys: Map<u16, KeyState>,
    raw: RawEvent,
    last_release: Timestamp,
    elapsed_ms: u64,
)
    requires
        tracks_all(keys),
        classify_spec(raw) == Category::KeyDown,
        keys[raw.code].last_release_time == Some(last_release),
        raw.timestamp.millis_since_spec(last_release) == Some(elapsed_ms),
    ensures
        step_verdict(config, keyboard, keys, raw) == Ok::<Verdict, ClockFault>(
            timed_verdict(
                elapsed_ms,
                config.resolve_spec(raw.code, keyboard).threshold_ms,
                config.resolve_spec(raw.code, keyboard).excluded,
            ),
        ),
        !config.resolve_spec(raw.code, keyboard).excluded ==> (step_verdict(
            config,
            keyboard,
            keys,
            raw,
        ).unwrap().is_forward() <==> elapsed_ms > config.resolve_spec(
            raw.code,
            keyboard,
        ).threshold_ms),
        step_keys(config, keyboard, keys, raw)[raw.code].last_release_time == Some(last_release),
        !step_verdict(config, keyboard, keys, raw).unwrap().is_forward() ==> step_keys(
            config,
            keyboard,
            keys,
            raw,
        ) == keys,
{
    assert(keys.insert(raw.code, keys[raw.code]) =~= keys);
}

/// A press of an excluded key is forwarded whenever its date is not before
/// the recorded release, however short the time between the two.
pub proof fn lemma_excluded_key_not_filtered(
    config: AppConfig,
    keyboard: Option<Seq<char>>,
    keys: Map<u16, KeyState>,
    raw: RawEvent,
)
    requires
        classify_spec(raw) == Category::KeyDown,
        config.resolve_spec(raw.code, keyboard).excluded,
        keys[raw.code].last_release_time.is_some() ==> recorded_release(keys, raw.code).micros
            <= raw.timestamp.micros,
    ensures
        step_verdict(config, keyboard, keys, raw).is_ok(),
        step_verdict(config, keyboard, keys, raw).unwrap().is_forward(),
        step_keys(config, keyboard, keys, raw)[raw.code] == keys[raw.code].after_press(),
{
}

/// A press dated before the recorded release of its key is a clock fault:
/// it gets no verdict, and nothing changes.
pub proof fn lemma_press_before_release(
    config: AppConfig,
    keyboard: Option<Seq<char>>,
    keys: Map<u16, KeyState>,
    raw: RawEvent,
    last_release: Timestamp,
)
    requires
        tracks_all(keys),
        classify_spec(raw) == Category::KeyDown,
        keys[raw.code].last_release_time == Some(last_release),
        raw.timestamp.micros < last_release.micros,
    ensures
        step_verdict(config, keyboard, keys, raw) == Err::<Verdict, ClockFault>(
            ClockFault { code: raw.code, last_release, now: raw.timestamp },
        ),
        step_keys(config, keyboard, keys, raw) == keys,
{
    assert(keys.insert(raw.code, keys[raw.code]) =~= keys);
}

/// A release of a key that is pressed is forwarded, and the key is then
/// released with the event's time on record.
pub proof fn lemma_release_of_pressed_key(
    config: AppConfig,
    keyboard: Option<Seq<char>>,
    keys: Map<u16, KeyState>,
    raw: RawEvent,
)
    requires
        classify_spec(raw) == Category::KeyUp,
        keys[raw.code].is_pressed,
    ensures
        step_verdict(config, keyboard, keys, raw) == Ok::<Verdict, ClockFault>(
            Verdict::Forward(Reason::KeyUp),
        ),
        step_keys(config, keyboard, keys, raw)[raw.code] == KeyState::after_release(
            raw.timestamp,
        ),
{
}

/// A release of a key that is not pressed is suppressed and changes nothing.
pub proof fn lemma_unmatched_release_suppressed(
    config: AppConfig,
    keyboard: Option<Seq<char>>,
    keys: Map<u16, KeyState>,
    raw: RawEvent,
)
    requires
        tracks_all(keys),
        classify_spec(raw) == Category::KeyUp,
        !keys[raw.code].is_pressed,
    ensures
        step_verdict(config, keyboard, keys, raw) == Ok::<Verdict, ClockFault>(
            Verdict::Suppress(Reason::NotPressed),
        ),
        step_keys(config, keyboard, keys, raw) == keys,
{
    assert(keys.insert(raw.code, keys[raw.code]) =~= keys);
}

/// Repeats of a held key and events that are not key events are forwarded
/// whatever the key states and the configuration are, and change nothing.
pub proof fn lemma_hold_and_non_key_forwarded(
    config: AppConfig,
    keyboard: Option<Seq<char>>,
    keys: Map<u16, KeyState>,
    raw: RawEvent,
)
    requires
        tracks_all(keys),
        raw.kind != EventKind::Key || raw.value > 1,
    ensures
        step_verdict(config, keyboard, keys, raw).is_ok(),
        step_verdict(config, keyboard, keys, raw).unwrap().is_forward(),
        raw.kind != EventKind::Key ==> step_verdict(config, keyboard, keys, raw).unwrap()
            == Verdict::Forward(Reason::NonKeyEvent),
        raw.kind == EventKind::Key && !is_synthetic_code(raw.code) ==> step_verdict(
            config,
            keyboard,
            keys,
            raw,
        ).unwrap() == Verdict::Forward(Reason::Hold),
        step_keys(config, keyboard, keys, raw) == keys,
{
    assert(keys.insert(raw.code, keys[raw.code]) =~= keys);
}

/// Keys do not influence each other: the verdict on an event and the next
/// state of its key depend on no other key's state, and the event leaves
/// every other key's state alone.
pub proof fn lemma_keys_independent(
    config: AppConfig,
    keyboard: Option<Seq<char>>,
    a: Map<u16, KeyState>,
    b: Map<u16, KeyState>,
    raw: RawEvent,
)
    requires
        a[raw.code] == b[raw.code],
    ensures
        step_verdict(config, keyboard, a, raw) == step_verdict(config, keyboard, b, raw),
        step_keys(config, keyboard, a, raw)[raw.code] == step_keys(
            config,
            keyboard,
            b,
            raw,
        )[raw.code],
        forall|other: u16|
            other != raw.code ==> #[trigger] step_keys(config, keyboard, a, raw)[other] == a[other],
{
}

/// A step keeps a state for every key.
pub proof fn lemma_step_tracks_all(
    config: AppConfig,
    keyboard: Option<Seq<char>>,
    keys: Map<u16, KeyState>,
    raw: RawEvent,
)
    requires
        tracks_all(keys),
    ensures
        tracks_all(step_keys(config, keyboard, keys, raw)),
{
}

/// An event whose verdict does not move the state leaves all key states as
/// they were.
pub proof fn lemma_unmoved_keys(
    config: AppConfig,
    keyboard: Option<Seq<char>>,
    keys: Map<u16, KeyState>,
    raw: RawEvent,
)
    requires
        tracks_all(keys),
        step_verdict(config, keyboard, keys, raw).is_ok(),
        !moves_state(step_verdict(config, keyboard, keys, raw).unwrap()),
    ensures
        step_keys(config, keyboard, keys, raw) == keys,
{
    assert(keys.insert(raw.code, keys[raw.code]) =~= keys);
}

/// A run gives one verdict per event until a clock fault ends it, and
/// keeps a state for every key.
pub proof fn lemma_run_shape(
    config: AppConfig,
    keyboard: Option<Seq<char>>,
    keys: Map<u16, KeyState>,
    events: Seq<RawEvent>,
)
    requires
        tracks_all(keys),
    ensures
        run_spec(config, keyboard, keys, events).verdicts.len() <= events.len(),
        run_spec(config, keyboard, keys, events).fault.is_none() ==> run_spec(
            config,
            keyboard,
            keys,
            events,
        ).verdicts.len() == events.len(),
        tracks_all(run_spec(config, keyboard, keys, events).keys),
    decreases events.len(),
{
    if events.len() > 0 {
        lemma_run_shape(config, keyboard, keys, events.drop_last());
    }
}

/// `kept_events` reads only the events that have a verdict.
pub proof fn lemma_kept_events_prefix(
    a: Seq<RawEvent>,
    b: Seq<RawEvent>,
    verdicts: Seq<Verdict>,
    keep: spec_fn(Verdict) -> bool,
)
    requires
        verdicts.len() <= a.len(),
        verdicts.len() <= b.len(),
        forall|i: int| 0 <= i < verdicts.len() ==> a[i] == b[i],
    ensures
        kept_events(a, verdicts, keep) == kept_events(b, verdicts, keep),
    decreases verdicts.len(),
{
    if verdicts.len() > 0 {
        lemma_kept_events_prefix(a, b, verdicts.drop_last(), keep);
    }
}

/// Where every verdict is kept, every event that has a verdict is kept.
pub proof fn lemma_kept_events_all(
    events: Seq<RawEvent>,
    verdicts: Seq<Verdict>,
    keep: spec_fn(Verdict) -> bool,
)
    requires
        verdicts.len() <= events.len(),
        forall|i: int| 0 <= i < verdicts.len() ==> keep(#[trigger] verdicts[i]),
    ensures
        kept_events(events, verdicts, keep) == events.take(verdicts.len() as int),
    decreases verdicts.len(),
{
    if verdicts.len() > 0 {
        lemma_kept_events_all(events, verdicts.drop_last(), keep);
        assert(events.take(verdicts.len() - 1).push(events[verdicts.len() - 1]) =~= events.take(
            verdicts.len() as int,
        ));
    } else {
        assert(events.take(0) =~= Seq::<RawEvent>::empty());
    }
}

/// Dropping events changes nothing as long as every event that moved a
/// key's state stays: a replay of the kept events from the same key states
/// meets no clock fault, gives each kept event the verdict it had, and ends
/// in the same key states.
pub proof fn lemma_replay_kept(
    config: AppConfig,
    keyboard: Option<Seq<char>>,
    keys: Map<u16, KeyState>,
    events: Seq<RawEvent>,
    keep: spec_fn(Verdict) -> bool,
)
    requires
        tracks_all(keys),
        forall|verdict: Verdict| moves_state(verdict) ==> #[trigger] keep(verdict),
    ensures
        replay_agrees(
            run_spec(config, keyboard, keys, events),
            run_spec(
                config,
                keyboard,
                keys,
                kept_events(events, run_spec(config, keyboard, keys, events).verdicts, keep),
            ),
            keep,
        ),
    decreases events.len(),
{
    let first = run_spec(config, keyboard, keys, events);
    if events.len() == 0 {
        assert(first.verdicts.filter(keep) =~= Seq::<Verdict>::empty()) by {
            first.verdicts.lemma_filter_len(keep);
        }
    } else {
        let init = events.drop_last();
        let last = events.last();
        let first_init = run_spec(config, keyboard, keys, init);
        let kept_init = kept_events(init, first_init.verdicts, keep);
        lemma_replay_kept(config, keyboard, keys, init, keep);
        lemma_run_shape(config, keyboard, keys, init);
        lemma_kept_events_prefix(init, events, first_init.verdicts, keep);
        if first_init.fault is None {
            match step_verdict(config, keyboard, first_init.keys, last) {
                Ok(verdict) => {
                    assert(first.verdicts.drop_last() =~= first_init.verdicts);
                    first_init.verdicts.lemma_filter_push(verdict, keep);
                    if keep(verdict) {
                        let replayed = kept_events(events, first.verdicts, keep);
                        assert(replayed == kept_init.push(last));
                        assert(replayed.drop_last() =~= kept_init);
                    } else {
                        lemma_unmoved_keys(config, keyboard, first_init.keys, last);
                    }
                },
                Err(_) => {},
            }
        }
    }
}

/// What a replay has in common with the run it replays.
pub open spec fn replay_agrees(first: Trace, again: Trace, keep: spec_fn(Verdict) -> bool) -> bool {
    &&& again.fault is None
    &&& again.keys == first.keys
    &&& again.verdicts == first.verdicts.filter(keep)
}

/// Filtering is idempotent. Feed a fresh filter any events, then feed what
/// it forwarded to another fresh filter: the second filter meets no clock
/// fault, forwards every event with the verdict the first one gave it, ends
/// in the same key states, and so hands its whole input on unchanged.
pub proof fn lemma_replay_idempotent(
    config: AppConfig,
    keyboard: Option<Seq<char>>,
    events: Seq<RawEvent>,
)
    ensures
        run_spec(
            config,
            keyboard,
            fresh_keys(),
            replayed(config, keyboard, events),
        ).fault.is_none(),
        run_spec(config, keyboard, fresh_keys(), replayed(config, keyboard, events)).keys
            == run_spec(config, keyboard, fresh_keys(), events).keys,
        run_spec(config, keyboard, fresh_keys(), replayed(config, keyboard, events)).verdicts
            == forwarded_verdicts(run_spec(config, keyboard, fresh_keys(), events).verdicts),
        forwarded_events(
            replayed(config, keyboard, events),
            run_spec(config, keyboard, fresh_keys(), replayed(config, keyboard, events)).verdicts,
        ) == replayed(config, keyboard, events),
{
    let keep = |verdict: Verdict| verdict.is_forward();
    let first = run_spec(config, keyboard, fresh_keys(), events);
    let input = replayed(config, keyboard, events);
    let again = run_spec(config, keyboard, fresh_keys(), input);
    lemma_replay_kept(config, keyboard, fresh_keys(), events, keep);
    lemma_run_shape(config, keyboard, fresh_keys(), input);
    assert forall|i: int| 0 <= i < again.verdicts.len() implies keep(
        #[trigger] again.verdicts[i],
    ) by {
        first.verdicts.lemma_filter_pred(keep, i);
    }
    lemma_kept_events_all(input, again.verdicts, keep);
    assert(input.take(input.len() as int) =~= input);
}

/// The events that a fresh filter forwards out of `events`.
pub open spec fn replayed(
    config: AppConfig,
    keyboard: Option<Seq<char>>,
    events: Seq<RawEvent>,
) -> Seq<RawEvent> {
    forwarded_events(events, run_spec(config, keyboard, fresh_keys(), events).verdicts)
}

/// Whether no event is dated before an event that precedes it.
pub open spec fn clock_steady(events: Seq<RawEvent>) -> bool {
    forall|i: int, j: int|
        #![trigger events[i], events[j]]
        0 <= i <= j < events.len() ==> events[i].timestamp.micros <= events[j].timestamp.micros
}

/// The release on record for `code`; meaningful only if there is one.
pub open spec fn recorded_release(keys: Map<u16, KeyState>, code: u16) -> Timestamp {
    keys[code].last_release_time.unwrap()
}

/// Whether no key has a release on record that is dated after `now`.
pub open spec fn releases_by(keys: Map<u16, KeyState>, now: Timestamp) -> bool {
    forall|code: u16|
        (#[trigger] keys[code]).last_release_time.is_some() ==> recorded_release(keys, code).micros
            <= now.micros
}

/// With a clock that never runs backwards there is no clock fault: every
/// event gets a verdict, and no release is ever on record with a date
/// after the latest event.
pub proof fn lemma_steady_clock_never_faults(
    config: AppConfig,
    keyboard: Option<Seq<char>>,
    keys: Map<u16, KeyState>,
    events: Seq<RawEvent>,
)
    requires
        clock_steady(events),
        events.len() > 0 ==> releases_by(keys, events[0].timestamp),
    ensures
        run_spec(config, keyboard, keys, events).fault.is_none(),
        run_spec(config, keyboard, keys, events).verdicts.len() == events.len(),
        events.len() > 0 ==> releases_by(
            run_spec(config, keyboard, keys, events).keys,
            events.last().timestamp,
        ),
    decreases events.len(),
{
    if events.len() > 0 {
        let init = events.drop_last();
        let last = events.last();
        assert(clock_steady(init)) by {
            assert forall|i: int, j: int| 0 <= i <= j < init.len() implies init[i].timestamp.micros
                <= init[j].timestamp.micros by {
                assert(events[i].timestamp.micros <= events[j].timestamp.micros);
            }
        }
        if init.len() > 0 {
            assert(init[0] == events[0]);
        }
        lemma_steady_clock_never_faults(config, keyboard, keys, init);
        let before = run_spec(config, keyboard, keys, init).keys;
        assert(releases_by(before, last.timestamp)) by {
            if init.len() > 0 {
                let previous = init.len() - 1;
                assert(events[previous].timestamp.micros <= events[previous + 1].timestamp.micros);
                assert(init.last() == events[init.len() - 1]);
            }
        }
        assert(before[last.code].last_release_time.is_some() ==> recorded_release(
            before,
            last.code,
        ).micros <= last.timestamp.micros);
        let after = run_spec(config, keyboard, keys, events).keys;
        assert(after == step_keys(config, keyboard, before, last));
        assert forall|code: u16|
            (#[trigger] after[code]).last_release_time.is_some() implies recorded_release(
                after,
                code,
            ).micros <= last.timestamp.micros by {
            if code != last.code {
                assert(after[code] == before[code]);
            }
        }
    }
}

/// The state of key `code` as the verdicts alone tell it: the key is
/// pressed exactly if the last forwarded transition of the key was a press,
/// and the release on record is the last forwarded release of the key.
pub open spec fn state_from_output(
    events: Seq<RawEvent>,
    verdicts: Seq<Verdict>,
    code: u16,
) -> KeyState
    decreases verdicts.len(),
{
    if verdicts.len() == 0 {
        KeyState::released()
    } else {
        let before = state_from_output(events, verdicts.drop_last(), code);
        let raw = events[verdicts.len() - 1];
        if raw.code != code {
            before
        } else if verdicts.last() == Verdict::Forward(Reason::KeyUp) {
            KeyState::after_release(raw.timestamp)
        } else if verdicts.last() == Verdict::Forward(Reason::FirstPress) || verdicts.last()
            == Verdict::Forward(Reason::KeyDown) {
            before.after_press()
        } else {
            before
        }
    }
}

/// `state_from_output` reads only the events that have a verdict.
pub proof fn lemma_state_from_output_prefix(
    a: Seq<RawEvent>,
    b: Seq<RawEvent>,
    verdicts: Seq<Verdict>,
    code: u16,
)
    requires
        verdicts.len() <= a.len(),
        verdicts.len() <= b.len(),
        forall|i: int| 0 <= i < verdicts.len() ==> a[i] == b[i],
    ensures
        state_from_output(a, verdicts, code) == state_from_output(b, verdicts, code),
    decreases verdicts.len(),
{
    if verdicts.len() > 0 {
        lemma_state_from_output_prefix(a, b, verdicts.drop_last(), code);
    }
}

/// What a filter that started fresh remembers about a key is what it has
/// forwarded for that key: a key is pressed exactly if its last forwarded
/// transition was a press, and a release time is on record only from a
/// forwarded release, the last one. Suppressed events leave no trace.
pub proof fn lemma_state_follows_output(
    config: AppConfig,
    keyboard: Option<Seq<char>>,
    events: Seq<RawEvent>,
    code: u16,
)
    ensures
        run_spec(config, keyboard, fresh_keys(), events).keys[code] == state_from_output(
            events,
            run_spec(config, keyboard, fresh_keys(), events).verdicts,
            code,
        ),
    decreases events.len(),
{
    if events.len() > 0 {
        let init = events.drop_last();
        let first_init = run_spec(config, keyboard, fresh_keys(), init);
        let first = run_spec(config, keyboard, fresh_keys(), events);
        lemma_state_follows_output(config, keyboard, init, code);
        lemma_run_shape(config, keyboard, fresh_keys(), init);
        lemma_state_from_output_prefix(init, events, first_init.verdicts, code);
        if first_init.fault is None {
            match step_verdict(config, keyboard, first_init.keys, events.last()) {
                Ok(verdict) => {
                    assert(first.verdicts.drop_last() =~= first_init.verdicts);
                },
                Err(_) => {},
            }
        }
    }
}

} // verus!
