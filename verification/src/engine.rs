//! The chatter filter: one small state machine per key.
//!
//! Every key is either released or pressed, and remembers when its last
//! forwarded release happened. A press that follows a release too closely
//! is chatter and is dropped; a release of a key that is not pressed is
//! chatter as well. Keys never influence each other.

use crate::config::{name_view, AppConfig, Threshold};
use crate::event::{
    classify, classify_spec, Category, ClockFault, RawEvent, Reason, Timestamp, Verdict,
};
use std::collections::HashMap;
use vstd::prelude::*;

verus! {

/// What the filter remembers about one key.
#[derive(Clone, Copy, Debug, PartialEq, Eq)]
pub struct KeyState {
    /// Whether the last forwarded transition of the key was a press.
    pub is_pressed: bool,
    /// When the last forwarded release happened, if there was one.
    pub last_release_time: Option<Timestamp>,
}

impl KeyState {
    /// The state of a key that was never seen: released, with no release on record.
    pub open spec fn released() -> KeyState {
        KeyState { is_pressed: false, last_release_time: None }
    }

    /// This state after a forwarded press.
    pub open spec fn after_press(self) -> KeyState {
        KeyState { is_pressed: true, last_release_time: self.last_release_time }
    }

    /// The state after a forwarded release at `now`.
    pub open spec fn after_release(now: Timestamp) -> KeyState {
        KeyState { is_pressed: false, last_release_time: Some(now) }
    }
}

/// The verdict on a press at `now` of a key last released at `last_release`.
pub open spec fn press_outcome(
    code: u16,
    last_release: Timestamp,
    now: Timestamp,
    limit: Threshold,
) -> Result<Verdict, ClockFault> {
    match now.millis_since_spec(last_release) {
        None => Err(ClockFault { code, last_release, now }),
        Some(elapsed_ms) => if limit.excluded || elapsed_ms > limit.threshold_ms {
            Ok(Verdict::Forward(Reason::KeyDown))
        } else {
            Ok(Verdict::Suppress(Reason::TooSoon { elapsed_ms }))
        },
    }
}

/// The filter's answer to an event of the given category for a key in `state`.
///
/// Events outside the state machine are forwarded whatever the state. A
/// release is forwarded only if the key is pressed. A press is forwarded if
/// no release is on record, if the key is excluded from filtering, or if
/// strictly more than the threshold has passed since the recorded release;
/// a press dated before that release is a clock fault.
pub open spec fn verdict_for(
    code: u16,
    state: KeyState,
    category: Category,
    now: Timestamp,
    limit: Threshold,
) -> Result<Verdict, ClockFault> {
    match category {
        Category::Passthrough(reason) => Ok(Verdict::Forward(reason)),
        Category::SyntheticIgnore => Ok(Verdict::Forward(Reason::Synthetic)),
        Category::Hold => Ok(Verdict::Forward(Reason::Hold)),
        Category::KeyUp => if state.is_pressed {
            Ok(Verdict::Forward(Reason::KeyUp))
        } else {
            Ok(Verdict::Suppress(Reason::NotPressed))
        },
        Category::KeyDown => match state.last_release_time {
            None => Ok(Verdict::Forward(Reason::FirstPress)),
            Some(last_release) => press_outcome(code, last_release, now, limit),
        },
    }
}

/// The state of the key after the event. Only a forwarded release and a
/// forwarded press change it; a suppressed event and a clock fault leave
/// it as it was.
pub open spec fn state_after(
    code: u16,
    state: KeyState,
    category: Category,
    now: Timestamp,
    limit: Threshold,
) -> KeyState {
    match (category, verdict_for(code, state, category, now, limit)) {
        (Category::KeyUp, Ok(Verdict::Forward(_))) => KeyState::after_release(now),
        (Category::KeyDown, Ok(Verdict::Forward(_))) => state.after_press(),
        _ => state,
    }
}

/// Applies one event to the state of its key: returns the state after the
/// event and the verdict, or the clock fault that the event revealed.
pub fn advance(
    code: u16,
    state: KeyState,
    category: Category,
    now: Timestamp,
    limit: Threshold,
) -> (out: (KeyState, Result<Verdict, ClockFault>))
    ensures
        out.0 == state_after(code, state, category, now, limit),
        out.1 == verdict_for(code, state, category, now, limit),
{
    match category {
        Category::Passthrough(reason) => (state, Ok(Verdict::Forward(reason))),
        Category::SyntheticIgnore => (state, Ok(Verdict::Forward(Reason::Synthetic))),
        Category::Hold => (state, Ok(Verdict::Forward(Reason::Hold))),
        Category::KeyUp => {
            if state.is_pressed {
                let next = KeyState { is_pressed: false, last_release_time: Some(now) };
                (next, Ok(Verdict::Forward(Reason::KeyUp)))
            } else {
                (state, Ok(Verdict::Suppress(Reason::NotPressed)))
            }
        },
        Category::KeyDown => {
            let pressed = KeyState { is_pressed: true, last_release_time: state.last_release_time };
            match state.last_release_time {
                None => (pressed, Ok(Verdict::Forward(Reason::FirstPress))),
                Some(last_release) => match now.millis_since(last_release) {
                    None => (state, Err(ClockFault { code, last_release, now })),
                    Some(elapsed_ms) => {
                        if limit.excluded || elapsed_ms > limit.threshold_ms {
                            (pressed, Ok(Verdict::Forward(Reason::KeyDown)))
                        } else {
                            (state, Ok(Verdict::Suppress(Reason::TooSoon { elapsed_ms })))
                        }
                    },
                },
            }
        },
    }
}

/// The key states of a filter that has seen nothing: every key released.
pub open spec fn fresh_keys() -> Map<u16, KeyState> {
    Map::total(|code: u16| KeyState::released())
}

/// Whether `keys` has a state for every key code.
pub open spec fn tracks_all(keys: Map<u16, KeyState>) -> bool {
    forall|code: u16| keys.dom().contains(code)
}

/// The verdict on an event of `category` for key `code`, given all key states.
pub open spec fn evaluate_verdict(
    config: AppConfig,
    keyboard: Option<Seq<char>>,
    keys: Map<u16, KeyState>,
    category: Category,
    code: u16,
    now: Timestamp,
) -> Result<Verdict, ClockFault> {
    verdict_for(code, keys[code], category, now, config.resolve_spec(code, keyboard))
}

/// All key states after an event of `category` for key `code`: the state of
/// `code` moves as `state_after` says, every other key keeps its state.
pub open spec fn evaluate_keys(
    config: AppConfig,
    keyboard: Option<Seq<char>>,
    keys: Map<u16, KeyState>,
    category: Category,
    code: u16,
    now: Timestamp,
) -> Map<u16, KeyState> {
    keys.insert(
        code,
        state_after(code, keys[code], category, now, config.resolve_spec(code, keyboard)),
    )
}

/// The verdict on a raw event: it is classified, then evaluated.
pub open spec fn step_verdict(
    config: AppConfig,
    keyboard: Option<Seq<char>>,
    keys: Map<u16, KeyState>,
    raw: RawEvent,
) -> Result<Verdict, ClockFault> {
    evaluate_verdict(config, keyboard, keys, classify_spec(raw), raw.code, raw.timestamp)
}

/// All key states after a raw event.
pub open spec fn step_keys(
    config: AppConfig,
    keyboard: Option<Seq<char>>,
    keys: Map<u16, KeyState>,
    raw: RawEvent,
) -> Map<u16, KeyState> {
    evaluate_keys(config, keyboard, keys, classify_spec(raw), raw.code, raw.timestamp)
}

/// What a run over a sequence of events leaves behind.
pub struct Trace {
    /// The key states after the run.
    pub keys: Map<u16, KeyState>,
    /// One verdict per event that was decided, in order.
    pub verdicts: Seq<Verdict>,
    /// The clock fault that ended the run early, if one did.
    pub fault: Option<ClockFault>,
}

/// Runs `events` in order from the key states `keys`. The run ends at the
/// first clock fault; the event that reveals it gets no verdict, and
/// neither does any event after it.
pub open spec fn run_spec(
    config: AppConfig,
    keyboard: Option<Seq<char>>,
    keys: Map<u16, KeyState>,
    events: Seq<RawEvent>,
) -> Trace
    decreases events.len(),
{
    if events.len() == 0 {
        Trace { keys, verdicts: Seq::empty(), fault: None }
    } else {
        let before = run_spec(config, keyboard, keys, events.drop_last());
        if before.fault is Some {
            before
        } else {
            match step_verdict(config, keyboard, before.keys, events.last()) {
                Ok(verdict) => Trace {
                    keys: step_keys(config, keyboard, before.keys, events.last()),
                    verdicts: before.verdicts.push(verdict),
                    fault: None,
                },
                Err(fault) => Trace {
                    keys: before.keys,
                    verdicts: before.verdicts,
                    fault: Some(fault),
                },
            }
        }
    }
}

/// The events among the first `verdicts.len()` of `events` whose verdict
/// satisfies `keep`, in order.
pub open spec fn kept_events(
    events: Seq<RawEvent>,
    verdicts: Seq<Verdict>,
    keep: spec_fn(Verdict) -> bool,
) -> Seq<RawEvent>
    decreases verdicts.len(),
{
    if verdicts.len() == 0 {
        Seq::empty()
    } else {
        let before = kept_events(events, verdicts.drop_last(), keep);
        if keep(verdicts.last()) {
            before.push(events[verdicts.len() - 1])
        } else {
            before
        }
    }
}

/// The events that are written to the output device.
pub open spec fn emitted_events(events: Seq<RawEvent>, verdicts: Seq<Verdict>) -> Seq<RawEvent> {
    kept_events(events, verdicts, |verdict: Verdict| verdict.emits())
}

/// The events that passed the filter.
pub open spec fn forwarded_events(events: Seq<RawEvent>, verdicts: Seq<Verdict>) -> Seq<RawEvent> {
    kept_events(events, verdicts, |verdict: Verdict| verdict.is_forward())
}

/// What became of a batch of events.
#[derive(Clone, Debug, PartialEq, Eq)]
pub struct BatchReport {
    /// One verdict per event that was decided, in order.
    pub verdicts: Vec<Verdict>,
    /// The events to write to the output device, in order.
    pub emitted: Vec<RawEvent>,
    /// The clock fault that ended the batch early, if one did.
    pub fault: Option<ClockFault>,
}

/// The chatter filter engine. It owns the configuration and the state of
/// every key.
pub struct ChatterFilter {
    config: AppConfig,
    keys: HashMap<u16, KeyState>,
}

impl View for ChatterFilter {
    type V = Map<u16, KeyState>;

    /// The state of every key; a key that was never seen is released. The
    /// configuration is no part of the view: it never changes, and
    /// `config` gives it.
    closed spec fn view(&self) -> Map<u16, KeyState> {
        Map::total(
            |code: u16|
                if self.keys@.contains_key(code) {
                    self.keys@[code]
                } else {
                    KeyState::released()
                },
        )
    }
}

impl ChatterFilter {
    /// The configuration the filter was built with.
    pub closed spec fn config_spec(&self) -> &AppConfig {
        &self.config
    }

    /// A filter that has seen no event yet.
    pub fn new(config: AppConfig) -> (filter: Self)
        ensures
            *filter.config() == config,
            filter@ == fresh_keys(),
    {
        let filter = ChatterFilter { config, keys: HashMap::new() };
        assert(filter@ =~= fresh_keys());
        filter
    }

    /// The configuration the filter was built with. It never changes.
    #[verifier::when_used_as_spec(config_spec)]
    pub fn config(&self) -> (config: &AppConfig)
        ensures
            config == self.config_spec(),
    {
        &self.config
    }

    /// The filter has a state for every key code.
    pub proof fn lemma_tracks_all(&self)
        ensures
            tracks_all(self@),
    {
    }

    /// The current state of one key.
    pub fn key_state(&self, code: u16) -> (state: KeyState)
        ensures
            state == self@[code],
    {
        match self.keys.get(&code) {
            Some(state) => *state,
            None => KeyState { is_pressed: false, last_release_time: None },
        }
    }

    /// Decides on one event of the given category for key `code`, and
    /// updates the state of that key. On a clock fault nothing changes.
    pub fn evaluate(
        &mut self,
        category: Category,
        code: u16,
        timestamp: Timestamp,
        keyboard: Option<&str>,
    ) -> (out: Result<Verdict, ClockFault>)
        ensures
            final(self).config() == old(self).config(),
            out == evaluate_verdict(
                *old(self).config(),
                name_view(keyboard),
                old(self)@,
                category,
                code,
                timestamp,
            ),
            final(self)@ == evaluate_keys(
                *old(self).config(),
                name_view(keyboard),
                old(self)@,
                category,
                code,
                timestamp,
            ),
    {
        let state = self.key_state(code);
        let limit = self.config.resolve(code, keyboard);
        let (next, out) = advance(code, state, category, timestamp, limit);
        let moved = match (category, out) {
            (Category::KeyUp, Ok(Verdict::Forward(_))) => true,
            (Category::KeyDown, Ok(Verdict::Forward(_))) => true,
            _ => false,
        };
        if moved {
            self.keys.insert(code, next);
        }
        assert(self@ =~= old(self)@.insert(code, next));
        out
    }

    /// Classifies one raw event and decides on it.
    pub fn process(&mut self, raw: &RawEvent, keyboard: Option<&str>) -> (out: Result<
        Verdict,
        ClockFault,
    >)
        ensures
            final(self).config() == old(self).config(),
            out == step_verdict(*old(self).config(), name_view(keyboard), old(self)@, *raw),
            final(self)@ == step_keys(*old(self).config(), name_view(keyboard), old(self)@, *raw),
    {
        let category = classify(raw);
        self.evaluate(category, raw.code, raw.timestamp, keyboard)
    }

    /// Decides on the events of a batch in the order given, and reports the
    /// verdicts and the events to write out. A clock fault ends the batch:
    /// the report then covers the events before the faulty one.
    pub fn process_batch(&mut self, events: &Vec<RawEvent>, keyboard: Option<&str>) -> (report:
        BatchReport)
        ensures
            final(self).config() == old(self).config(),
            final(self)@ == old(self).run(keyboard, events@).keys,
            report.verdicts@ == old(self).run(keyboard, events@).verdicts,
            report.fault == old(self).run(keyboard, events@).fault,
            report.emitted@ == emitted_events(events@, report.verdicts@),
    {
        let mut verdicts: Vec<Verdict> = Vec::new();
        let mut emitted: Vec<RawEvent> = Vec::new();
        let ghost keep = |verdict: Verdict| verdict.emits();
        let mut i: usize = 0;
        assert(events@.take(0) =~= Seq::<RawEvent>::empty());
        while i < events.len()
            invariant
                i <= events@.len(),
                self.config() == old(self).config(),
                keep == |verdict: Verdict| verdict.emits(),
                old(self).run(keyboard, events@.take(i as int)).fault is None,
                self@ == old(self).run(keyboard, events@.take(i as int)).keys,
                verdicts@ == old(self).run(keyboard, events@.take(i as int)).verdicts,
                verdicts@.len() == i,
                emitted@ == kept_events(events@, verdicts@, keep),
            decreases events@.len() - i,
        {
            let raw = events[i];
            proof {
                assert(events@.take(i + 1).drop_last() =~= events@.take(i as int));
                assert(events@.take(i + 1).last() == raw);
            }
            match self.process(&raw, keyboard) {
                Ok(verdict) => {
                    let ghost earlier = verdicts@;
                    verdicts.push(verdict);
                    if verdict.emits() {
                        emitted.push(raw);
                    }
                    assert(verdicts@.drop_last() =~= earlier);
                },
                Err(fault) => {
                    proof {
                        lemma_run_stays_faulted(
                            *old(self).config(),
                            name_view(keyboard),
                            old(self)@,
                            events@,
                            i + 1,
                        );
                    }
                    return BatchReport { verdicts, emitted, fault: Some(fault) };
                },
            }
            i += 1;
        }
        assert(events@.take(i as int) =~= events@);
        BatchReport { verdicts, emitted, fault: None }
    }

    /// The trace of running `events` from the filter's present state.
    pub open spec fn run(&self, keyboard: Option<&str>, events: Seq<RawEvent>) -> Trace {
        run_spec(*self.config(), name_view(keyboard), self@, events)
    }
}

/// Once a run has met a clock fault, later events change nothing: the trace
/// of the whole sequence is the trace of the prefix that ends at the fault.
pub proof fn lemma_run_stays_faulted(
    config: AppConfig,
    keyboard: Option<Seq<char>>,
    keys: Map<u16, KeyState>,
    events: Seq<RawEvent>,
    n: int,
)
    requires
        0 <= n <= events.len(),
        run_spec(config, keyboard, keys, events.take(n)).fault is Some,
    ensures
        run_spec(config, keyboard, keys, events) == run_spec(
            config,
            keyboard,
            keys,
            events.take(n),
        ),
    decreases events.len() - n,
{
    if n == events.len() {
        assert(events.take(n) =~= events);
    } else {
        assert(events.take(n + 1).drop_last() =~= events.take(n));
        lemma_run_stays_faulted(config, keyboard, keys, events, n + 1);
    }
}

} // verus!
