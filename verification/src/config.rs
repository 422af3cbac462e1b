//! Threshold configuration and its three-tier resolution.
//!
//! A configuration holds a global default, overrides per keyboard and
//! overrides per key. [`AppConfig::resolve`] merges the three layers; the
//! most specific layer that has an entry decides.

use crate::text::same_text;
use vstd::prelude::*;

verus! {

/// The suppression threshold used when nothing else is configured.
pub const DEFAULT_THRESHOLD_MS: u64 = 30;

/// An override for one key.
#[derive(Clone, Copy, Debug, PartialEq, Eq, Structural)]
pub struct KeyConfig {
    /// The key code.
    pub code: u16,
    /// Presses at most this many milliseconds after a release are dropped.
    pub threshold_ms: u64,
    /// An excluded key is never filtered.
    pub excluded: bool,
}

/// An override for one keyboard, with its own per-key overrides.
#[derive(Clone, Debug, PartialEq, Eq)]
pub struct KeyboardConfig {
    pub keyboard_name: String,
    pub threshold_ms: u64,
    pub key_overrides: Vec<KeyConfig>,
}

/// The whole threshold configuration.
///
/// The override lists are searched front to back, so where a list names a
/// key or a keyboard twice the earlier entry is the one in force.
#[derive(Clone, Debug, PartialEq, Eq)]
pub struct AppConfig {
    /// The global default threshold in milliseconds.
    pub threshold_ms: u64,
    /// Per-key overrides that apply whatever the keyboard.
    pub key_overrides: Vec<KeyConfig>,
    pub keyboard_overrides: Vec<KeyboardConfig>,
}

/// Settings given on the command line.
#[derive(Clone, Debug, PartialEq, Eq)]
pub struct Args {
    /// Threshold value for filtering in milliseconds.
    pub threshold: Option<u64>,
    /// Optional keyboard name to filter by.
    pub keyboard_name: Option<String>,
}

/// What the resolver hands to the filter for one key.
#[derive(Clone, Copy, Debug, PartialEq, Eq, Structural)]
pub struct Threshold {
    pub threshold_ms: u64,
    pub excluded: bool,
}

/// The first entry for `code` in `overrides`, if there is one.
pub open spec fn key_override(overrides: Seq<KeyConfig>, code: u16) -> Option<KeyConfig>
    decreases overrides.len(),
{
    if overrides.len() == 0 {
        None
    } else if overrides[0].code == code {
        Some(overrides[0])
    } else {
        key_override(overrides.drop_first(), code)
    }
}

/// The first entry for the keyboard called `name` in `keyboards`, if there is one.
pub open spec fn keyboard_override(keyboards: Seq<KeyboardConfig>, name: Seq<char>) -> Option<
    KeyboardConfig,
>
    decreases keyboards.len(),
{
    if keyboards.len() == 0 {
        None
    } else if keyboards[0].keyboard_name@ == name {
        Some(keyboards[0])
    } else {
        keyboard_override(keyboards.drop_first(), name)
    }
}

/// The characters of an optional keyboard name.
pub open spec fn name_view(keyboard: Option<&str>) -> Option<Seq<char>> {
    match keyboard {
        Some(name) => Some(name@),
        None => None,
    }
}

impl KeyConfig {
    /// The threshold this entry stands for.
    pub open spec fn limit(self) -> Threshold {
        Threshold { threshold_ms: self.threshold_ms, excluded: self.excluded }
    }
}

impl KeyboardConfig {
    /// What this keyboard's entry gives for `key`: its own override for the
    /// key where it has one, else the keyboard's threshold.
    pub open spec fn limit_for(self, key: u16) -> Threshold {
        match key_override(self.key_overrides@, key) {
            Some(entry) => entry.limit(),
            None => Threshold { threshold_ms: self.threshold_ms, excluded: false },
        }
    }
}

/// Looks `code` up in a list of per-key overrides; the first match wins.
pub fn find_key_override(overrides: &Vec<KeyConfig>, code: u16) -> (found: Option<KeyConfig>)
    ensures
        found == key_override(overrides@, code),
{
    let mut i: usize = 0;
    assert(overrides@.skip(0) =~= overrides@);
    while i < overrides.len()
        invariant
            i <= overrides@.len(),
            key_override(overrides@, code) == key_override(overrides@.skip(i as int), code),
        decreases overrides@.len() - i,
    {
        let entry = overrides[i];
        if entry.code == code {
            return Some(entry);
        }
        assert(overrides@.skip(i as int).drop_first() =~= overrides@.skip(i + 1));
        i += 1;
    }
    None
}

/// Looks a keyboard up by name; the first match wins.
pub fn find_keyboard_override<'a>(keyboards: &'a Vec<KeyboardConfig>, name: &str) -> (found:
    Option<&'a KeyboardConfig>)
    ensures
        match found {
            Some(entry) => keyboard_override(keyboards@, name@) == Some(*entry),
            None => keyboard_override(keyboards@, name@) is None,
        },
{
    let mut i: usize = 0;
    assert(keyboards@.skip(0) =~= keyboards@);
    while i < keyboards.len()
        invariant
            i <= keyboards@.len(),
            keyboard_override(keyboards@, name@) == keyboard_override(
                keyboards@.skip(i as int),
                name@,
            ),
        decreases keyboards@.len() - i,
    {
        let entry = &keyboards[i];
        if same_text(entry.keyboard_name.as_str(), name) {
            return Some(entry);
        }
        assert(keyboards@.skip(i as int).drop_first() =~= keyboards@.skip(i + 1));
        i += 1;
    }
    None
}

impl AppConfig {
    /// The threshold in force for `key` on `keyboard`.
    ///
    /// The search stops at the first layer that has an entry:
    /// the flat per-key overrides, then the per-key overrides of the
    /// keyboard, then the keyboard's own threshold, then the global default.
    /// Only a per-key entry can exclude a key.
    pub open spec fn resolve_spec(&self, key: u16, keyboard: Option<Seq<char>>) -> Threshold {
        match self.flat_layer(key) {
            Some(entry) => entry.limit(),
            None => match self.keyboard_layer(keyboard) {
                Some(board) => board.limit_for(key),
                None => self.global_limit(),
            },
        }
    }

    /// The flat per-key override for `key`, if any.
    pub open spec fn flat_layer(&self, key: u16) -> Option<KeyConfig> {
        key_override(self.key_overrides@, key)
    }

    /// What the global default alone gives.
    pub open spec fn global_limit(&self) -> Threshold {
        Threshold { threshold_ms: self.threshold_ms, excluded: false }
    }

    /// The keyboard entry that applies to `keyboard`, if any.
    pub open spec fn keyboard_layer(&self, keyboard: Option<Seq<char>>) -> Option<KeyboardConfig> {
        match keyboard {
            Some(name) => keyboard_override(self.keyboard_overrides@, name),
            None => None,
        }
    }

    /// Returns the effective suppression threshold for `key`, and whether the
    /// key is exempt from filtering, by merging the three layers.
    pub fn resolve(&self, key: u16, keyboard: Option<&str>) -> (limit: Threshold)
        ensures
            limit == self.resolve_spec(key, name_view(keyboard)),
    {
        if let Some(entry) = find_key_override(&self.key_overrides, key) {
            return Threshold { threshold_ms: entry.threshold_ms, excluded: entry.excluded };
        }
        let board = match keyboard {
            Some(name) => find_keyboard_override(&self.keyboard_overrides, name),
            None => None,
        };
        match board {
            Some(board) => {
                match find_key_override(&board.key_overrides, key) {
                    Some(entry) => Threshold {
                        threshold_ms: entry.threshold_ms,
                        excluded: entry.excluded,
                    },
                    None => Threshold { threshold_ms: board.threshold_ms, excluded: false },
                }
            },
            None => Threshold { threshold_ms: self.threshold_ms, excluded: false },
        }
    }

    /// Lets a threshold given on the command line replace the global default.
    /// Everything else stays as it was.
    pub fn merge_args(&mut self, args: &Args)
        ensures
            final(self).threshold_ms == match args.threshold {
                Some(threshold) => threshold,
                None => old(self).threshold_ms,
            },
            final(self).key_overrides == old(self).key_overrides,
            final(self).keyboard_overrides == old(self).keyboard_overrides,
    {
        if let Some(threshold) = args.threshold {
            self.threshold_ms = threshold;
        }
    }
}

impl Default for AppConfig {
    /// A configuration with the default global threshold and no overrides.
    fn default() -> (config: Self)
        ensures
            config.threshold_ms == DEFAULT_THRESHOLD_MS,
            config.key_overrides@ == Seq::<KeyConfig>::empty(),
            config.keyboard_overrides@ == Seq::<KeyboardConfig>::empty(),
    {
        AppConfig {
            threshold_ms: DEFAULT_THRESHOLD_MS,
            key_overrides: Vec::new(),
            keyboard_overrides: Vec::new(),
        }
    }
}

/// `key_override` returns the entry at the least index that names `code`,
/// and nothing exactly when no entry names it.
pub proof fn lemma_key_override_first_match(overrides: Seq<KeyConfig>, code: u16)
    ensures
        match key_override(overrides, code) {
            Some(entry) => exists|i: int|
                0 <= i < overrides.len() && overrides[i] == entry && entry.code == code
                    && forall|j: int| 0 <= j < i ==> (#[trigger] overrides[j]).code != code,
            None => forall|i: int|
                0 <= i < overrides.len() ==> (#[trigger] overrides[i]).code != code,
        },
    decreases overrides.len(),
{
    if overrides.len() == 0 {
    } else if overrides[0].code == code {
        assert(overrides[0] == overrides[0]);
    } else {
        let rest = overrides.drop_first();
        lemma_key_override_first_match(rest, code);
        match key_override(rest, code) {
            Some(entry) => {
                let i = choose|i: int|
                    0 <= i < rest.len() && rest[i] == entry && entry.code == code && forall|j: int|
                        0 <= j < i ==> (#[trigger] rest[j]).code != code;
                assert forall|j: int| 0 <= j < i + 1 implies (#[trigger] overrides[j]).code
                    != code by {
                    if j > 0 {
                        assert(overrides[j] == rest[j - 1]);
                    }
                }
                assert(overrides[i + 1] == entry);
            },
            None => {
                assert forall|i: int| 0 <= i < overrides.len() implies (
                #[trigger] overrides[i]).code != code by {
                    if i > 0 {
                        assert(overrides[i] == rest[i - 1]);
                    }
                }
            },
        }
    }
}

/// `keyboard_override` returns the entry at the least index that carries
/// `name`, and nothing exactly when no entry carries it.
pub proof fn lemma_keyboard_override_first_match(keyboards: Seq<KeyboardConfig>, name: Seq<char>)
    ensures
        match keyboard_override(keyboards, name) {
            Some(entry) => exists|i: int|
                0 <= i < keyboards.len() && keyboards[i] == entry && entry.keyboard_name@ == name
                    && forall|j: int|
                    0 <= j < i ==> (#[trigger] keyboards[j]).keyboard_name@ != name,
            None => forall|i: int|
                0 <= i < keyboards.len() ==> (#[trigger] keyboards[i]).keyboard_name@ != name,
        },
    decreases keyboards.len(),
{
    if keyboards.len() == 0 {
    } else if keyboards[0].keyboard_name@ == name {
        assert(keyboards[0] == keyboards[0]);
    } else {
        let rest = keyboards.drop_first();
        lemma_keyboard_override_first_match(rest, name);
        match keyboard_override(rest, name) {
            Some(entry) => {
                let i = choose|i: int|
                    0 <= i < rest.len() && rest[i] == entry && entry.keyboard_name@ == name
                        && forall|j: int|
                        0 <= j < i ==> (#[trigger] rest[j]).keyboard_name@ != name;
                assert forall|j: int| 0 <= j < i + 1 implies (
                #[trigger] keyboards[j]).keyboard_name@ != name by {
                    if j > 0 {
                        assert(keyboards[j] == rest[j - 1]);
                    }
                }
                assert(keyboards[i + 1] == entry);
            },
            None => {
                assert forall|i: int| 0 <= i < keyboards.len() implies (
                #[trigger] keyboards[i]).keyboard_name@ != name by {
                    if i > 0 {
                        assert(keyboards[i] == rest[i - 1]);
                    }
                }
            },
        }
    }
}

/// The precedence of the three layers: a flat per-key override decides
/// before anything set for the keyboard, an override of the keyboard decides
/// before the global default, and the global default decides only when
/// neither exists.
pub proof fn lemma_resolution_precedence(config: AppConfig, key: u16, keyboard: Option<Seq<char>>)
    ensures
        config.flat_layer(key).is_some() ==> config.resolve_spec(key, keyboard)
            == config.flat_layer(key).unwrap().limit(),
        config.flat_layer(key).is_none() && config.keyboard_layer(keyboard).is_some()
            ==> config.resolve_spec(key, keyboard) == config.keyboard_layer(
            keyboard,
        ).unwrap().limit_for(key),
        config.flat_layer(key).is_none() && config.keyboard_layer(keyboard).is_none()
            ==> config.resolve_spec(key, keyboard) == config.global_limit(),
{
}

/// A layer that decides hides every layer below it: two configurations that
/// agree on the deciding layer resolve alike, however the lower layers differ.
pub proof fn lemma_lower_layers_hidden(
    a: AppConfig,
    b: AppConfig,
    key: u16,
    keyboard: Option<Seq<char>>,
)
    requires
        a.flat_layer(key) == b.flat_layer(key),
    ensures
        a.flat_layer(key).is_some() ==> a.resolve_spec(key, keyboard) == b.resolve_spec(
            key,
            keyboard,
        ),
        a.keyboard_layer(keyboard).is_some() && a.keyboard_layer(keyboard) == b.keyboard_layer(
            keyboard,
        ) ==> a.resolve_spec(key, keyboard) == b.resolve_spec(key, keyboard),
{
}

} // verus!
