//! Choosing the keyboard to filter.
//!
//! Keyboards appear as entries of one directory, under names that end in a
//! fixed suffix. This module holds the rules of the choice; reading the
//! directory and asking the user are left to the caller.

use crate::text::{
    decimal_text, decimal_value, ends_with, ends_with_spec, parse_decimal_up_to, push_decimal,
};
use vstd::prelude::*;
use vstd::string::StrSliceExecFns;
use vstd::string::StringExecFns;

verus! {

/// The directory that lists input devices by their names.
pub const INPUT_DEVICES_PATH: &'static str = "/dev/input/by-id";

/// Names of keyboards end in this.
pub const KEYBOARD_NAME_SUFFIX: &'static str = "-kbd";

/// Whether a directory entry of this name is a keyboard.
pub open spec fn is_keyboard_name_spec(name: Seq<char>) -> bool {
    ends_with_spec(name, KEYBOARD_NAME_SUFFIX@)
}

/// Whether a directory entry of this name is a keyboard.
pub fn is_keyboard_name(name: &str) -> (keyboard: bool)
    ensures
        keyboard == is_keyboard_name_spec(name@),
{
    ends_with(name, KEYBOARD_NAME_SUFFIX)
}

/// The characters of each name.
pub open spec fn texts(names: Seq<String>) -> Seq<Seq<char>> {
    names.map_values(|name: String| name@)
}

/// The names of keyboards among `names`, in the order given.
pub open spec fn keyboard_names(names: Seq<Seq<char>>) -> Seq<Seq<char>> {
    names.filter(|name: Seq<char>| is_keyboard_name_spec(name))
}

/// Picks the keyboards out of the names of a directory's entries. The
/// order of the names is kept, and a name that occurs twice is kept twice.
pub fn keyboard_candidates(names: &Vec<String>) -> (found: Vec<String>)
    ensures
        texts(found@) == keyboard_names(texts(names@)),
{
    let mut found: Vec<String> = Vec::new();
    let ghost keyboard = |name: Seq<char>| is_keyboard_name_spec(name);
    let mut i: usize = 0;
    proof {
        assert(texts(names@.take(0)) =~= Seq::<Seq<char>>::empty());
        assert(texts(found@) =~= Seq::<Seq<char>>::empty());
        Seq::<Seq<char>>::empty().lemma_filter_len(keyboard);
    }
    while i < names.len()
        invariant
            i <= names@.len(),
            keyboard == |name: Seq<char>| is_keyboard_name_spec(name),
            texts(found@) == texts(names@.take(i as int)).filter(keyboard),
        decreases names@.len() - i,
    {
        let name = &names[i];
        let ghost seen = texts(names@.take(i as int));
        let ghost before = found@;
        proof {
            assert(texts(names@.take(i + 1)) =~= seen.push(name@));
            seen.lemma_filter_push(name@, keyboard);
        }
        if is_keyboard_name(name.as_str()) {
            found.push(name.clone());
            assert(texts(found@) =~= texts(before).push(name@));
        }
        i += 1;
    }
    assert(names@.take(i as int) =~= names@);
    found
}

/// How to choose where several keyboards are found.
#[derive(Clone, Copy, Debug, PartialEq, Eq, Structural)]
pub enum SelectionPolicy {
    /// Take the first keyboard found, without asking.
    FirstMatch,
    /// Let the user pick one.
    Ask,
}

/// What the candidates and the policy settle by themselves.
#[derive(Clone, Debug, PartialEq, Eq)]
pub enum Selection {
    /// There is no keyboard.
    NoKeyboard,
    /// The keyboard of this name is chosen.
    Chosen(String),
    /// The user has to pick one of the candidates.
    NeedsChoice,
}

/// What `select` returns, with names as characters.
pub enum SelectionView {
    NoKeyboard,
    Chosen(Seq<char>),
    NeedsChoice,
}

impl View for Selection {
    type V = SelectionView;

    open spec fn view(&self) -> SelectionView {
        match self {
            Selection::NoKeyboard => SelectionView::NoKeyboard,
            Selection::Chosen(name) => SelectionView::Chosen(name@),
            Selection::NeedsChoice => SelectionView::NeedsChoice,
        }
    }
}

/// With no candidate there is no keyboard; a single candidate is chosen;
/// among several the policy decides between the first and asking.
pub open spec fn select_spec(candidates: Seq<Seq<char>>, policy: SelectionPolicy) -> SelectionView {
    if candidates.len() == 0 {
        SelectionView::NoKeyboard
    } else if candidates.len() == 1 || policy == SelectionPolicy::FirstMatch {
        SelectionView::Chosen(candidates[0])
    } else {
        SelectionView::NeedsChoice
    }
}

/// Settles the choice as far as it can be settled without the user.
pub fn select(candidates: &Vec<String>, policy: SelectionPolicy) -> (selection: Selection)
    ensures
        selection@ == select_spec(texts(candidates@), policy),
{
    if candidates.len() == 0 {
        Selection::NoKeyboard
    } else if candidates.len() == 1 {
        Selection::Chosen(candidates[0].clone())
    } else {
        match policy {
            SelectionPolicy::FirstMatch => Selection::Chosen(candidates[0].clone()),
            SelectionPolicy::Ask => Selection::NeedsChoice,
        }
    }
}

/// The candidate that the answer `input` picks out of `count` candidates:
/// `input` must write, in decimal, a number from 1 to `count`.
pub open spec fn choice_spec(input: Seq<char>, count: usize) -> Option<usize> {
    match decimal_value(input) {
        Some(number) => if 1 <= number <= count {
            Some(number as usize)
        } else {
            None
        },
        None => None,
    }
}

/// Reads the user's answer to the list of `count` candidates. Returns the
/// number picked, counted from 1, or `None` where the answer is no number
/// from 1 to `count`, in which case the user is to be asked again.
pub fn parse_choice(input: &str, count: usize) -> (choice: Option<usize>)
    ensures
        choice == choice_spec(input@, count),
{
    match parse_decimal_up_to(input, count) {
        Some(number) => if number >= 1 {
            Some(number)
        } else {
            None
        },
        None => None,
    }
}

/// The name that the answer `input` picks among `candidates`.
pub open spec fn pick_spec(candidates: Seq<Seq<char>>, input: Seq<char>) -> Option<Seq<char>> {
    if candidates.len() > usize::MAX {
        None
    } else {
        match choice_spec(input, candidates.len() as usize) {
            Some(number) => Some(candidates[number - 1]),
            None => None,
        }
    }
}

/// The keyboard that the user's answer picks, or `None` where the answer
/// picks none and the user is to be asked again.
pub fn pick(candidates: &Vec<String>, input: &str) -> (name: Option<String>)
    ensures
        match name {
            Some(name) => pick_spec(texts(candidates@), input@) == Some(name@),
            None => pick_spec(texts(candidates@), input@).is_none(),
        },
{
    match parse_choice(input, candidates.len()) {
        Some(number) => Some(candidates[number - 1].clone()),
        None => None,
    }
}

/// The line that offers a candidate to the user: its number in the list,
/// counted from 1, a dot, a space and the name.
pub open spec fn menu_line_spec(number: nat, name: Seq<char>) -> Seq<char> {
    decimal_text(number) + ". "@ + name
}

/// The line that offers one candidate to the user.
pub fn menu_line(number: usize, name: &str) -> (line: String)
    ensures
        line@ == menu_line_spec(number as nat, name@),
{
    let mut line = String::new();
    push_decimal(&mut line, number as u64);
    line.append(". ");
    line.append(name);
    assert(line@ =~= menu_line_spec(number as nat, name@));
    line
}

/// What to tell the user after an answer that picks no candidate.
pub open spec fn retry_hint_spec(count: nat) -> Seq<char> {
    "Please select a number between 1 and "@ + decimal_text(count)
}

/// What to tell the user after an answer that picks no candidate.
pub fn retry_hint(count: usize) -> (hint: String)
    ensures
        hint@ == retry_hint_spec(count as nat),
{
    let mut hint = String::from_str("Please select a number between 1 and ");
    push_decimal(&mut hint, count as u64);
    hint
}

/// The path of the device called `device`: the name below the directory of
/// input devices, or the name itself where it is an absolute path.
pub open spec fn abs_keyboard_path_spec(device: Seq<char>) -> Seq<char> {
    if device.len() > 0 && device[0] == '/' {
        device
    } else {
        INPUT_DEVICES_PATH@ + "/"@ + device
    }
}

/// Produce an absolute keyboard device path.
pub fn abs_keyboard_path(device: &str) -> (path: String)
    ensures
        path@ == abs_keyboard_path_spec(device@),
{
    if !device.is_empty() && device.get_char(0) == '/' {
        String::from_str(device)
    } else {
        let mut path = String::from_str(INPUT_DEVICES_PATH);
        path.append("/");
        path.append(device);
        path
    }
}

} // verus!
