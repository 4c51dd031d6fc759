use vstd::prelude::*;
use crate::input_mode::{mode_text, spec_mode_from_str, toggled, InputMode, ParseInputModeError};

verus! {

/// What the command line asks the program to do once it knows the current mode.
#[derive(Debug, PartialEq, Eq)]
pub enum Action {
    /// Print this text (the current mode) on a line of its own.
    Print(String),
    /// Press the IME mode button once.
    Switch,
    /// Do nothing.
    Stay,
}

/// A press is needed: the argument names a mode other than the current one.
pub open spec fn switch_needed(current: InputMode, arg: Seq<char>) -> bool {
    match spec_mode_from_str(arg) {
        Ok(m) => m != current,
        Err(_) => false,
    }
}

/// The mode after the action: one press turns the mode into the other one.
pub open spec fn mode_after(current: InputMode, pressed: bool) -> InputMode {
    if pressed {
        toggled(current)
    } else {
        current
    }
}

/// Decides what `im_select [mode]` does in the current mode: with no
/// argument it prints the current mode; with an argument that names the
/// other mode it switches; with one that names the current mode, or names
/// no mode at all, it does nothing.
pub fn decide(current: InputMode, arg: Option<&str>) -> (a: Action)
    ensures
        arg is None ==> (a matches Action::Print(s) && s@ == mode_text(current)),
        arg matches Some(t) ==> {
            &&& (a is Switch) == switch_needed(current, t@)
            &&& !(a is Switch) ==> a is Stay
        },
{
    match arg {
        None => Action::Print(current.to_string()),
        Some(input) => {
            let parsed = <InputMode as core::str::FromStr>::from_str(input);
            match parsed {
                Ok(m) => {
                    if m != current {
                        Action::Switch
                    } else {
                        Action::Stay
                    }
                },
                Err(_) => Action::Stay,
            }
        },
    }
}

/// Asking for a mode gets it: whenever the argument names a mode, the mode
/// after the decided action (one press when a switch is decided, none
/// otherwise) is the one asked for.
pub proof fn lemma_request_is_reached(current: InputMode, arg: Seq<char>)
    requires
        spec_mode_from_str(arg) is Ok,
    ensures
        spec_mode_from_str(arg) == Ok::<InputMode, ParseInputModeError>(
            mode_after(current, switch_needed(current, arg)),
        ),
{
}

/// Asking for the mode already in force, or for no mode, never presses the button.
pub proof fn lemma_no_needless_press(current: InputMode, arg: Seq<char>)
    requires
        spec_mode_from_str(arg) is Err || spec_mode_from_str(arg) == Ok::<InputMode, ParseInputModeError>(current),
    ensures
        !switch_needed(current, arg),
{
}

} // verus!
