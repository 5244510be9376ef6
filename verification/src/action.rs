//! Actions of the dashboard and how one input becomes an action.

use vstd::prelude::*;

verus! {

/// Longest wait for a key before a tick is due, in milliseconds.
pub const POLL_INTERVAL_MS: u64 = 250;

/// The key that ends the program.
pub const QUIT_KEY: char = 'q';

/// What the dashboard is asked to do next.
#[derive(Clone, Copy, Debug, PartialEq, Eq, Structural)]
pub enum Action {
    /// The poll interval passed without input: refresh the data.
    Tick,
    /// The user asked to leave.
    Quit,
    /// Input arrived that asks for nothing.
    NoOp,
}

/// A key, as far as the dashboard tells keys apart.
#[derive(Clone, Copy, Debug, PartialEq, Eq, Structural)]
pub enum Key {
    /// A key that produces a character.
    Char(char),
    /// Any other key.
    Other,
}

/// What one bounded wait for input ended with.
#[derive(Clone, Copy, Debug, PartialEq, Eq, Structural)]
pub enum Input {
    /// Nothing arrived within the poll interval.
    Timeout,
    /// A key event arrived.
    Key(Key),
    /// An event arrived that is no key event.
    Other,
}

/// The action that an input stands for.
pub open spec fn action_for(input: Input) -> Action {
    match input {
        Input::Timeout => Action::Tick,
        Input::Key(Key::Char(c)) => if c == QUIT_KEY {
            Action::Quit
        } else {
            Action::NoOp
        },
        Input::Key(Key::Other) => Action::NoOp,
        Input::Other => Action::NoOp,
    }
}

/// Maps the outcome of one wait for input to the action it stands for: a
/// timeout is a tick, the quit key quits, everything else asks for nothing.
pub fn get_action(input: Input) -> (action: Action)
    ensures
        action == action_for(input),
{
    match input {
        Input::Timeout => Action::Tick,
        Input::Key(Key::Char(c)) => {
            if c == QUIT_KEY {
                Action::Quit
            } else {
                Action::NoOp
            }
        },
        Input::Key(Key::Other) => Action::NoOp,
        Input::Other => Action::NoOp,
    }
}

} // verus!
