//! What a driver is asked to do, and what it reports back.

use vstd::prelude::*;

verus! {

/// A key of the paste chord.
#[derive(Clone, Copy, Debug, PartialEq, Eq, Structural)]
pub enum Key {
    Shift,
    Control,
    /// The key that types this character.
    Unicode(char),
}

/// What is done to a key.
#[derive(Clone, Copy, Debug, PartialEq, Eq, Structural)]
pub enum Direction {
    Press,
    Release,
    /// A press followed by a release.
    Click,
}

/// One thing for the driver to do.
#[derive(Debug, PartialEq, Eq)]
pub enum Action {
    /// Make this text the content of the system clipboard.
    SetClipboard(String),
    /// Block for this many milliseconds.
    Wait(u64),
    /// Send this key event to the input layer.
    SendKey(Key, Direction),
}

/// An [`Action`] as a mathematical value.
pub enum ActionView {
    SetClipboard(Seq<char>),
    Wait(nat),
    SendKey(Key, Direction),
}

impl View for Action {
    type V = ActionView;

    open spec fn view(&self) -> ActionView {
        match self {
            Action::SetClipboard(text) => ActionView::SetClipboard(text@),
            Action::Wait(millis) => ActionView::Wait(*millis as nat),
            Action::SendKey(key, direction) => ActionView::SendKey(*key, *direction),
        }
    }
}

impl Clone for Action {
    fn clone(&self) -> (copy: Self)
        ensures
            copy@ == self@,
    {
        match self {
            Action::SetClipboard(text) => Action::SetClipboard(text.clone()),
            Action::Wait(millis) => Action::Wait(*millis),
            Action::SendKey(key, direction) => Action::SendKey(*key, *direction),
        }
    }
}

/// How an action went, as the driver reports it.
#[derive(Clone, Copy, Debug, PartialEq, Eq, Structural)]
pub enum Outcome {
    Done,
    /// The clipboard or the input layer refused, or could not be reached.
    Failed,
}

} // verus!
