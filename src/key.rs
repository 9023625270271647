use vstd::prelude::*;

verus! {

/// One key press, as the session dispatches it.
#[derive(Clone, Copy, Debug, PartialEq, Eq, Structural)]
pub enum Key {
    Char(char),
    Enter,
    Esc,
    Tab,
    BackTab,
    Backspace,
    /// Any key the session has no binding for.
    Other,
}

} // verus!
