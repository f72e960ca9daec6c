//! Focus tracking for a text field that is wrapped and otherwise left to
//! itself: the field is asked once for each pass of event dispatch whether it
//! has the focus, and a change against the last answer is reported.

use vstd::prelude::*;

verus! {

/// What the tracker knows of the wrapped field: whether it had the focus when
/// it was last asked.
#[derive(Clone, Copy, Debug, PartialEq, Eq, Structural)]
pub struct MyState {
    focused: bool,
}

impl View for MyState {
    type V = bool;

    closed spec fn view(&self) -> bool {
        self.focused
    }
}

/// What one pass reports: the new value where it differs from the last known
/// one, nothing where it does not.
pub open spec fn focus_change(last_known: bool, now: bool) -> Option<bool> {
    if now != last_known {
        Some(now)
    } else {
        None
    }
}

impl MyState {
    /// A tracker of a field that has not had the focus yet.
    pub fn new() -> (state: Self)
        ensures
            state@ == false,
    {
        MyState { focused: false }
    }

    /// Whether the field had the focus when it was last asked.
    pub fn focused(&self) -> (focused: bool)
        ensures
            focused == self@,
    {
        self.focused
    }

    /// Ends one pass of event dispatch: `is_focused` is what the wrapped
    /// field answers now, whatever happened to its focus during the pass.
    /// Returns the notification to send, if there is one, and remembers the
    /// answer.
    pub fn observe(&mut self, is_focused: bool) -> (notification: Option<bool>)
        ensures
            final(self)@ == is_focused,
            notification == focus_change(old(self)@, is_focused),
    {
        if is_focused != self.focused {
            self.focused = is_focused;
            Some(is_focused)
        } else {
            None
        }
    }
}

impl Default for MyState {
    fn default() -> (state: Self)
        ensures
            state@ == false,
    {
        MyState::new()
    }
}

/// A pass reports at most the value that the field has at its end, and it
/// reports that value exactly where it differs from the last known one. A
/// pass right after it, with the same answer from the field, reports nothing.
pub proof fn lemma_one_notification_for_a_change(last_known: bool, now: bool)
    ensures
        focus_change(last_known, now) is Some <==> now != last_known,
        focus_change(last_known, now) is Some ==> focus_change(last_known, now) == Some(now),
        focus_change(now, now) is None,
{
}

} // verus!
