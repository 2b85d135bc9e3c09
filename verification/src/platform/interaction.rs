//! Watching the user's mouse and keyboard interactions to tell activity from
//! idleness.
//!
//! The system's low-level hooks report each input event to
//! [`InteractionWatcher::trigger_mouse`] and
//! [`InteractionWatcher::trigger_keyboard`]; a timer calls
//! [`InteractionWatcher::trigger`], whose result is the state change to
//! report, if any.
use vstd::prelude::*;

use crate::entities::{Duration, Timestamp};

verus! {

/// The hook code of an input event that the hook should process.
pub const HC_ACTION: u32 = 0;
/// The flag of an input event that was injected rather than made by the user.
pub const LLKHF_INJECTED: u32 = 0x10;
/// Left mouse button pressed.
pub const WM_LBUTTONDOWN: u32 = 0x0201;
/// Right mouse button pressed.
pub const WM_RBUTTONDOWN: u32 = 0x0204;
/// Middle mouse button pressed.
pub const WM_MBUTTONDOWN: u32 = 0x0207;
/// Extra mouse button pressed.
pub const WM_XBUTTONDOWN: u32 = 0x020B;
/// Key pressed.
pub const WM_KEYDOWN: u32 = 0x0100;

/// A change of the interaction state.
#[derive(Clone, Copy, Debug, PartialEq, Eq, Structural)]
pub enum InteractionStateChange {
    /// The user became active.
    Active,
    /// The user became idle, after the clicks and keystrokes of the
    /// interaction period.
    Idle { mouseclicks: u32, keystrokes: u32 },
}

/// The interaction state of the user.
#[derive(Clone, Copy, Debug, PartialEq, Eq, Structural)]
pub struct InteractionWatcher {
    /// The longest time without input that still counts as active
    pub max_gap: Duration,
    /// Keystrokes of the current interaction period
    pub keystrokes: u32,
    /// Mouse clicks of the current interaction period
    pub mouseclicks: u32,
    /// Time of the latest input
    pub last_interaction: Timestamp,
    /// The user is idle
    pub idle: bool,
}

/// The input happened within the maximum gap before `now`.
pub open spec fn spec_recent(w: InteractionWatcher, now: Timestamp) -> bool {
    now - w.last_interaction <= w.max_gap
}

/// The hook event is a user's (not injected) input to process.
pub open spec fn is_user_input(code: i32, flags: u32) -> bool {
    code == 0 && flags & LLKHF_INJECTED == 0
}

/// The mouse message is a button press.
pub open spec fn is_click(message: u32) -> bool {
    message == WM_LBUTTONDOWN || message == WM_RBUTTONDOWN || message == WM_MBUTTONDOWN
        || message == WM_XBUTTONDOWN
}

/// The watcher after a trigger at time `now`, and the change it reports.
pub open spec fn triggered(w: InteractionWatcher, now: Timestamp) -> (InteractionWatcher, Option<InteractionStateChange>) {
    if w.idle && spec_recent(w, now) {
        (InteractionWatcher { idle: false, ..w }, Some(InteractionStateChange::Active))
    } else if !w.idle && !spec_recent(w, now) {
        (
            InteractionWatcher { idle: true, mouseclicks: 0, keystrokes: 0, ..w },
            Some(InteractionStateChange::Idle { mouseclicks: w.mouseclicks, keystrokes: w.keystrokes }),
        )
    } else {
        (w, None)
    }
}

impl InteractionWatcher {
    /// An idle watcher with no interactions, whose latest input is `start`.
    pub fn new(max_gap: Duration, start: Timestamp) -> (r: InteractionWatcher)
        ensures
            r == (InteractionWatcher {
                max_gap,
                keystrokes: 0,
                mouseclicks: 0,
                last_interaction: start,
                idle: true,
            }),
    {
        InteractionWatcher { max_gap, keystrokes: 0, mouseclicks: 0, last_interaction: start, idle: true }
    }

    /// Forget the clicks and keystrokes counted so far.
    pub fn reset_interactions(&mut self)
        ensures
            *final(self) == (InteractionWatcher { mouseclicks: 0, keystrokes: 0, ..*old(self) }),
    {
        self.mouseclicks = 0;
        self.keystrokes = 0;
    }

    /// The latest input was at most the maximum gap before `now`.
    pub fn recent_interaction(&self, now: Timestamp) -> (r: bool)
        ensures
            r == spec_recent(*self, now),
    {
        (now as i128) - (self.last_interaction as i128) <= self.max_gap as i128
    }

    /// The state change at time `now`: an idle user with a recent input
    /// becomes active; an active user without one becomes idle, reporting
    /// (and then forgetting) the period's clicks and keystrokes.
    pub fn trigger(&mut self, now: Timestamp) -> (r: Option<InteractionStateChange>)
        ensures
            (*final(self), r) == triggered(*old(self), now),
    {
        let recent = self.recent_interaction(now);
        if self.idle && recent {
            self.idle = false;
            Some(InteractionStateChange::Active)
        } else if !self.idle && !recent {
            self.idle = true;
            let change = InteractionStateChange::Idle {
                mouseclicks: self.mouseclicks,
                keystrokes: self.keystrokes,
            };
            self.reset_interactions();
            Some(change)
        } else {
            None
        }
    }

    /// Records a low-level mouse event with hook code `code`, message
    /// `message`, flags `flags`, at time `time`: a user's input moves the
    /// latest input forward, and a user's button press counts as a click.
    pub fn trigger_mouse(&mut self, code: i32, message: u32, flags: u32, time: Timestamp)
        requires
            is_user_input(code, flags) && is_click(message) ==> old(self).mouseclicks < u32::MAX,
        ensures
            is_user_input(code, flags) ==> *final(self) == (InteractionWatcher {
                last_interaction: if time > old(self).last_interaction {
                    time
                } else {
                    old(self).last_interaction
                },
                mouseclicks: if is_click(message) {
                    (old(self).mouseclicks + 1) as u32
                } else {
                    old(self).mouseclicks
                },
                ..*old(self)
            }),
            !is_user_input(code, flags) ==> *final(self) == *old(self),
            is_user_input(code, flags) && (message == WM_LBUTTONDOWN || message == WM_RBUTTONDOWN
                || message == WM_MBUTTONDOWN || message == WM_XBUTTONDOWN) ==> final(self).mouseclicks
                == old(self).mouseclicks + 1,
    {
        if code == 0 && flags & LLKHF_INJECTED == 0 {
            if time > self.last_interaction {
                self.last_interaction = time;
            }
            if message == WM_LBUTTONDOWN || message == WM_RBUTTONDOWN || message == WM_MBUTTONDOWN
                || message == WM_XBUTTONDOWN {
                self.mouseclicks = self.mouseclicks + 1;
            }
        }
    }

    /// Records a low-level keyboard event with hook code `code`, message
    /// `message`, flags `flags`, at time `time`: a user's input moves the
    /// latest input forward, and a user's key press counts as a keystroke.
    pub fn trigger_keyboard(&mut self, code: i32, message: u32, flags: u32, time: Timestamp)
        requires
            is_user_input(code, flags) && message == WM_KEYDOWN ==> old(self).keystrokes < u32::MAX,
        ensures
            is_user_input(code, flags) ==> *final(self) == (InteractionWatcher {
                last_interaction: if time > old(self).last_interaction {
                    time
                } else {
                    old(self).last_interaction
                },
                keystrokes: if message == WM_KEYDOWN {
                    (old(self).keystrokes + 1) as u32
                } else {
                    old(self).keystrokes
                },
                ..*old(self)
            }),
            !is_user_input(code, flags) ==> *final(self) == *old(self),
    {
        if code == 0 && flags & LLKHF_INJECTED == 0 {
            if time > self.last_interaction {
                self.last_interaction = time;
            }
            if message == WM_KEYDOWN {
                self.keystrokes = self.keystrokes + 1;
            }
        }
    }
}

/// Reported changes alternate: an Active change is reported only by an idle
/// watcher, which it leaves active, and an Idle change only by an active
/// watcher, which it leaves idle with no counted interactions; a watcher
/// that reports nothing keeps its state.
pub proof fn law_interaction_changes_alternate(w: InteractionWatcher, now: Timestamp)
    ensures
        ({
            let (after, r) = triggered(w, now);
            &&& r matches Some(InteractionStateChange::Active) ==> w.idle && !after.idle
            &&& r matches Some(InteractionStateChange::Idle { .. }) ==> !w.idle && after.idle
                && after.mouseclicks == 0 && after.keystrokes == 0
            &&& r is None ==> after == w
        }),
{
}

/// A mouse message counts as a click exactly when it is the press of a
/// button: left, right, middle or extra. Moves, wheel turns and button
/// releases are no clicks.
pub proof fn law_button_presses_are_clicks(message: u32)
    ensures
        is_click(message) <==> (message == 0x0201 || message == 0x0204 || message == 0x0207
            || message == 0x020B),
        !is_click(0x0200),
        !is_click(0x0202),
        !is_click(0x020A),
{
}

} // verus!
