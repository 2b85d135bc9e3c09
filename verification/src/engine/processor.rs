//! Turning platform events into usages and interaction periods.
//!
//! On a foreground switch the usage in progress ends and is saved, the
//! session of the new window is found (or created), and a new usage starts.
//! When the user becomes active the interaction period starts; when the user
//! becomes idle the interaction period ends and is saved.
use vstd::prelude::*;

use crate::engine::models::{App, AppIdentity, InteractionPeriod, Timestamp, Usage};
use crate::platform::interaction::InteractionStateChange;

verus! {

/// The state of event processing.
#[derive(Clone, Copy, Debug, PartialEq, Eq, Structural)]
pub struct Processor {
    /// The usage in progress
    pub current_usage: Option<Usage>,
    /// When the current interaction period started
    pub interaction_start: Timestamp,
}

/// The state after a foreground switch at `at` ends the usage in progress,
/// and the ended usage.
pub open spec fn ended_usage(p: Processor, at: Timestamp) -> (Processor, Option<Usage>) {
    match p.current_usage {
        Some(u) => (Processor { current_usage: Some(Usage { end: at, ..u }), ..p }, Some(Usage { end: at, ..u })),
        None => (p, None),
    }
}

/// The state after a usage of the session starts at `at`.
pub open spec fn started_usage(p: Processor, session: u64, at: Timestamp) -> Processor {
    Processor { current_usage: Some(Usage { id: 0, session, start: at, end: at }), ..p }
}

/// The state after an interaction state change at `at`, and the interaction
/// period that it ends.
pub open spec fn changed_interaction(p: Processor, at: Timestamp, change: InteractionStateChange) -> (
    Processor,
    Option<InteractionPeriod>,
) {
    match change {
        InteractionStateChange::Active => (Processor { interaction_start: at, ..p }, None),
        InteractionStateChange::Idle { mouseclicks, keystrokes } => (
            p,
            Some(
                InteractionPeriod {
                    id: 0,
                    start: p.interaction_start,
                    end: at,
                    mouseclicks: mouseclicks as u64,
                    keystrokes: keystrokes as u64,
                },
            ),
        ),
    }
}

impl Processor {
    /// No usage in progress; the interaction period starts now.
    pub fn new(now: Timestamp) -> (r: Processor)
        ensures
            r == (Processor { current_usage: None, interaction_start: now }),
    {
        Processor { current_usage: None, interaction_start: now }
    }

    /// A foreground switch at `at`: the usage in progress ends at `at`, and
    /// is returned to be saved.
    pub fn end_current_usage(&mut self, at: Timestamp) -> (r: Option<Usage>)
        ensures
            (*final(self), r) == ended_usage(*old(self), at),
    {
        match self.current_usage {
            Some(u) => {
                let ended = Usage { end: at, ..u };
                self.current_usage = Some(ended);
                Some(ended)
            },
            None => None,
        }
    }

    /// A new usage of the session starts at `at` (with no identifier yet).
    pub fn start_usage(&mut self, session: u64, at: Timestamp)
        ensures
            *final(self) == started_usage(*old(self), session, at),
    {
        self.current_usage = Some(Usage { id: 0, session, start: at, end: at });
    }

    /// An interaction state change at `at`: becoming active starts the
    /// interaction period; becoming idle ends it, and returns it to be saved.
    pub fn interaction_change(&mut self, at: Timestamp, change: InteractionStateChange) -> (r: Option<InteractionPeriod>)
        ensures
            (*final(self), r) == changed_interaction(*old(self), at, change),
    {
        match change {
            InteractionStateChange::Active => {
                self.interaction_start = at;
                None
            },
            InteractionStateChange::Idle { mouseclicks, keystrokes } => Some(
                InteractionPeriod {
                    id: 0,
                    start: self.interaction_start,
                    end: at,
                    mouseclicks: mouseclicks as u64,
                    keystrokes: keystrokes as u64,
                },
            ),
        }
    }
}

/// What looking up the app of an identity gave: the app recorded with it, or
/// the identifier of an empty app inserted for it.
#[derive(Clone, Debug)]
pub enum FoundOrInserted {
    Found(App),
    Inserted(u64),
}

/// The app of a process with the identity, given what the lookup gave: the
/// recorded app as it is; or, for an inserted app, one with that identifier,
/// the identity and no details yet. The second result tells whether the
/// app's details are to be requested, which is so exactly for an inserted app.
pub fn process_app(identity: AppIdentity, lookup: FoundOrInserted) -> (r: (App, bool))
    ensures
        match lookup {
            FoundOrInserted::Found(a) => r.0 == a && !r.1,
            FoundOrInserted::Inserted(id) => {
                &&& r.1
                &&& r.0.id == id
                &&& r.0.identity == identity
                &&& r.0.name@ == Seq::<char>::empty()
                &&& r.0.description@ == Seq::<char>::empty()
                &&& r.0.company@ == Seq::<char>::empty()
                &&& r.0.color is None
            },
        },
{
    match lookup {
        FoundOrInserted::Found(a) => (a, false),
        FoundOrInserted::Inserted(id) => (
            App {
                id,
                name: String::new(),
                description: String::new(),
                company: String::new(),
                color: None,
                identity,
            },
            true,
        ),
    }
}

/// A usage that starts on one foreground switch is saved, on the next, as
/// running from the first switch to the second.
pub proof fn law_usage_spans_between_switches(p: Processor, session: u64, start: Timestamp, end: Timestamp)
    ensures
        ended_usage(started_usage(p, session, start), end).1 == Some(
            Usage { id: 0, session, start, end },
        ),
{
}

/// An interaction period that starts when the user becomes active is saved,
/// when the user becomes idle, as running from the one change to the other
/// with the counts of the idle change.
pub proof fn law_interaction_period_spans_active_to_idle(
    p: Processor,
    start: Timestamp,
    end: Timestamp,
    mouseclicks: u32,
    keystrokes: u32,
)
    ensures
        changed_interaction(
            changed_interaction(p, start, InteractionStateChange::Active).0,
            end,
            InteractionStateChange::Idle { mouseclicks, keystrokes },
        ).1 == Some(
            InteractionPeriod {
                id: 0,
                start,
                end,
                mouseclicks: mouseclicks as u64,
                keystrokes: keystrokes as u64,
            },
        ),
{
}

} // verus!
