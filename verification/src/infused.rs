//! Entities infused with additional information computed from other tables,
//! and the options that create or update them.
use vstd::prelude::*;

use crate::entities::{Color, Duration, Id, Target, TimeFrame, Timestamp, TriggerAction};

verus! {

/// Value per common periods
#[derive(Clone, Copy, Debug, PartialEq, Eq, Structural)]
pub struct ValuePerPeriod<T> {
    /// Value today
    pub today: T,
    /// Value this week
    pub week: T,
    /// Value this month
    pub month: T,
}

impl Default for ValuePerPeriod<i64> {
    /// Zero for every period.
    fn default() -> (r: ValuePerPeriod<i64>)
        ensures
            r == (ValuePerPeriod::<i64> { today: 0, week: 0, month: 0 }),
    {
        ValuePerPeriod { today: 0, week: 0, month: 0 }
    }
}

/// Status of an Alert in its current time frame
#[derive(Clone, Copy, Debug, PartialEq, Eq, Structural)]
pub enum AlertTriggerStatus {
    /// Hit at the timestamp
    Hit { timestamp: Timestamp },
    /// Ignored at the timestamp
    Ignored { timestamp: Timestamp },
    /// Not yet hit
    Untriggered,
}

impl AlertTriggerStatus {
    /// Decodes the status from the `alert_status` (the reason of the latest
    /// event in the time frame, if any) and `alert_status_timestamp` columns:
    /// reason 0 is a hit, reason 1 an ignore, anything else untriggered.
    pub fn from_row(alert_status: Option<i64>, alert_status_timestamp: Timestamp) -> (r:
        AlertTriggerStatus)
        ensures
            r == (match alert_status {
                Some(0) => AlertTriggerStatus::Hit { timestamp: alert_status_timestamp },
                Some(1) => AlertTriggerStatus::Ignored { timestamp: alert_status_timestamp },
                _ => AlertTriggerStatus::Untriggered,
            }),
    {
        match alert_status {
            Some(0) => AlertTriggerStatus::Hit { timestamp: alert_status_timestamp },
            Some(1) => AlertTriggerStatus::Ignored { timestamp: alert_status_timestamp },
            _ => AlertTriggerStatus::Untriggered,
        }
    }
}

/// Status of a Reminder in its current time frame
#[derive(Clone, Copy, Debug, PartialEq, Eq, Structural)]
pub enum ReminderTriggerStatus {
    /// Hit at the timestamp
    Hit { timestamp: Timestamp },
    /// Ignored at the timestamp; `ignored_by_alert` when it is ignored
    /// because its alert was ignored.
    Ignored { timestamp: Timestamp, ignored_by_alert: bool },
    /// Not yet hit
    Untriggered,
}

impl ReminderTriggerStatus {
    /// Decodes the status from the `reminder_status`,
    /// `reminder_status_timestamp` and `reminder_status_alert_ignored`
    /// columns: reason 0 is a hit, reason 1 an ignore, anything else
    /// untriggered.
    pub fn from_row(
        reminder_status: Option<i64>,
        reminder_status_timestamp: Timestamp,
        reminder_status_alert_ignored: bool,
    ) -> (r: ReminderTriggerStatus)
        ensures
            r == (match reminder_status {
                Some(0) => ReminderTriggerStatus::Hit { timestamp: reminder_status_timestamp },
                Some(1) => ReminderTriggerStatus::Ignored {
                    timestamp: reminder_status_timestamp,
                    ignored_by_alert: reminder_status_alert_ignored,
                },
                _ => ReminderTriggerStatus::Untriggered,
            }),
    {
        match reminder_status {
            Some(0) => ReminderTriggerStatus::Hit { timestamp: reminder_status_timestamp },
            Some(1) => ReminderTriggerStatus::Ignored {
                timestamp: reminder_status_timestamp,
                ignored_by_alert: reminder_status_alert_ignored,
            },
            _ => ReminderTriggerStatus::Untriggered,
        }
    }
}

/// Duration grouped into a target
#[derive(Clone, Copy, Debug, PartialEq, Eq, Structural)]
pub struct WithDuration {
    /// Target Identifier
    pub id: Id,
    /// Duration value
    pub duration: Duration,
}

/// Duration grouped into target, period chunks
#[derive(Clone, Copy, Debug, PartialEq, Eq, Structural)]
pub struct WithGroupedDuration {
    /// Target Identifier
    pub id: Id,
    /// Time Period group
    pub group: Timestamp,
    /// Duration value
    pub duration: Duration,
}

/// An Alert with its reminders, status and event counts
#[derive(Clone, Debug)]
pub struct Alert {
    pub id: Id,
    pub target: Target,
    pub usage_limit: Duration,
    pub time_frame: TimeFrame,
    pub trigger_action: TriggerAction,
    pub created_at: Timestamp,
    pub updated_at: Timestamp,
    /// Linked reminders
    pub reminders: Vec<Reminder>,
    /// Status in the current time frame
    pub status: AlertTriggerStatus,
    /// Number of hits today, this week and this month
    pub events: ValuePerPeriod<i64>,
}

/// A Reminder with its status and event counts
#[derive(Clone, Debug)]
pub struct Reminder {
    pub id: Id,
    pub alert_id: Id,
    /// Threshold as 0-1 ratio of the Usage Limit, held as the bits of its
    /// IEEE-754 double
    pub threshold_bits: u64,
    /// Message to send when the threshold is reached
    pub message: String,
    pub created_at: Timestamp,
    pub updated_at: Timestamp,
    /// Status in the current time frame
    pub status: ReminderTriggerStatus,
    /// Number of hits today, this week and this month
    pub events: ValuePerPeriod<i64>,
}

/// Options to create a new Alert
#[derive(Clone, Debug)]
pub struct CreateAlert {
    pub target: Target,
    pub usage_limit: Duration,
    pub time_frame: TimeFrame,
    pub trigger_action: TriggerAction,
    pub reminders: Vec<CreateReminder>,
    /// Whether to ignore the trigger in the current time frame
    pub ignore_trigger: bool,
}

/// Options to create a new Reminder
#[derive(Clone, Debug)]
pub struct CreateReminder {
    /// Threshold, as the bits of its IEEE-754 double
    pub threshold_bits: u64,
    pub message: String,
    /// Whether to ignore the trigger in the current time frame
    pub ignore_trigger: bool,
}

/// Options to update an Alert
#[derive(Clone, Debug)]
pub struct UpdatedAlert {
    pub id: Id,
    pub target: Target,
    pub usage_limit: Duration,
    pub time_frame: TimeFrame,
    pub trigger_action: TriggerAction,
    pub reminders: Vec<UpdatedReminder>,
    /// Whether to ignore the trigger in the current time frame
    pub ignore_trigger: bool,
}

/// Options to update a Reminder; a reminder without an identifier is new
#[derive(Clone, Debug)]
pub struct UpdatedReminder {
    pub id: Option<Id>,
    /// Threshold, as the bits of its IEEE-754 double
    pub threshold_bits: u64,
    pub message: String,
    /// Whether to ignore the trigger in the current time frame
    pub ignore_trigger: bool,
}


/// List of identifiers, as read from a comma-separated column
#[derive(Clone, Debug)]
pub struct RefVec(pub Vec<Id>);

/// Options to update an App
#[derive(Clone, Debug)]
pub struct UpdatedApp {
    pub id: Id,
    pub name: String,
    pub description: String,
    pub company: String,
    pub color: Color,
    /// Linked Tag
    pub tag_id: Option<Id>,
}

/// An App with its usage durations
#[derive(Clone, Debug)]
pub struct App {
    /// The App itself
    pub inner: crate::entities::App,
    /// Usage duration today, this week and this month
    pub usages: ValuePerPeriod<Duration>,
}

/// A Tag with its apps and usage durations
#[derive(Clone, Debug)]
pub struct Tag {
    /// The Tag itself
    pub inner: crate::entities::Tag,
    /// Linked apps
    pub apps: RefVec,
    /// Usage duration today, this week and this month
    pub usages: ValuePerPeriod<Duration>,
}

/// Options to create a new Tag
#[derive(Clone, Debug)]
pub struct CreateTag {
    pub name: String,
    pub color: String,
    pub score: i64,
    /// Apps to link to the new tag
    pub apps: Vec<Id>,
}

/// Options to update a Tag
#[derive(Clone, Debug)]
pub struct UpdatedTag {
    pub id: Id,
    pub name: String,
    pub score: i64,
    pub color: String,
}

} // verus!
