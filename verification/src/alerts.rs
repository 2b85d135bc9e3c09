//! Creating and updating alerts with their reminders.
//!
//! Creating or updating an alert is a transaction of writes against the
//! alerts, reminders and event tables. The decisions of that transaction are
//! made here: [`create_alert_plan`] and [`update_alert_plan`] give the writes
//! in order, and an update also gives the resulting alert. A write that
//! inserts a row yields a new identifier, which later writes and the result
//! refer to by [`IdRef`].
//!
//! An alert whose target, usage limit or time frame changes is *upgraded*
//! when it already has events: the old version is made inactive and a new
//! version is inserted, so the events keep describing the old settings.
//! Likewise a reminder whose threshold changes is upgraded when it has
//! events. Only an update that upgrades the alert (or a reminder) writes an
//! ignored event for it, when the update asks to ignore its trigger. On an
//! alert upgrade, that event and the reminders inserted are written under
//! the alert identifier of the request, which is the old version's.
use std::collections::HashMap;
use vstd::prelude::*;

use crate::entities::{Duration, Id, Reason, Target, TimeFrame, Timestamp, TriggerAction};
use crate::infused::{
    Alert, AlertTriggerStatus, CreateAlert, CreateReminder, Reminder, ReminderTriggerStatus,
    UpdatedAlert, UpdatedReminder, ValuePerPeriod,
};

verus! {

/// An identifier, either known or yielded by an insert of the same transaction.
#[derive(Clone, Copy, Debug, PartialEq, Eq, Structural)]
pub enum IdRef {
    /// A row that already exists
    Existing { id: Id },
    /// The alert inserted by this transaction
    NewAlert,
    /// The reminder inserted by this transaction for the request's reminder `index`
    NewReminder { index: usize },
}

/// A write of an alert transaction.
#[derive(Clone, Copy, Debug, PartialEq, Eq, Structural)]
pub enum AlertWrite {
    /// Insert an active alert with the request's target, usage limit, time
    /// frame and trigger action; it yields the new alert's identifier.
    InsertAlert { created_at: Timestamp, updated_at: Timestamp },
    /// Set the alert's target, usage limit, time frame and trigger action to
    /// the request's.
    UpdateAlert { id: Id, updated_at: Timestamp },
    /// Make the alert inactive.
    DeactivateAlert { id: Id, updated_at: Timestamp },
    /// Insert an event of the alert.
    InsertAlertEvent { alert: IdRef, timestamp: Timestamp, reason: Reason },
    /// Insert an active reminder of the alert with the threshold and message
    /// of the request's reminder `index`; it yields that reminder's new
    /// identifier.
    InsertReminder { index: usize, alert: IdRef, created_at: Timestamp, updated_at: Timestamp },
    /// Set the reminder's threshold and message to those of the request's
    /// reminder `index`.
    UpdateReminder { id: Id, index: usize, updated_at: Timestamp },
    /// Make the reminder inactive.
    DeactivateReminder { id: Id, updated_at: Timestamp },
    /// Insert an event of the reminder.
    InsertReminderEvent { reminder: IdRef, timestamp: Timestamp, reason: Reason },
}

// ---------------------------------------------------------------------------
// Creating an alert
// ---------------------------------------------------------------------------

/// The writes for the request's reminder `index` when creating an alert.
pub open spec fn create_reminder_writes(index: int, r: CreateReminder, now: Timestamp) -> Seq<AlertWrite> {
    seq![AlertWrite::InsertReminder { index: index as usize, alert: IdRef::NewAlert, created_at: now, updated_at: now }]
        + if r.ignore_trigger {
        seq![AlertWrite::InsertReminderEvent { reminder: IdRef::NewReminder { index: index as usize }, timestamp: now, reason: Reason::Ignored }]
    } else {
        Seq::empty()
    }
}

/// The writes for the first `n` reminders when creating an alert.
pub open spec fn create_reminders_writes(rs: Seq<CreateReminder>, n: int, now: Timestamp) -> Seq<AlertWrite>
    decreases n,
{
    if n <= 0 {
        Seq::empty()
    } else {
        create_reminders_writes(rs, n - 1, now) + create_reminder_writes(n - 1, rs[n - 1], now)
    }
}

/// The writes that create an alert: the alert, its ignored event when the
/// trigger is ignored, then each reminder with its ignored event when that
/// reminder's trigger is ignored.
pub open spec fn create_alert_writes(alert: CreateAlert, now: Timestamp) -> Seq<AlertWrite> {
    seq![AlertWrite::InsertAlert { created_at: now, updated_at: now }] + (if alert.ignore_trigger {
        seq![AlertWrite::InsertAlertEvent { alert: IdRef::NewAlert, timestamp: now, reason: Reason::Ignored }]
    } else {
        Seq::empty()
    }) + create_reminders_writes(alert.reminders@, alert.reminders@.len() as int, now)
}

/// The writes that create an alert with its reminders at time `now`.
pub fn create_alert_plan(alert: &CreateAlert, now: Timestamp) -> (r: Vec<AlertWrite>)
    ensures
        r@ == create_alert_writes(*alert, now),
{
    let mut w: Vec<AlertWrite> = Vec::new();
    w.push(AlertWrite::InsertAlert { created_at: now, updated_at: now });
    if alert.ignore_trigger {
        w.push(AlertWrite::InsertAlertEvent { alert: IdRef::NewAlert, timestamp: now, reason: Reason::Ignored });
    }
    let ghost head = w@;
    let mut i: usize = 0;
    while i < alert.reminders.len()
        invariant
            i <= alert.reminders.len(),
            w@ == head + create_reminders_writes(alert.reminders@, i as int, now),
        decreases alert.reminders.len() - i,
    {
        w.push(AlertWrite::InsertReminder { index: i, alert: IdRef::NewAlert, created_at: now, updated_at: now });
        if alert.reminders[i].ignore_trigger {
            w.push(AlertWrite::InsertReminderEvent { reminder: IdRef::NewReminder { index: i }, timestamp: now, reason: Reason::Ignored });
        }
        proof {
            assert(w@ =~= head + create_reminders_writes(alert.reminders@, i as int, now)
                + create_reminder_writes(i as int, alert.reminders@[i as int], now));
        }
        i = i + 1;
    }
    assert(w@ =~= create_alert_writes(*alert, now));
    w
}

/// The reminder `k` of the alert that [`create_alert_plan`] created, once its
/// insert yielded `id`: the request's threshold and message, created and
/// updated at `now`, with no events yet, and ignored at `now` when the
/// request asks so.
pub open spec fn created_reminder(alert: CreateAlert, k: int, now: Timestamp, alert_id: Id, id: Id) -> Reminder {
    let r = alert.reminders@[k];
    Reminder {
        id,
        alert_id,
        threshold_bits: r.threshold_bits,
        message: r.message,
        created_at: now,
        updated_at: now,
        status: if r.ignore_trigger {
            ReminderTriggerStatus::Ignored { timestamp: now, ignored_by_alert: alert.ignore_trigger }
        } else {
            ReminderTriggerStatus::Untriggered
        },
        events: ValuePerPeriod { today: 0, week: 0, month: 0 },
    }
}

/// The alert that [`create_alert_plan`] created, once its insert yielded
/// `alert_id` and the insert of each reminder `k` yielded `reminder_ids[k]`:
/// the request's target, usage limit, time frame and trigger action, created
/// and updated at `now`, with no events yet, ignored at `now` when the
/// request asks so, and its reminders in the request's order.
pub fn created_alert(alert: &CreateAlert, now: Timestamp, alert_id: Id, reminder_ids: &Vec<Id>) -> (r: Alert)
    requires
        reminder_ids.len() == alert.reminders.len(),
    ensures
        r.id == alert_id,
        r.target == alert.target,
        r.usage_limit == alert.usage_limit,
        r.time_frame == alert.time_frame,
        r.trigger_action == alert.trigger_action,
        r.created_at == now,
        r.updated_at == now,
        r.status == (if alert.ignore_trigger {
            AlertTriggerStatus::Ignored { timestamp: now }
        } else {
            AlertTriggerStatus::Untriggered
        }),
        r.events == (ValuePerPeriod::<i64> { today: 0, week: 0, month: 0 }),
        r.reminders@.len() == alert.reminders@.len(),
        forall|k: int|
            0 <= k < r.reminders@.len() ==> (#[trigger] r.reminders@[k]).status == (if alert.reminders@[k].ignore_trigger {
                ReminderTriggerStatus::Ignored { timestamp: now, ignored_by_alert: alert.ignore_trigger }
            } else {
                ReminderTriggerStatus::Untriggered
            }),
        forall|k: int| 0 <= k < r.reminders@.len() ==> #[trigger] r.reminders@[k] == created_reminder(
            *alert,
            k,
            now,
            alert_id,
            reminder_ids@[k],
        ),
{
    let mut reminders: Vec<Reminder> = Vec::new();
    let mut k: usize = 0;
    while k < alert.reminders.len()
        invariant
            k <= alert.reminders.len(),
            reminder_ids.len() == alert.reminders.len(),
            reminders@.len() == k,
            forall|j: int| 0 <= j < k ==> #[trigger] reminders@[j] == created_reminder(
                *alert,
                j,
                now,
                alert_id,
                reminder_ids@[j],
            ),
        decreases alert.reminders.len() - k,
    {
        let c = &alert.reminders[k];
        reminders.push(
            Reminder {
                id: reminder_ids[k],
                alert_id,
                threshold_bits: c.threshold_bits,
                message: c.message.clone(),
                created_at: now,
                updated_at: now,
                status: if c.ignore_trigger {
                    ReminderTriggerStatus::Ignored { timestamp: now, ignored_by_alert: alert.ignore_trigger }
                } else {
                    ReminderTriggerStatus::Untriggered
                },
                events: ValuePerPeriod { today: 0, week: 0, month: 0 },
            },
        );
        k = k + 1;
    }
    Alert {
        id: alert_id,
        target: alert.target,
        usage_limit: alert.usage_limit,
        time_frame: alert.time_frame,
        trigger_action: clone_action(&alert.trigger_action),
        created_at: now,
        updated_at: now,
        reminders,
        status: if alert.ignore_trigger {
            AlertTriggerStatus::Ignored { timestamp: now }
        } else {
            AlertTriggerStatus::Untriggered
        },
        events: ValuePerPeriod { today: 0, week: 0, month: 0 },
    }
}

// ---------------------------------------------------------------------------
// Updating an alert
// ---------------------------------------------------------------------------

/// The double with these bits is NaN.
pub open spec fn f64_bits_is_nan(b: u64) -> bool {
    (b & 0x7FF0_0000_0000_0000u64) == 0x7FF0_0000_0000_0000u64 && (b & 0x000F_FFFF_FFFF_FFFFu64)
        != 0
}

/// The double with these bits is a zero (of either sign).
pub open spec fn f64_bits_is_zero(b: u64) -> bool {
    (b & 0x7FFF_FFFF_FFFF_FFFFu64) == 0
}

/// The doubles with these bits compare equal with `==` (IEEE-754 equality:
/// NaN equals nothing, and the two zeros are equal).
pub open spec fn f64_bits_eq(a: u64, b: u64) -> bool {
    !f64_bits_is_nan(a) && !f64_bits_is_nan(b) && (a == b || (f64_bits_is_zero(a)
        && f64_bits_is_zero(b)))
}

/// IEEE-754 equality of two doubles given by their bits.
pub fn f64_bits_equal(a: u64, b: u64) -> (r: bool)
    ensures
        r == f64_bits_eq(a, b),
{
    let a_nan = (a & 0x7FF0_0000_0000_0000u64) == 0x7FF0_0000_0000_0000u64 && (a
        & 0x000F_FFFF_FFFF_FFFFu64) != 0;
    let b_nan = (b & 0x7FF0_0000_0000_0000u64) == 0x7FF0_0000_0000_0000u64 && (b
        & 0x000F_FFFF_FFFF_FFFFu64) != 0;
    let a_zero = (a & 0x7FFF_FFFF_FFFF_FFFFu64) == 0;
    let b_zero = (b & 0x7FFF_FFFF_FFFF_FFFFu64) == 0;
    !a_nan && !b_nan && (a == b || (a_zero && b_zero))
}

/// The reminder with the identifier among the previous reminders (the last
/// one, if the identifier repeats).
pub open spec fn find_reminder(rs: Seq<Reminder>, id: Id) -> Option<Reminder>
    decreases rs.len(),
{
    if rs.len() == 0 {
        None
    } else if rs.last().id == id {
        Some(rs.last())
    } else {
        find_reminder(rs.drop_last(), id)
    }
}

/// Some reminder of the request has the identifier.
pub open spec fn request_has_reminder(next: Seq<UpdatedReminder>, id: Id) -> bool {
    exists|k: int| 0 <= k < next.len() && #[trigger] next[k].id == Some(id)
}

/// The alert is upgraded: its target, usage limit or time frame changes and
/// it already has events.
pub open spec fn alert_upgrades(prev: Alert, next: UpdatedAlert, has_alert_events: bool) -> bool {
    (prev.target != next.target || prev.usage_limit != next.usage_limit || prev.time_frame
        != next.time_frame) && has_alert_events
}

/// A kept reminder is upgraded: its threshold changes and it already has events.
pub open spec fn reminder_upgrades(r: UpdatedReminder, p: Reminder, has_events: bool) -> bool {
    has_events && !f64_bits_eq(r.threshold_bits, p.threshold_bits)
}

/// The status of a reminder that is inserted by the update.
pub open spec fn fresh_reminder_status(r: UpdatedReminder, next: UpdatedAlert, now: Timestamp) -> ReminderTriggerStatus {
    if r.ignore_trigger {
        ReminderTriggerStatus::Ignored { timestamp: now, ignored_by_alert: next.ignore_trigger }
    } else {
        ReminderTriggerStatus::Untriggered
    }
}

pub open spec fn zero_counts() -> ValuePerPeriod<i64> {
    ValuePerPeriod { today: 0, week: 0, month: 0 }
}

/// The request's reminder `k` gets a new identifier.
pub open spec fn reminder_is_new(
    prev: Alert,
    next: UpdatedAlert,
    has_events: Seq<bool>,
    upgrade: bool,
    k: int,
) -> bool {
    let r = next.reminders@[k];
    upgrade || match r.id {
        Some(id) => reminder_upgrades(r, find_reminder(prev.reminders@, id)->0, has_events[k]),
        None => true,
    }
}

/// The updated reminder `k`; a new reminder has identifier 0, and when the
/// alert is upgraded its alert identifier is 0 too: both stand for the
/// identifiers that the inserts yield.
pub open spec fn updated_reminder(
    prev: Alert,
    next: UpdatedAlert,
    has_events: Seq<bool>,
    upgrade: bool,
    now: Timestamp,
    k: int,
) -> Reminder {
    let r = next.reminders@[k];
    if upgrade {
        Reminder {
            id: 0,
            alert_id: 0,
            threshold_bits: r.threshold_bits,
            message: r.message,
            created_at: match r.id {
                Some(id) => match find_reminder(prev.reminders@, id) {
                    Some(p) => p.created_at,
                    None => now,
                },
                None => now,
            },
            updated_at: now,
            status: fresh_reminder_status(r, next, now),
            events: zero_counts(),
        }
    } else {
        match r.id {
            Some(id) => {
                let p = find_reminder(prev.reminders@, id)->0;
                if reminder_upgrades(r, p, has_events[k]) {
                    Reminder {
                        id: 0,
                        alert_id: next.id,
                        threshold_bits: r.threshold_bits,
                        message: r.message,
                        created_at: p.created_at,
                        updated_at: now,
                        status: fresh_reminder_status(r, next, now),
                        events: zero_counts(),
                    }
                } else {
                    Reminder {
                        id,
                        alert_id: next.id,
                        threshold_bits: r.threshold_bits,
                        message: r.message,
                        created_at: p.created_at,
                        updated_at: now,
                        status: p.status,
                        events: p.events,
                    }
                }
            },
            None => Reminder {
                id: 0,
                alert_id: next.id,
                threshold_bits: r.threshold_bits,
                message: r.message,
                created_at: now,
                updated_at: now,
                status: fresh_reminder_status(r, next, now),
                events: zero_counts(),
            },
        }
    }
}

/// The writes that make the request's reminder `k` of an updated alert.
pub open spec fn update_reminder_writes(
    prev: Alert,
    next: UpdatedAlert,
    has_events: Seq<bool>,
    upgrade: bool,
    now: Timestamp,
    k: int,
) -> Seq<AlertWrite> {
    let r = next.reminders@[k];
    let ignored_event = if r.ignore_trigger {
        seq![AlertWrite::InsertReminderEvent { reminder: IdRef::NewReminder { index: k as usize }, timestamp: now, reason: Reason::Ignored }]
    } else {
        Seq::empty()
    };
    let insert = AlertWrite::InsertReminder {
        index: k as usize,
        alert: IdRef::Existing { id: next.id },
        created_at: updated_reminder(prev, next, has_events, upgrade, now, k).created_at,
        updated_at: now,
    };
    if upgrade {
        seq![insert] + ignored_event
    } else {
        match r.id {
            Some(id) => if reminder_is_new(prev, next, has_events, upgrade, k) {
                seq![AlertWrite::DeactivateReminder { id, updated_at: now }, insert] + ignored_event
            } else {
                seq![AlertWrite::UpdateReminder { id, index: k as usize, updated_at: now }]
            },
            None => seq![insert] + ignored_event,
        }
    }
}

/// The writes for the first `n` reminders of the request.
pub open spec fn update_reminders_writes(
    prev: Alert,
    next: UpdatedAlert,
    has_events: Seq<bool>,
    upgrade: bool,
    now: Timestamp,
    n: int,
) -> Seq<AlertWrite>
    decreases n,
{
    if n <= 0 {
        Seq::empty()
    } else {
        update_reminders_writes(prev, next, has_events, upgrade, now, n - 1)
            + update_reminder_writes(prev, next, has_events, upgrade, now, n - 1)
    }
}

/// The writes that make the first `n` previous reminders that the request
/// drops inactive.
pub open spec fn removed_reminders_writes(prev: Seq<Reminder>, next: Seq<UpdatedReminder>, now: Timestamp, n: int) -> Seq<AlertWrite>
    decreases n,
{
    if n <= 0 {
        Seq::empty()
    } else {
        removed_reminders_writes(prev, next, now, n - 1) + if request_has_reminder(next, prev[n - 1].id) {
            Seq::empty()
        } else {
            seq![AlertWrite::DeactivateReminder { id: prev[n - 1].id, updated_at: now }]
        }
    }
}

/// The writes that update an alert. An upgrade makes the old version
/// inactive, inserts the new one (keeping the creation time), its ignored
/// event when asked, and inserts every reminder of the request afresh. An
/// update in place sets the alert's settings, makes the dropped reminders
/// inactive, then updates, upgrades or inserts each reminder of the request.
pub open spec fn update_alert_writes(
    prev: Alert,
    next: UpdatedAlert,
    has_alert_events: bool,
    has_events: Seq<bool>,
    now: Timestamp,
) -> Seq<AlertWrite> {
    let upgrade = alert_upgrades(prev, next, has_alert_events);
    let n = next.reminders@.len() as int;
    if upgrade {
        seq![
            AlertWrite::DeactivateAlert { id: next.id, updated_at: now },
            AlertWrite::InsertAlert { created_at: prev.created_at, updated_at: now },
        ] + (if next.ignore_trigger {
            seq![AlertWrite::InsertAlertEvent { alert: IdRef::Existing { id: next.id }, timestamp: now, reason: Reason::Ignored }]
        } else {
            Seq::empty()
        }) + update_reminders_writes(prev, next, has_events, upgrade, now, n)
    } else {
        seq![AlertWrite::UpdateAlert { id: next.id, updated_at: now }] + removed_reminders_writes(
            prev.reminders@,
            next.reminders@,
            now,
            prev.reminders@.len() as int,
        ) + update_reminders_writes(prev, next, has_events, upgrade, now, n)
    }
}

/// Every reminder of the request that has an identifier is one of the
/// previous reminders.
pub open spec fn known_reminder_ids(prev: Alert, next: UpdatedAlert) -> bool {
    forall|k: int|
        0 <= k < next.reminders@.len() ==> match (#[trigger] next.reminders@[k]).id {
            Some(id) => find_reminder(prev.reminders@, id) is Some,
            None => true,
        }
}

/// The plan of an alert update: its writes in order, and the resulting alert.
pub struct UpdateAlertPlan {
    /// The writes, in order
    pub writes: Vec<AlertWrite>,
    /// The updated alert. When `new_alert` holds, its identifier and its
    /// reminders' alert identifiers are 0, standing for the identifier that
    /// the alert insert yields; each reminder `k` for which `new_reminders[k]`
    /// holds has identifier 0, standing for the one that its insert yields.
    pub alert: Alert,
    /// The alert gets a new identifier
    pub new_alert: bool,
    /// Which reminders get a new identifier
    pub new_reminders: Vec<bool>,
}

/// The index of the reminder with the identifier (the last one, if it repeats).
fn find_reminder_index(rs: &Vec<Reminder>, id: Id) -> (r: Option<usize>)
    ensures
        match r {
            Some(i) => i < rs.len() && find_reminder(rs@, id) == Some(rs@[i as int]),
            None => find_reminder(rs@, id) is None,
        },
{
    let mut i: usize = rs.len();
    assert(rs@.take(i as int) =~= rs@);
    while i > 0
        invariant
            i <= rs.len(),
            find_reminder(rs@, id) == find_reminder(rs@.take(i as int), id),
        decreases i,
    {
        assert(rs@.take(i as int).last() == rs@[i - 1]);
        if rs[i - 1].id == id {
            return Some(i - 1);
        }
        assert(rs@.take(i as int).drop_last() =~= rs@.take(i - 1));
        i = i - 1;
    }
    None
}

/// Some reminder of the request has the identifier.
fn request_has_reminder_exec(next: &Vec<UpdatedReminder>, id: Id) -> (r: bool)
    ensures
        r == request_has_reminder(next@, id),
{
    let mut k: usize = 0;
    while k < next.len()
        invariant
            k <= next.len(),
            forall|j: int| 0 <= j < k ==> #[trigger] next@[j].id != Some(id),
        decreases next.len() - k,
    {
        match next[k].id {
            Some(x) => {
                if x == id {
                    assert(next@[k as int].id == Some(id));
                    return true;
                }
            },
            None => {},
        }
        k = k + 1;
    }
    false
}

fn clone_action(a: &TriggerAction) -> (r: TriggerAction)
    ensures
        r == *a,
{
    match a {
        TriggerAction::Kill => TriggerAction::Kill,
        TriggerAction::Dim { duration } => TriggerAction::Dim { duration: *duration },
        TriggerAction::Message { content } => TriggerAction::Message { content: content.clone() },
    }
}

/// The reminder and the writes for the request's reminder `k`; whether the
/// reminder gets a new identifier.
fn plan_reminder(
    prev: &Alert,
    next: &UpdatedAlert,
    reminder_has_events: &Vec<bool>,
    upgrade: bool,
    now: Timestamp,
    k: usize,
    writes: &mut Vec<AlertWrite>,
) -> (r: (Reminder, bool))
    requires
        k < next.reminders.len(),
        reminder_has_events.len() == next.reminders.len(),
        upgrade || known_reminder_ids(*prev, *next),
    ensures
        final(writes)@ == old(writes)@ + update_reminder_writes(*prev, *next, reminder_has_events@, upgrade, now, k as int),
        r.0 == updated_reminder(*prev, *next, reminder_has_events@, upgrade, now, k as int),
        r.1 == reminder_is_new(*prev, *next, reminder_has_events@, upgrade, k as int),
{
    let r = &next.reminders[k];
    let ghost has_events = reminder_has_events@;
    let fresh_status = if r.ignore_trigger {
        ReminderTriggerStatus::Ignored { timestamp: now, ignored_by_alert: next.ignore_trigger }
    } else {
        ReminderTriggerStatus::Untriggered
    };
    let ignored_event = AlertWrite::InsertReminderEvent { reminder: IdRef::NewReminder { index: k }, timestamp: now, reason: Reason::Ignored };
    let zero = ValuePerPeriod { today: 0i64, week: 0i64, month: 0i64 };
    let made: Reminder;
    let is_new: bool;
    if upgrade {
        let created_at = match r.id {
            Some(id) => match find_reminder_index(&prev.reminders, id) {
                Some(i) => prev.reminders[i].created_at,
                None => now,
            },
            None => now,
        };
        made = Reminder {
            id: 0,
            alert_id: 0,
            threshold_bits: r.threshold_bits,
            message: r.message.clone(),
            created_at,
            updated_at: now,
            status: fresh_status,
            events: zero,
        };
        is_new = true;
        writes.push(AlertWrite::InsertReminder { index: k, alert: IdRef::Existing { id: next.id }, created_at, updated_at: now });
        if r.ignore_trigger {
            writes.push(ignored_event);
        }
    } else {
        match r.id {
            Some(id) => {
                assert(next.reminders@[k as int].id matches Some(id));
                let i = match find_reminder_index(&prev.reminders, id) {
                    Some(i) => i,
                    None => {
                        assert(false);
                        0
                    },
                };
                let p = &prev.reminders[i];
                let changed = reminder_has_events[k] && !f64_bits_equal(r.threshold_bits, p.threshold_bits);
                if changed {
                    made = Reminder {
                        id: 0,
                        alert_id: next.id,
                        threshold_bits: r.threshold_bits,
                        message: r.message.clone(),
                        created_at: p.created_at,
                        updated_at: now,
                        status: fresh_status,
                        events: zero,
                    };
                    is_new = true;
                    writes.push(AlertWrite::DeactivateReminder { id, updated_at: now });
                    writes.push(AlertWrite::InsertReminder { index: k, alert: IdRef::Existing { id: next.id }, created_at: p.created_at, updated_at: now });
                    if r.ignore_trigger {
                        writes.push(ignored_event);
                    }
                } else {
                    made = Reminder {
                        id,
                        alert_id: next.id,
                        threshold_bits: r.threshold_bits,
                        message: r.message.clone(),
                        created_at: p.created_at,
                        updated_at: now,
                        status: p.status,
                        events: p.events,
                    };
                    is_new = false;
                    writes.push(AlertWrite::UpdateReminder { id, index: k, updated_at: now });
                }
            },
            None => {
                made = Reminder {
                    id: 0,
                    alert_id: next.id,
                    threshold_bits: r.threshold_bits,
                    message: r.message.clone(),
                    created_at: now,
                    updated_at: now,
                    status: fresh_status,
                    events: zero,
                };
                is_new = true;
                writes.push(AlertWrite::InsertReminder { index: k, alert: IdRef::Existing { id: next.id }, created_at: now, updated_at: now });
                if r.ignore_trigger {
                    writes.push(ignored_event);
                }
            },
        }
    }
    proof {
        assert(writes@ =~= old(writes)@ + update_reminder_writes(*prev, *next, has_events, upgrade, now, k as int));
    }
    (made, is_new)
}

/// The writes and the resulting alert of updating alert `prev` to `next` at
/// time `now`, given whether the alert has any events (its own or its
/// reminders') and, for each reminder of the request that has an
/// identifier, whether that reminder has any events.
pub fn update_alert_plan(
    prev: &Alert,
    next: &UpdatedAlert,
    has_alert_events: bool,
    reminder_has_events: &Vec<bool>,
    now: Timestamp,
) -> (r: UpdateAlertPlan)
    requires
        reminder_has_events.len() == next.reminders.len(),
        alert_upgrades(*prev, *next, has_alert_events) || known_reminder_ids(*prev, *next),
    ensures
        r.writes@ == update_alert_writes(*prev, *next, has_alert_events, reminder_has_events@, now),
        r.new_alert == alert_upgrades(*prev, *next, has_alert_events),
        r.new_alert == (has_alert_events && (prev.target != next.target || prev.usage_limit
            != next.usage_limit || prev.time_frame != next.time_frame)),
        r.new_reminders@.len() == next.reminders@.len(),
        r.alert.reminders@.len() == next.reminders@.len(),
        forall|k: int| 0 <= k < next.reminders@.len() ==> {
            &&& #[trigger] r.alert.reminders@[k] == updated_reminder(
                *prev,
                *next,
                reminder_has_events@,
                r.new_alert,
                now,
                k,
            )
            &&& r.new_reminders@[k] == reminder_is_new(*prev, *next, reminder_has_events@, r.new_alert, k)
        },
        r.alert.id == (if r.new_alert { 0 } else { next.id }),
        r.alert.target == next.target,
        r.alert.usage_limit == next.usage_limit,
        r.alert.time_frame == next.time_frame,
        r.alert.trigger_action == next.trigger_action,
        r.alert.created_at == prev.created_at,
        r.alert.updated_at == now,
        r.alert.status == (if r.new_alert {
            if next.ignore_trigger {
                AlertTriggerStatus::Ignored { timestamp: now }
            } else {
                AlertTriggerStatus::Untriggered
            }
        } else {
            prev.status
        }),
        r.alert.events == (if r.new_alert { zero_counts() } else { prev.events }),
{
    let ghost has_events = reminder_has_events@;
    let upgrade = (prev.target != next.target || prev.usage_limit != next.usage_limit
        || prev.time_frame != next.time_frame) && has_alert_events;
    let mut writes: Vec<AlertWrite> = Vec::new();
    if upgrade {
        writes.push(AlertWrite::DeactivateAlert { id: next.id, updated_at: now });
        writes.push(AlertWrite::InsertAlert { created_at: prev.created_at, updated_at: now });
        if next.ignore_trigger {
            writes.push(AlertWrite::InsertAlertEvent { alert: IdRef::Existing { id: next.id }, timestamp: now, reason: Reason::Ignored });
        }
    } else {
        writes.push(AlertWrite::UpdateAlert { id: next.id, updated_at: now });
        let ghost head = writes@;
        let mut j: usize = 0;
        while j < prev.reminders.len()
            invariant
                j <= prev.reminders.len(),
                writes@ == head + removed_reminders_writes(prev.reminders@, next.reminders@, now, j as int),
            decreases prev.reminders.len() - j,
        {
            let id = prev.reminders[j].id;
            if !request_has_reminder_exec(&next.reminders, id) {
                writes.push(AlertWrite::DeactivateReminder { id, updated_at: now });
            }
            assert(writes@ =~= head + removed_reminders_writes(prev.reminders@, next.reminders@, now, j + 1));
            j = j + 1;
        }
    }
    let ghost head = writes@;
    let ghost all = Seq::new(
        next.reminders@.len(),
        |k: int| updated_reminder(*prev, *next, has_events, upgrade, now, k),
    );
    let mut reminders: Vec<Reminder> = Vec::new();
    let mut new_reminders: Vec<bool> = Vec::new();
    let mut k: usize = 0;
    while k < next.reminders.len()
        invariant
            k <= next.reminders.len(),
            has_events == reminder_has_events@,
            has_events.len() == next.reminders.len(),
            upgrade == alert_upgrades(*prev, *next, has_alert_events),
            upgrade || known_reminder_ids(*prev, *next),
            all == Seq::new(
                next.reminders@.len(),
                |k: int| updated_reminder(*prev, *next, has_events, upgrade, now, k),
            ),
            writes@ == head + update_reminders_writes(*prev, *next, has_events, upgrade, now, k as int),
            reminders@ == all.take(k as int),
            new_reminders@.len() == k,
            forall|j: int| 0 <= j < k ==> #[trigger] new_reminders@[j] == reminder_is_new(*prev, *next, has_events, upgrade, j),
        decreases next.reminders.len() - k,
    {
        let ghost spec_r = updated_reminder(*prev, *next, has_events, upgrade, now, k as int);
        let ghost before = writes@;
        let (made, is_new) = plan_reminder(prev, next, reminder_has_events, upgrade, now, k, &mut writes);
        proof {
            assert(writes@ =~= head + update_reminders_writes(*prev, *next, has_events, upgrade, now, k as int)
                + update_reminder_writes(*prev, *next, has_events, upgrade, now, k as int));
            assert(all.take(k + 1) =~= all.take(k as int).push(spec_r));
        }
        reminders.push(made);
        new_reminders.push(is_new);
        k = k + 1;
    }
    assert(reminders@ =~= all);
    assert(writes@ =~= update_alert_writes(*prev, *next, has_alert_events, has_events, now));
    let alert = Alert {
        id: if upgrade { 0 } else { next.id },
        target: next.target,
        usage_limit: next.usage_limit,
        time_frame: next.time_frame,
        trigger_action: clone_action(&next.trigger_action),
        created_at: prev.created_at,
        updated_at: now,
        reminders,
        status: if upgrade {
            if next.ignore_trigger {
                AlertTriggerStatus::Ignored { timestamp: now }
            } else {
                AlertTriggerStatus::Untriggered
            }
        } else {
            prev.status
        },
        events: if upgrade { ValuePerPeriod { today: 0, week: 0, month: 0 } } else { prev.events },
    };
    UpdateAlertPlan { writes, alert, new_alert: upgrade, new_reminders }
}

/// The reminder with its identifiers resolved: a new reminder takes the
/// identifier its insert yielded, and when the alert is new the reminder
/// belongs to the new alert.
pub open spec fn resolved_reminder(r: Reminder, is_new: bool, new_id: Id, new_alert: bool, new_alert_id: Id) -> Reminder {
    Reminder {
        id: if is_new { new_id } else { r.id },
        alert_id: if new_alert { new_alert_id } else { r.alert_id },
        ..r
    }
}

impl UpdateAlertPlan {
    /// The updated alert, given the identifier that the alert insert yielded
    /// (used only when the alert is new) and, for each reminder, the
    /// identifier that its insert yielded (used only for new reminders).
    pub fn finish(self, new_alert_id: Id, new_reminder_ids: &Vec<Id>) -> (r: Alert)
        requires
            self.new_reminders@.len() == self.alert.reminders@.len(),
            new_reminder_ids.len() == self.alert.reminders@.len(),
        ensures
            r.id == (if self.new_alert { new_alert_id } else { self.alert.id }),
            r.reminders@.len() == self.alert.reminders@.len(),
            forall|k: int| 0 <= k < r.reminders@.len() ==> #[trigger] r.reminders@[k] == resolved_reminder(
                self.alert.reminders@[k],
                self.new_reminders@[k],
                new_reminder_ids@[k],
                self.new_alert,
                new_alert_id,
            ),
            r.target == self.alert.target,
            r.usage_limit == self.alert.usage_limit,
            r.time_frame == self.alert.time_frame,
            r.trigger_action == self.alert.trigger_action,
            r.created_at == self.alert.created_at,
            r.updated_at == self.alert.updated_at,
            r.status == self.alert.status,
            r.events == self.alert.events,
    {
        let alert = self.alert;
        let mut reminders: Vec<Reminder> = Vec::new();
        let mut k: usize = 0;
        while k < alert.reminders.len()
            invariant
                k <= alert.reminders.len(),
                self.alert == alert,
                self.new_reminders@.len() == alert.reminders@.len(),
                new_reminder_ids.len() == alert.reminders@.len(),
                reminders@.len() == k,
                forall|j: int| 0 <= j < k ==> #[trigger] reminders@[j] == resolved_reminder(
                    alert.reminders@[j],
                    self.new_reminders@[j],
                    new_reminder_ids@[j],
                    self.new_alert,
                    new_alert_id,
                ),
            decreases alert.reminders.len() - k,
        {
            let r = &alert.reminders[k];
            let is_new = self.new_reminders[k];
            reminders.push(
                Reminder {
                    id: if is_new { new_reminder_ids[k] } else { r.id },
                    alert_id: if self.new_alert { new_alert_id } else { r.alert_id },
                    threshold_bits: r.threshold_bits,
                    message: r.message.clone(),
                    created_at: r.created_at,
                    updated_at: r.updated_at,
                    status: r.status,
                    events: r.events,
                },
            );
            k = k + 1;
        }
        Alert {
            id: if self.new_alert { new_alert_id } else { alert.id },
            target: alert.target,
            usage_limit: alert.usage_limit,
            time_frame: alert.time_frame,
            trigger_action: clone_action(&alert.trigger_action),
            created_at: alert.created_at,
            updated_at: alert.updated_at,
            reminders,
            status: alert.status,
            events: alert.events,
        }
    }
}

// ---------------------------------------------------------------------------
// Laws
// ---------------------------------------------------------------------------

pub open spec fn no_alert_event(s: Seq<AlertWrite>) -> bool {
    forall|i: int| 0 <= i < s.len() ==> !(#[trigger] s[i] is InsertAlertEvent)
}

proof fn lemma_no_alert_event_concat(a: Seq<AlertWrite>, b: Seq<AlertWrite>)
    requires
        no_alert_event(a),
        no_alert_event(b),
    ensures
        no_alert_event(a + b),
{
    assert forall|i: int| 0 <= i < (a + b).len() implies !(#[trigger] (a + b)[i] is InsertAlertEvent) by {
        if i < a.len() {
            assert((a + b)[i] == a[i]);
        } else {
            assert((a + b)[i] == b[i - a.len()]);
        }
    }
}

proof fn lemma_reminders_no_alert_event(
    prev: Alert,
    next: UpdatedAlert,
    has_events: Seq<bool>,
    upgrade: bool,
    now: Timestamp,
    n: int,
)
    ensures
        no_alert_event(update_reminders_writes(prev, next, has_events, upgrade, now, n)),
    decreases n,
{
    if n > 0 {
        lemma_reminders_no_alert_event(prev, next, has_events, upgrade, now, n - 1);
        lemma_no_alert_event_concat(
            update_reminders_writes(prev, next, has_events, upgrade, now, n - 1),
            update_reminder_writes(prev, next, has_events, upgrade, now, n - 1),
        );
    }
}

proof fn lemma_removed_no_alert_event(prev: Seq<Reminder>, next: Seq<UpdatedReminder>, now: Timestamp, n: int)
    ensures
        no_alert_event(removed_reminders_writes(prev, next, now, n)),
    decreases n,
{
    if n > 0 {
        lemma_removed_no_alert_event(prev, next, now, n - 1);
        lemma_no_alert_event_concat(
            removed_reminders_writes(prev, next, now, n - 1),
            if request_has_reminder(next, prev[n - 1].id) {
                Seq::empty()
            } else {
                seq![AlertWrite::DeactivateReminder { id: prev[n - 1].id, updated_at: now }]
            },
        );
    }
}

/// An update writes an ignored event for the alert only when it upgrades the
/// alert and the trigger is to be ignored; then it writes exactly that event.
pub proof fn law_update_ignores_alert_only_on_upgrade(
    prev: Alert,
    next: UpdatedAlert,
    has_alert_events: bool,
    has_events: Seq<bool>,
    now: Timestamp,
)
    ensures
        (exists|i: int|
            0 <= i < update_alert_writes(prev, next, has_alert_events, has_events, now).len()
                && #[trigger] update_alert_writes(prev, next, has_alert_events, has_events, now)[i] is InsertAlertEvent)
            <==> (alert_upgrades(prev, next, has_alert_events) && next.ignore_trigger),
        alert_upgrades(prev, next, has_alert_events) && next.ignore_trigger ==> update_alert_writes(prev, next, has_alert_events, has_events, now)[2]
            == (AlertWrite::InsertAlertEvent { alert: IdRef::Existing { id: next.id }, timestamp: now, reason: Reason::Ignored }),
{
    let upgrade = alert_upgrades(prev, next, has_alert_events);
    let n = next.reminders@.len() as int;
    let w = update_alert_writes(prev, next, has_alert_events, has_events, now);
    let rw = update_reminders_writes(prev, next, has_events, upgrade, now, n);
    lemma_reminders_no_alert_event(prev, next, has_events, upgrade, now, n);
    if upgrade {
        let head = seq![
            AlertWrite::DeactivateAlert { id: next.id, updated_at: now },
            AlertWrite::InsertAlert { created_at: prev.created_at, updated_at: now },
        ];
        if next.ignore_trigger {
            let e = AlertWrite::InsertAlertEvent { alert: IdRef::Existing { id: next.id }, timestamp: now, reason: Reason::Ignored };
            assert(w == head + seq![e] + rw);
            assert(w[2] == e);
        } else {
            assert(no_alert_event(head));
            assert(w =~= head + rw);
            lemma_no_alert_event_concat(head, rw);
        }
    } else {
        let head = seq![AlertWrite::UpdateAlert { id: next.id, updated_at: now }];
        let removed = removed_reminders_writes(prev.reminders@, next.reminders@, now, prev.reminders@.len() as int);
        lemma_removed_no_alert_event(prev.reminders@, next.reminders@, now, prev.reminders@.len() as int);
        assert(no_alert_event(head));
        lemma_no_alert_event_concat(head, removed);
        lemma_no_alert_event_concat(head + removed, rw);
        assert(w == head + removed + rw);
    }
}

proof fn lemma_removed_deactivates(prev: Seq<Reminder>, next: Seq<UpdatedReminder>, now: Timestamp, n: int, i: int)
    requires
        0 <= i < n <= prev.len(),
        !request_has_reminder(next, prev[i].id),
    ensures
        removed_reminders_writes(prev, next, now, n).contains(
            AlertWrite::DeactivateReminder { id: prev[i].id, updated_at: now },
        ),
    decreases n,
{
    let w = removed_reminders_writes(prev, next, now, n);
    let before = removed_reminders_writes(prev, next, now, n - 1);
    let tail = if request_has_reminder(next, prev[n - 1].id) {
        Seq::empty()
    } else {
        seq![AlertWrite::DeactivateReminder { id: prev[n - 1].id, updated_at: now }]
    };
    assert(w == before + tail);
    if i < n - 1 {
        lemma_removed_deactivates(prev, next, now, n - 1, i);
        let k = choose|k: int| 0 <= k < before.len() && before[k] == AlertWrite::DeactivateReminder { id: prev[i].id, updated_at: now };
        assert(w[k] == before[k]);
    } else {
        assert(w[before.len() as int] == tail[0]);
    }
}

/// An update that does not upgrade the alert makes every previous reminder
/// that the request drops inactive.
pub proof fn law_update_deactivates_dropped_reminders(
    prev: Alert,
    next: UpdatedAlert,
    has_alert_events: bool,
    has_events: Seq<bool>,
    now: Timestamp,
    i: int,
)
    requires
        !alert_upgrades(prev, next, has_alert_events),
        0 <= i < prev.reminders@.len(),
        !request_has_reminder(next.reminders@, prev.reminders@[i].id),
    ensures
        update_alert_writes(prev, next, has_alert_events, has_events, now).contains(
            AlertWrite::DeactivateReminder { id: prev.reminders@[i].id, updated_at: now },
        ),
{
    let head = seq![AlertWrite::UpdateAlert { id: next.id, updated_at: now }];
    let n = prev.reminders@.len() as int;
    let removed = removed_reminders_writes(prev.reminders@, next.reminders@, now, n);
    let rw = update_reminders_writes(prev, next, has_events, false, now, next.reminders@.len() as int);
    let w = update_alert_writes(prev, next, has_alert_events, has_events, now);
    assert(w == head + removed + rw);
    lemma_removed_deactivates(prev.reminders@, next.reminders@, now, n, i);
    let k = choose|k: int| 0 <= k < removed.len() && removed[k] == AlertWrite::DeactivateReminder { id: prev.reminders@[i].id, updated_at: now };
    assert(w[1 + k] == removed[k]);
}

/// An alert that has events is upgraded when its target, usage limit or
/// time frame changes: the update makes the old version inactive and inserts
/// a new one that keeps the creation time. An alert without events, or one
/// whose target, usage limit and time frame stay, is updated in place.
pub proof fn law_update_upgrades_on_setting_change(
    prev: Alert,
    next: UpdatedAlert,
    has_alert_events: bool,
    has_events: Seq<bool>,
    now: Timestamp,
)
    ensures
        has_alert_events && (prev.target != next.target || prev.usage_limit != next.usage_limit
            || prev.time_frame != next.time_frame) ==> (update_alert_writes(prev, next, has_alert_events, has_events, now)[0]
            == (AlertWrite::DeactivateAlert { id: next.id, updated_at: now }) && update_alert_writes(
            prev,
            next,
            has_alert_events,
            has_events,
            now,
        )[1] == (AlertWrite::InsertAlert { created_at: prev.created_at, updated_at: now })),
        !has_alert_events || (prev.target == next.target && prev.usage_limit == next.usage_limit
            && prev.time_frame == next.time_frame) ==> update_alert_writes(prev, next, has_alert_events, has_events, now)[0]
            == (AlertWrite::UpdateAlert { id: next.id, updated_at: now }),
{
}

/// A reminder of a created alert whose request asks to ignore its trigger is
/// ignored from the creation on, and it is ignored by the alert exactly when
/// the alert is ignored too; any other reminder is untriggered. No reminder
/// of a created alert has events yet.
pub proof fn law_created_reminder_status(alert: CreateAlert, k: int, now: Timestamp, alert_id: Id, id: Id)
    requires
        0 <= k < alert.reminders@.len(),
    ensures
        alert.reminders@[k].ignore_trigger ==> created_reminder(alert, k, now, alert_id, id).status
            == (ReminderTriggerStatus::Ignored { timestamp: now, ignored_by_alert: alert.ignore_trigger }),
        !alert.reminders@[k].ignore_trigger ==> created_reminder(alert, k, now, alert_id, id).status
            == ReminderTriggerStatus::Untriggered,
        created_reminder(alert, k, now, alert_id, id).events == (ValuePerPeriod::<i64> { today: 0, week: 0, month: 0 }),
{
}

// ---------------------------------------------------------------------------
// Listing alerts
// ---------------------------------------------------------------------------

/// An active alert as read from the alerts table, with its status and event
/// counts but without its reminders.
#[derive(Clone, Debug)]
pub struct AlertRow {
    pub id: Id,
    pub target: Target,
    pub usage_limit: Duration,
    pub time_frame: TimeFrame,
    pub trigger_action: TriggerAction,
    pub created_at: Timestamp,
    pub updated_at: Timestamp,
    pub status: AlertTriggerStatus,
    pub events: ValuePerPeriod<i64>,
}

/// The last row with the identifier.
pub open spec fn last_alert_row(rows: Seq<AlertRow>, id: Id) -> Option<AlertRow>
    decreases rows.len(),
{
    if rows.len() == 0 {
        None
    } else if rows.last().id == id {
        Some(rows.last())
    } else {
        last_alert_row(rows.drop_last(), id)
    }
}

/// The reminders of the alert, in order.
pub open spec fn reminders_of(rs: Seq<Reminder>, id: Id) -> Seq<Reminder>
    decreases rs.len(),
{
    if rs.len() == 0 {
        Seq::empty()
    } else if rs.last().alert_id == id {
        reminders_of(rs.drop_last(), id).push(rs.last())
    } else {
        reminders_of(rs.drop_last(), id)
    }
}

/// The alert is the row with the reminders.
pub open spec fn alert_from_row(a: Alert, row: AlertRow, reminders: Seq<Reminder>) -> bool {
    &&& a.id == row.id
    &&& a.target == row.target
    &&& a.usage_limit == row.usage_limit
    &&& a.time_frame == row.time_frame
    &&& a.trigger_action == row.trigger_action
    &&& a.created_at == row.created_at
    &&& a.updated_at == row.updated_at
    &&& a.status == row.status
    &&& a.events == row.events
    &&& a.reminders@ == reminders
}

/// A listed alert is the row it was read from: its identifier, target,
/// usage limit, time frame, trigger action, times, trigger status and event
/// counts are the row's, and its reminders are those of the alert.
pub proof fn law_listed_alert_is_its_row(a: Alert, row: AlertRow, reminders: Seq<Reminder>)
    requires
        alert_from_row(a, row, reminders),
    ensures
        a.id == row.id,
        a.target == row.target,
        a.usage_limit == row.usage_limit,
        a.time_frame == row.time_frame,
        a.trigger_action == row.trigger_action,
        a.created_at == row.created_at,
        a.updated_at == row.updated_at,
        a.status == row.status,
        a.events == row.events,
        a.reminders@ == reminders,
{
}

/// Gathers the alerts with their reminders, by identifier. A repeated
/// identifier keeps its last row; reminders keep their order, and a reminder
/// of an alert that is not listed (an inactive one) is left out.
pub fn collect_alerts(rows: Vec<AlertRow>, reminders: Vec<Reminder>) -> (r: HashMap<Id, Alert>)
    ensures
        forall|id: Id| #[trigger] r@.contains_key(id) <==> last_alert_row(rows@, id) is Some,
        forall|id: Id|
            #[trigger] r@.contains_key(id) ==> r@[id].status == last_alert_row(rows@, id)->0.status
                && r@[id].events == last_alert_row(rows@, id)->0.events,
        forall|id: Id|
            #[trigger] r@.contains_key(id) ==> alert_from_row(
                r@[id],
                last_alert_row(rows@, id)->0,
                reminders_of(reminders@, id),
            ),
{
    broadcast use vstd::std_specs::hash::group_hash_axioms;

    let mut m: HashMap<Id, Alert> = HashMap::new();
    let mut i: usize = 0;
    while i < rows.len()
        invariant
            i <= rows.len(),
            forall|id: Id| #[trigger] m@.contains_key(id) <==> last_alert_row(rows@.take(i as int), id) is Some,
            forall|id: Id|
                #[trigger] m@.contains_key(id) ==> alert_from_row(
                    m@[id],
                    last_alert_row(rows@.take(i as int), id)->0,
                    Seq::empty(),
                ),
        decreases rows.len() - i,
    {
        let row = &rows[i];
        proof {
            let t = rows@.take(i + 1);
            assert(t.drop_last() =~= rows@.take(i as int));
            assert(t.last() == rows@[i as int]);
        }
        let a = Alert {
            id: row.id,
            target: row.target,
            usage_limit: row.usage_limit,
            time_frame: row.time_frame,
            trigger_action: clone_action(&row.trigger_action),
            created_at: row.created_at,
            updated_at: row.updated_at,
            reminders: Vec::new(),
            status: row.status,
            events: row.events,
        };
        assert(a.reminders@ =~= Seq::<Reminder>::empty());
        m.insert(row.id, a);
        i = i + 1;
    }
    assert(rows@.take(rows.len() as int) =~= rows@);
    let mut j: usize = 0;
    while j < reminders.len()
        invariant
            j <= reminders.len(),
            forall|id: Id| #[trigger] m@.contains_key(id) <==> last_alert_row(rows@, id) is Some,
            forall|id: Id|
                #[trigger] m@.contains_key(id) ==> alert_from_row(
                    m@[id],
                    last_alert_row(rows@, id)->0,
                    reminders_of(reminders@.take(j as int), id),
                ),
        decreases reminders.len() - j,
    {
        let rem = &reminders[j];
        let aid = rem.alert_id;
        proof {
            let t = reminders@.take(j + 1);
            assert(t.drop_last() =~= reminders@.take(j as int));
            assert(t.last() == reminders@[j as int]);
        }
        match m.remove(&aid) {
            Some(mut a) => {
                a.reminders.push(
                    Reminder {
                        id: rem.id,
                        alert_id: rem.alert_id,
                        threshold_bits: rem.threshold_bits,
                        message: rem.message.clone(),
                        created_at: rem.created_at,
                        updated_at: rem.updated_at,
                        status: rem.status,
                        events: rem.events,
                    },
                );
                m.insert(aid, a);
            },
            None => {},
        }
        j = j + 1;
    }
    assert(reminders@.take(reminders.len() as int) =~= reminders@);
    m
}

} // verus!
