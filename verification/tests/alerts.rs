use cobalt::alerts::{
    collect_alerts, create_alert_plan, created_alert, f64_bits_equal, update_alert_plan, AlertRow, AlertWrite,
    IdRef,
};
use cobalt::entities::{Reason, Target, TimeFrame, TriggerAction};
use cobalt::infused::{
    Alert, AlertTriggerStatus, CreateAlert, CreateReminder, Reminder, ReminderTriggerStatus,
    UpdatedAlert, UpdatedReminder, ValuePerPeriod,
};

const NOW: i64 = 1_000;
const CREATED: i64 = 100;

fn counts(n: i64) -> ValuePerPeriod<i64> {
    ValuePerPeriod { today: n, week: n, month: n }
}

fn zero() -> ValuePerPeriod<i64> {
    counts(0)
}

fn prev_reminder(id: i64, alert_id: i64, threshold: f64) -> Reminder {
    Reminder {
        id,
        alert_id,
        threshold_bits: threshold.to_bits(),
        message: format!("reminder {id}"),
        created_at: CREATED + id,
        updated_at: CREATED + id,
        status: ReminderTriggerStatus::Hit { timestamp: 500 },
        events: counts(2),
    }
}

fn prev_alert() -> Alert {
    Alert {
        id: 1,
        target: Target::App { id: 5 },
        usage_limit: 3600,
        time_frame: TimeFrame::Daily,
        trigger_action: TriggerAction::Kill,
        created_at: CREATED,
        updated_at: CREATED,
        reminders: vec![prev_reminder(10, 1, 0.5), prev_reminder(11, 1, 0.75)],
        status: AlertTriggerStatus::Hit { timestamp: 400 },
        events: counts(3),
    }
}

fn updated(id: Option<i64>, threshold: f64, ignore_trigger: bool) -> UpdatedReminder {
    UpdatedReminder {
        id,
        threshold_bits: threshold.to_bits(),
        message: "next".to_string(),
        ignore_trigger,
    }
}

fn next_alert(target: Target, reminders: Vec<UpdatedReminder>, ignore_trigger: bool) -> UpdatedAlert {
    UpdatedAlert {
        id: 1,
        target,
        usage_limit: 3600,
        time_frame: TimeFrame::Daily,
        trigger_action: TriggerAction::Dim { duration: 60 },
        reminders,
        ignore_trigger,
    }
}

#[test]
fn create_alert_plan_orders_inserts_and_ignores() {
    let alert = CreateAlert {
        target: Target::Tag { id: 2 },
        usage_limit: 100,
        time_frame: TimeFrame::Weekly,
        trigger_action: TriggerAction::Kill,
        reminders: vec![
            CreateReminder { threshold_bits: 0.5f64.to_bits(), message: "a".to_string(), ignore_trigger: false },
            CreateReminder { threshold_bits: 0.9f64.to_bits(), message: "b".to_string(), ignore_trigger: true },
        ],
        ignore_trigger: true,
    };
    let w = create_alert_plan(&alert, NOW);
    assert_eq!(
        w,
        vec![
            AlertWrite::InsertAlert { created_at: NOW, updated_at: NOW },
            AlertWrite::InsertAlertEvent { alert: IdRef::NewAlert, timestamp: NOW, reason: Reason::Ignored },
            AlertWrite::InsertReminder { index: 0, alert: IdRef::NewAlert, created_at: NOW, updated_at: NOW },
            AlertWrite::InsertReminder { index: 1, alert: IdRef::NewAlert, created_at: NOW, updated_at: NOW },
            AlertWrite::InsertReminderEvent {
                reminder: IdRef::NewReminder { index: 1 },
                timestamp: NOW,
                reason: Reason::Ignored
            },
        ]
    );
}

#[test]
fn create_alert_plan_without_reminders_or_ignore() {
    let alert = CreateAlert {
        target: Target::App { id: 2 },
        usage_limit: 100,
        time_frame: TimeFrame::Monthly,
        trigger_action: TriggerAction::Kill,
        reminders: vec![],
        ignore_trigger: false,
    };
    assert_eq!(
        create_alert_plan(&alert, NOW),
        vec![AlertWrite::InsertAlert { created_at: NOW, updated_at: NOW }]
    );
}

#[test]
fn f64_bits_equal_follows_ieee_equality() {
    assert!(f64_bits_equal(0.5f64.to_bits(), 0.5f64.to_bits()));
    assert!(!f64_bits_equal(0.5f64.to_bits(), 0.25f64.to_bits()));
    assert!(f64_bits_equal(0.0f64.to_bits(), (-0.0f64).to_bits()));
    assert!(!f64_bits_equal(f64::NAN.to_bits(), f64::NAN.to_bits()));
    assert!(!f64_bits_equal(f64::NAN.to_bits(), 1.0f64.to_bits()));
    assert!(f64_bits_equal(f64::INFINITY.to_bits(), f64::INFINITY.to_bits()));
}

#[test]
fn update_alert_in_place_updates_drops_and_inserts_reminders() {
    let prev = prev_alert();
    let next = next_alert(
        Target::App { id: 5 },
        vec![updated(Some(10), 0.6, true), updated(None, 0.9, true)],
        true,
    );
    let plan = update_alert_plan(&prev, &next, true, &vec![false, false], NOW);
    assert!(!plan.new_alert);
    assert_eq!(
        plan.writes,
        vec![
            AlertWrite::UpdateAlert { id: 1, updated_at: NOW },
            AlertWrite::DeactivateReminder { id: 11, updated_at: NOW },
            AlertWrite::UpdateReminder { id: 10, index: 0, updated_at: NOW },
            AlertWrite::InsertReminder {
                index: 1,
                alert: IdRef::Existing { id: 1 },
                created_at: NOW,
                updated_at: NOW
            },
            AlertWrite::InsertReminderEvent {
                reminder: IdRef::NewReminder { index: 1 },
                timestamp: NOW,
                reason: Reason::Ignored
            },
        ]
    );
    assert_eq!(plan.new_reminders, vec![false, true]);
    assert_eq!(plan.alert.id, 1);
    assert_eq!(plan.alert.status, AlertTriggerStatus::Hit { timestamp: 400 });
    assert_eq!(plan.alert.events, counts(3));
    assert_eq!(plan.alert.created_at, CREATED);
    assert_eq!(plan.alert.updated_at, NOW);
    assert!(matches!(plan.alert.trigger_action, TriggerAction::Dim { duration: 60 }));

    let kept = &plan.alert.reminders[0];
    assert_eq!(kept.id, 10);
    assert_eq!(kept.alert_id, 1);
    assert_eq!(kept.threshold_bits, 0.6f64.to_bits());
    assert_eq!(kept.message, "next");
    assert_eq!(kept.created_at, CREATED + 10);
    assert_eq!(kept.updated_at, NOW);
    assert_eq!(kept.status, ReminderTriggerStatus::Hit { timestamp: 500 });
    assert_eq!(kept.events, counts(2));

    let fresh = &plan.alert.reminders[1];
    assert_eq!(fresh.id, 0);
    assert_eq!(fresh.created_at, NOW);
    assert_eq!(fresh.status, ReminderTriggerStatus::Ignored { timestamp: NOW, ignored_by_alert: true });
    assert_eq!(fresh.events, zero());

    let alert = plan.finish(99, &vec![0, 55]);
    assert_eq!(alert.id, 1);
    assert_eq!(alert.reminders[0].id, 10);
    assert_eq!(alert.reminders[1].id, 55);
    assert_eq!(alert.reminders[1].alert_id, 1);
}

#[test]
fn update_alert_upgrades_reminder_whose_threshold_changes_with_events() {
    let prev = prev_alert();
    let next = next_alert(
        Target::App { id: 5 },
        vec![updated(Some(10), 0.6, false), updated(Some(11), 0.75, false)],
        false,
    );
    let plan = update_alert_plan(&prev, &next, true, &vec![true, true], NOW);
    assert!(!plan.new_alert);
    assert_eq!(
        plan.writes,
        vec![
            AlertWrite::UpdateAlert { id: 1, updated_at: NOW },
            AlertWrite::DeactivateReminder { id: 10, updated_at: NOW },
            AlertWrite::InsertReminder {
                index: 0,
                alert: IdRef::Existing { id: 1 },
                created_at: CREATED + 10,
                updated_at: NOW
            },
            AlertWrite::UpdateReminder { id: 11, index: 1, updated_at: NOW },
        ]
    );
    assert_eq!(plan.new_reminders, vec![true, false]);
    assert_eq!(plan.alert.reminders[0].status, ReminderTriggerStatus::Untriggered);
    assert_eq!(plan.alert.reminders[0].events, zero());
    assert_eq!(plan.alert.reminders[1].events, counts(2));
}

#[test]
fn update_alert_upgrade_inserts_new_version() {
    let prev = prev_alert();
    let next = next_alert(
        Target::App { id: 6 },
        vec![updated(Some(10), 0.5, false), updated(None, 0.9, true)],
        true,
    );
    let plan = update_alert_plan(&prev, &next, true, &vec![false, false], NOW);
    assert!(plan.new_alert);
    assert_eq!(
        plan.writes,
        vec![
            AlertWrite::DeactivateAlert { id: 1, updated_at: NOW },
            AlertWrite::InsertAlert { created_at: CREATED, updated_at: NOW },
            AlertWrite::InsertAlertEvent {
                alert: IdRef::Existing { id: 1 },
                timestamp: NOW,
                reason: Reason::Ignored
            },
            AlertWrite::InsertReminder {
                index: 0,
                alert: IdRef::Existing { id: 1 },
                created_at: CREATED + 10,
                updated_at: NOW
            },
            AlertWrite::InsertReminder {
                index: 1,
                alert: IdRef::Existing { id: 1 },
                created_at: NOW,
                updated_at: NOW
            },
            AlertWrite::InsertReminderEvent {
                reminder: IdRef::NewReminder { index: 1 },
                timestamp: NOW,
                reason: Reason::Ignored
            },
        ]
    );
    assert_eq!(plan.new_reminders, vec![true, true]);
    assert_eq!(plan.alert.id, 0);
    assert_eq!(plan.alert.status, AlertTriggerStatus::Ignored { timestamp: NOW });
    assert_eq!(plan.alert.events, zero());
    assert_eq!(plan.alert.target, Target::App { id: 6 });

    let alert = plan.finish(77, &vec![70, 71]);
    assert_eq!(alert.id, 77);
    assert_eq!(alert.reminders[0].id, 70);
    assert_eq!(alert.reminders[1].id, 71);
    assert_eq!(alert.reminders[0].alert_id, 77);
    assert_eq!(alert.reminders[1].alert_id, 77);
    assert_eq!(alert.reminders[0].created_at, CREATED + 10);
}

#[test]
fn update_alert_without_events_does_not_upgrade() {
    let prev = prev_alert();
    let next = next_alert(Target::Tag { id: 8 }, vec![], true);
    let plan = update_alert_plan(&prev, &next, false, &vec![], NOW);
    assert!(!plan.new_alert);
    assert_eq!(
        plan.writes,
        vec![
            AlertWrite::UpdateAlert { id: 1, updated_at: NOW },
            AlertWrite::DeactivateReminder { id: 10, updated_at: NOW },
            AlertWrite::DeactivateReminder { id: 11, updated_at: NOW },
        ]
    );
    assert!(plan.writes.iter().all(|w| !matches!(w, AlertWrite::InsertAlertEvent { .. })));
    assert_eq!(plan.alert.reminders.len(), 0);
}

fn row(id: i64) -> AlertRow {
    AlertRow {
        id,
        target: Target::App { id },
        usage_limit: 10 * id,
        time_frame: TimeFrame::Daily,
        trigger_action: TriggerAction::Kill,
        created_at: id,
        updated_at: id,
        status: AlertTriggerStatus::Untriggered,
        events: counts(id),
    }
}

#[test]
fn collect_alerts_attaches_reminders_in_order() {
    let rows = vec![row(1), row(2)];
    let reminders = vec![prev_reminder(10, 1, 0.5), prev_reminder(30, 3, 0.5), prev_reminder(11, 1, 0.75)];
    let alerts = collect_alerts(rows, reminders);
    assert_eq!(alerts.len(), 2);
    let a1 = &alerts[&1];
    assert_eq!(a1.usage_limit, 10);
    assert_eq!(a1.events, counts(1));
    assert_eq!(a1.reminders.iter().map(|r| r.id).collect::<Vec<_>>(), vec![10, 11]);
    assert!(alerts[&2].reminders.is_empty());
    assert!(!alerts.contains_key(&3));
}

#[test]
fn collect_alerts_keeps_last_of_repeated_row() {
    let mut later = row(1);
    later.usage_limit = 999;
    let alerts = collect_alerts(vec![row(1), later], vec![prev_reminder(10, 1, 0.5)]);
    assert_eq!(alerts.len(), 1);
    assert_eq!(alerts[&1].usage_limit, 999);
    assert_eq!(alerts[&1].reminders.len(), 1);
}

fn create_request(usage_limit: i64, time_frame: TimeFrame, trigger_action: TriggerAction, reminders: &[(f64, &str)]) -> CreateAlert {
    CreateAlert {
        target: Target::App { id: 1 },
        usage_limit,
        time_frame,
        trigger_action,
        reminders: reminders
            .iter()
            .map(|(t, m)| CreateReminder { threshold_bits: t.to_bits(), message: m.to_string(), ignore_trigger: false })
            .collect(),
        ignore_trigger: false,
    }
}

#[test]
fn create_alert_returns_created_alert() {
    // the alerts are given identifiers 1, 2, 3 and the reminders 1, then 2, 3, 4
    let alert1 = create_request(100, TimeFrame::Daily, TriggerAction::Kill, &[]);
    let created1 = created_alert(&alert1, 0, 1, &vec![]);
    assert_eq!(created1.id, 1);
    assert_eq!(created1.target, Target::App { id: 1 });
    assert_eq!(created1.usage_limit, 100);
    assert_eq!(created1.time_frame, TimeFrame::Daily);
    assert!(matches!(created1.trigger_action, TriggerAction::Kill));
    assert_eq!((created1.created_at, created1.updated_at), (0, 0));
    assert_eq!(created1.status, AlertTriggerStatus::Untriggered);
    assert_eq!(created1.events, zero());
    assert!(created1.reminders.is_empty());

    let alert2 = create_request(200, TimeFrame::Weekly, TriggerAction::Dim { duration: 500 }, &[(0.5, "Half way there")]);
    let created2 = created_alert(&alert2, 0, 2, &vec![1]);
    assert_eq!(created2.id, 2);
    assert_eq!(created2.usage_limit, 200);
    assert_eq!(created2.time_frame, TimeFrame::Weekly);
    assert!(matches!(created2.trigger_action, TriggerAction::Dim { duration: 500 }));
    assert_eq!(created2.reminders.len(), 1);
    assert_eq!(created2.reminders[0].id, 1);
    assert_eq!(created2.reminders[0].alert_id, 2);
    assert_eq!(f64::from_bits(created2.reminders[0].threshold_bits), 0.5);
    assert_eq!(created2.reminders[0].message, "Half way there");
    assert_eq!(created2.reminders[0].events, zero());

    let alert3 = create_request(
        300,
        TimeFrame::Monthly,
        TriggerAction::Message { content: "Time's up".to_string() },
        &[(0.25, "Quarter way"), (0.5, "Half way there"), (0.75, "Almost there")],
    );
    let created3 = created_alert(&alert3, 0, 3, &vec![2, 3, 4]);
    assert_eq!(created3.id, 3);
    assert_eq!(created3.usage_limit, 300);
    assert!(matches!(&created3.trigger_action, TriggerAction::Message { content } if content == "Time's up"));
    assert_eq!(created3.reminders.len(), 3);
    let got: Vec<(i64, i64, f64, &str)> = created3
        .reminders
        .iter()
        .map(|r| (r.id, r.alert_id, f64::from_bits(r.threshold_bits), r.message.as_str()))
        .collect();
    assert_eq!(
        got,
        vec![(2, 3, 0.25, "Quarter way"), (3, 3, 0.5, "Half way there"), (4, 3, 0.75, "Almost there")]
    );
    assert!(created3.reminders.iter().all(|r| r.events == zero() && r.status == ReminderTriggerStatus::Untriggered));
}

#[test]
fn created_alert_marks_ignored_triggers() {
    let mut alert = create_request(100, TimeFrame::Daily, TriggerAction::Kill, &[(0.5, "a"), (0.9, "b")]);
    alert.ignore_trigger = true;
    alert.reminders[1].ignore_trigger = true;
    let created = created_alert(&alert, NOW, 5, &vec![6, 7]);
    assert_eq!(created.status, AlertTriggerStatus::Ignored { timestamp: NOW });
    assert_eq!(created.reminders[0].status, ReminderTriggerStatus::Untriggered);
    assert_eq!(
        created.reminders[1].status,
        ReminderTriggerStatus::Ignored { timestamp: NOW, ignored_by_alert: true }
    );
    assert_eq!((created.created_at, created.updated_at), (NOW, NOW));
}
