use cobalt::entities::{
    AppIdentity, Reason, Target, TimeFrame, TriggerAction, UnknownTriggerActionTag,
};
use cobalt::infused::{AlertTriggerStatus, ReminderTriggerStatus, ValuePerPeriod};

#[test]
fn identity_from_row_reads_each_tag() {
    let uwp = AppIdentity::from_row(0, "Microsoft.Photos".to_string());
    assert!(matches!(&uwp, AppIdentity::Uwp { aumid } if aumid == "Microsoft.Photos"));
    let win32 = AppIdentity::from_row(1, "C:\\app.exe".to_string());
    assert!(matches!(&win32, AppIdentity::Win32 { path } if path == "C:\\app.exe"));
    let web = AppIdentity::from_row(2, "https://example.com".to_string());
    assert!(matches!(&web, AppIdentity::Website { base_url } if base_url == "https://example.com"));
}

#[test]
fn identity_row_columns_roundtrip() {
    for tag in 0..=2 {
        let identity = AppIdentity::from_row(tag, format!("text{tag}"));
        assert_eq!(identity.tag(), tag);
        assert_eq!(identity.text0(), &format!("text{tag}"));
        let again = AppIdentity::from_row(identity.tag(), identity.text0().clone());
        assert_eq!(again.tag(), tag);
        assert_eq!(again.text0(), identity.text0());
    }
}

#[test]
fn identity_default_is_empty_win32() {
    assert!(matches!(AppIdentity::default(), AppIdentity::Win32 { path } if path.is_empty()));
}

#[test]
fn target_from_row_prefers_app() {
    assert_eq!(Target::from_row(Some(3), None), Target::App { id: 3 });
    assert_eq!(Target::from_row(Some(3), Some(4)), Target::App { id: 3 });
    assert_eq!(Target::from_row(None, Some(4)), Target::Tag { id: 4 });
    assert_eq!(Target::from_row(None, None), Target::Tag { id: 0 });
}

#[test]
fn target_destructure_roundtrips() {
    for t in [Target::App { id: 7 }, Target::Tag { id: 9 }] {
        let (app, tag) = t.destructure();
        assert_eq!(Target::from_row(app, tag), t);
    }
    assert_eq!(Target::App { id: 7 }.destructure(), (Some(7), None));
    assert_eq!(Target::Tag { id: 9 }.destructure(), (None, Some(9)));
    assert_eq!(Target::default(), Target::App { id: 0 });
}

#[test]
fn time_frame_codes() {
    assert_eq!(TimeFrame::Daily.code(), 0);
    assert_eq!(TimeFrame::Weekly.code(), 1);
    assert_eq!(TimeFrame::Monthly.code(), 2);
    for code in 0..=2 {
        assert_eq!(TimeFrame::from_code(code).unwrap().code(), code);
    }
    assert_eq!(TimeFrame::from_code(3), None);
    assert_eq!(TimeFrame::from_code(-1), None);
    assert_eq!(TimeFrame::default(), TimeFrame::Daily);
}

#[test]
fn trigger_action_from_row_reads_each_tag() {
    assert!(matches!(TriggerAction::from_row(0, None, None), Ok(TriggerAction::Kill)));
    assert!(matches!(
        TriggerAction::from_row(1, Some(500), None),
        Ok(TriggerAction::Dim { duration: 500 })
    ));
    assert!(matches!(
        TriggerAction::from_row(1, None, None),
        Ok(TriggerAction::Dim { duration: 0 })
    ));
    assert!(matches!(
        TriggerAction::from_row(2, None, Some("stop".to_string())),
        Ok(TriggerAction::Message { content }) if content == "stop"
    ));
    assert!(matches!(
        TriggerAction::from_row(2, None, None),
        Ok(TriggerAction::Message { content }) if content.is_empty()
    ));
}

#[test]
fn trigger_action_from_row_refuses_unknown_tag() {
    assert_eq!(
        TriggerAction::from_row(3, Some(1), None).unwrap_err(),
        UnknownTriggerActionTag { tag: 3 }
    );
    assert_eq!(
        TriggerAction::from_row(-1, None, None).unwrap_err(),
        UnknownTriggerActionTag { tag: -1 }
    );
}

#[test]
fn trigger_action_destructure_roundtrips() {
    assert_eq!(TriggerAction::Kill.destructure(), (None, None, 0));
    assert_eq!(TriggerAction::Dim { duration: 42 }.destructure(), (Some(42), None, 1));
    let msg = TriggerAction::Message { content: "hi".to_string() };
    assert_eq!(msg.destructure(), (None, Some("hi"), 2));
    let (dur, content, tag) = msg.destructure();
    assert!(matches!(
        TriggerAction::from_row(tag, dur, content.map(|c| c.to_string())),
        Ok(TriggerAction::Message { content }) if content == "hi"
    ));
    assert!(matches!(TriggerAction::default(), TriggerAction::Kill));
}

#[test]
fn reason_codes() {
    assert_eq!(Reason::Hit.code(), 0);
    assert_eq!(Reason::Ignored.code(), 1);
    assert_eq!(Reason::default(), Reason::Hit);
    assert_eq!(Reason::from_code(0), Some(Reason::Hit));
    assert_eq!(Reason::from_code(1), Some(Reason::Ignored));
    assert_eq!(Reason::from_code(2), None);
    assert_eq!(Reason::from_code(Reason::Ignored.code()), Some(Reason::Ignored));
}

#[test]
fn alert_status_from_row() {
    assert_eq!(AlertTriggerStatus::from_row(Some(0), 10), AlertTriggerStatus::Hit { timestamp: 10 });
    assert_eq!(
        AlertTriggerStatus::from_row(Some(1), 11),
        AlertTriggerStatus::Ignored { timestamp: 11 }
    );
    assert_eq!(AlertTriggerStatus::from_row(Some(2), 12), AlertTriggerStatus::Untriggered);
    assert_eq!(AlertTriggerStatus::from_row(None, 13), AlertTriggerStatus::Untriggered);
}

#[test]
fn reminder_status_from_row() {
    assert_eq!(
        ReminderTriggerStatus::from_row(Some(0), 10, true),
        ReminderTriggerStatus::Hit { timestamp: 10 }
    );
    assert_eq!(
        ReminderTriggerStatus::from_row(Some(1), 11, true),
        ReminderTriggerStatus::Ignored { timestamp: 11, ignored_by_alert: true }
    );
    assert_eq!(
        ReminderTriggerStatus::from_row(Some(1), 11, false),
        ReminderTriggerStatus::Ignored { timestamp: 11, ignored_by_alert: false }
    );
    assert_eq!(ReminderTriggerStatus::from_row(Some(5), 12, true), ReminderTriggerStatus::Untriggered);
    assert_eq!(ReminderTriggerStatus::from_row(None, 12, false), ReminderTriggerStatus::Untriggered);
}

#[test]
fn value_per_period_default_is_zero() {
    assert_eq!(ValuePerPeriod::<i64>::default(), ValuePerPeriod { today: 0, week: 0, month: 0 });
}
