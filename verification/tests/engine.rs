use cobalt::engine::migrator::{migration_order, migration_plan};
use cobalt::engine::models::{destructure_identity, App, AppIdentity, InteractionPeriod, Usage};
use cobalt::engine::processor::{process_app, FoundOrInserted, Processor};
use cobalt::platform::interaction::InteractionStateChange;
use cobalt::time_system::{Tick, TimeSystem, Times, ToTicks};

#[test]
fn processor_saves_usage_between_switches() {
    let mut p = Processor::new(0);
    assert_eq!(p.end_current_usage(10), None);
    p.start_usage(3, 10);
    assert_eq!(p.current_usage, Some(Usage { id: 0, session: 3, start: 10, end: 10 }));
    assert_eq!(p.end_current_usage(25), Some(Usage { id: 0, session: 3, start: 10, end: 25 }));
    p.start_usage(4, 25);
    assert_eq!(p.end_current_usage(30), Some(Usage { id: 0, session: 4, start: 25, end: 30 }));
    assert_eq!(p.interaction_start, 0);
}

#[test]
fn processor_saves_interaction_period_from_active_to_idle() {
    let mut p = Processor::new(5);
    assert_eq!(
        p.interaction_change(7, InteractionStateChange::Idle { mouseclicks: 1, keystrokes: 2 }),
        Some(InteractionPeriod { id: 0, start: 5, end: 7, mouseclicks: 1, keystrokes: 2 })
    );
    assert_eq!(p.interaction_change(20, InteractionStateChange::Active), None);
    assert_eq!(p.interaction_start, 20);
    assert_eq!(
        p.interaction_change(50, InteractionStateChange::Idle { mouseclicks: 3, keystrokes: 4 }),
        Some(InteractionPeriod { id: 0, start: 20, end: 50, mouseclicks: 3, keystrokes: 4 })
    );
    assert_eq!(p.current_usage, None);
}

#[test]
fn migration_order_is_stable_by_version() {
    assert_eq!(migration_order(&vec![3, 1, 2]), vec![1, 2, 0]);
    assert_eq!(migration_order(&vec![2, 1, 2, 1]), vec![1, 3, 0, 2]);
    assert_eq!(migration_order(&vec![]), Vec::<usize>::new());
}

#[test]
fn migration_plan_skips_applied_versions() {
    let plan = migration_plan(&vec![1, 2, 3], 1);
    assert_eq!(plan.run, vec![1, 2]);
    assert_eq!(plan.new_version, Some(3));
    let done = migration_plan(&vec![1, 2, 3], 3);
    assert!(done.run.is_empty());
    assert_eq!(done.new_version, None);
    let fresh = migration_plan(&vec![1, 2], 0);
    assert_eq!(fresh.run, vec![0, 1]);
    assert_eq!(fresh.new_version, Some(2));
}

#[test]
fn identity_columns() {
    assert_eq!(destructure_identity(&AppIdentity::Win32 { path: "C:\\a.exe".to_string() }), (0, "C:\\a.exe"));
    assert_eq!(destructure_identity(&AppIdentity::UWP { aumid: "App!Main".to_string() }), (1, "App!Main"));
    assert_eq!(destructure_identity(&AppIdentity::default()), (0, ""));
}

#[test]
fn fixed_clock_reports_its_instants() {
    let t = Times { now: 40, day_start: 10, week_start: 5, month_start: 1 };
    assert_eq!(t.now().to_ticks(), 40);
    assert_eq!(t.day_start(true).to_ticks(), 10);
    assert_eq!(t.week_start(false).to_ticks(), 5);
    assert_eq!(t.month_start(true).to_ticks(), 1);
    assert_eq!(Tick(7).to_ticks(), 7);
    assert_eq!(Times::default(), Times { now: 0, day_start: 0, week_start: 0, month_start: 0 });
}

#[test]
fn process_app_reuses_found_app_and_requests_info_for_inserted() {
    let found = App {
        id: 3,
        name: "Editor".to_string(),
        description: "d".to_string(),
        company: "c".to_string(),
        color: Some("red".to_string()),
        identity: AppIdentity::Win32 { path: "C:\\e.exe".to_string() },
    };
    let (app, request) = process_app(AppIdentity::Win32 { path: "C:\\e.exe".to_string() }, FoundOrInserted::Found(found));
    assert!(!request);
    assert_eq!((app.id, app.name.as_str(), app.color.as_deref()), (3, "Editor", Some("red")));

    let (app, request) = process_app(AppIdentity::UWP { aumid: "App!Main".to_string() }, FoundOrInserted::Inserted(9));
    assert!(request);
    assert_eq!(app.id, 9);
    assert!(app.name.is_empty() && app.description.is_empty() && app.company.is_empty() && app.color.is_none());
    assert!(matches!(app.identity, AppIdentity::UWP { aumid } if aumid == "App!Main"));
}
