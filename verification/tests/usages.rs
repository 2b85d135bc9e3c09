use cobalt::entities::Usage;
use cobalt::infused::{WithDuration, WithGroupedDuration};
use cobalt::usages::{
    durations_by_id, gather_app_session_usages, group_durations_per_period, usages_shift,
    AppSessionUsage,
};

fn row(app_id: i64, session_id: i64, usage_id: i64, title: &str, start: i64, end: i64) -> AppSessionUsage {
    AppSessionUsage { app_id, session_id, usage_id, session_title: title.to_string(), start, end }
}

#[test]
fn gather_groups_usages_by_app_and_session() {
    let rows = vec![
        row(1, 10, 100, "first", 5, 9),
        row(1, 11, 101, "other", 6, 7),
        row(1, 10, 102, "renamed", 2, 20),
        row(2, 12, 103, "second", 30, 40),
    ];
    let apps = gather_app_session_usages(&rows);
    assert_eq!(apps.len(), 2);
    assert_eq!(apps[&1].len(), 2);
    let s = &apps[&1][&10];
    assert_eq!(s.id, 10);
    assert_eq!(s.title, "first");
    assert_eq!(s.start, 2);
    assert_eq!(s.end, 20);
    assert_eq!(
        s.usages,
        vec![
            Usage { id: 100, session_id: 10, start: 5, end: 9 },
            Usage { id: 102, session_id: 10, start: 2, end: 20 },
        ]
    );
    let o = &apps[&1][&11];
    assert_eq!((o.start, o.end), (6, 7));
    assert_eq!(o.usages.len(), 1);
    let t = &apps[&2][&12];
    assert_eq!(t.title, "second");
    assert_eq!((t.start, t.end), (30, 40));
}

#[test]
fn gather_of_no_rows_is_empty() {
    assert!(gather_app_session_usages(&vec![]).is_empty());
}

#[test]
fn group_durations_keeps_each_target_in_order() {
    let rows = vec![
        WithGroupedDuration { id: 1, group: 0, duration: 5 },
        WithGroupedDuration { id: 2, group: 0, duration: 6 },
        WithGroupedDuration { id: 1, group: 10, duration: 7 },
    ];
    let m = group_durations_per_period(&rows);
    assert_eq!(m.len(), 2);
    assert_eq!(m[&1], vec![rows[0], rows[2]]);
    assert_eq!(m[&2], vec![rows[1]]);
}

#[test]
fn durations_by_id_keeps_last_row() {
    let rows = vec![
        WithDuration { id: 1, duration: 5 },
        WithDuration { id: 2, duration: 6 },
        WithDuration { id: 1, duration: 7 },
    ];
    let m = durations_by_id(&rows);
    assert_eq!(m.len(), 2);
    assert_eq!(m[&1], WithDuration { id: 1, duration: 7 });
    assert_eq!(m[&2], WithDuration { id: 2, duration: 6 });
}

#[test]
fn usages_shift_moves_latest_end_to_last() {
    assert_eq!(usages_shift(100, 60), 40);
    assert_eq!(usages_shift(60, 100), -40);
    assert_eq!(usages_shift(5, 5), 0);
}
