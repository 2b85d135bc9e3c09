use cobalt::periods::{
    get_periods, DistractivePeriodSettings, FocusPeriod, FocusPeriodSettings, ScoredUsage,
};

const ONE_HOUR: i64 = 60 * 60 * 1000 * 10000;
const MIN: i64 = 60 * 1000 * 10000;
const TEST_DATE: i64 = (1735776000 * 1000 + 62_135_596_800_000) * 10000;

fn test_start() -> i64 {
    TEST_DATE
}

fn test_end() -> i64 {
    TEST_DATE + 2000 * ONE_HOUR
}

fn u(start: i64, end: i64, score: i64) -> ScoredUsage {
    ScoredUsage { start, end, score }
}

fn focus(min_dur: i64, gap: i64) -> FocusPeriodSettings {
    FocusPeriodSettings { min_focus_score: 5, min_focus_usage_dur: min_dur, max_focus_gap: gap }
}

fn distractive(min_dur: i64, gap: i64) -> DistractivePeriodSettings {
    DistractivePeriodSettings {
        max_distractive_score: 3,
        min_distractive_usage_dur: min_dur,
        max_distractive_gap: gap,
    }
}

fn streaks(usages: Vec<ScoredUsage>, fs: FocusPeriodSettings, ds: DistractivePeriodSettings) -> Vec<FocusPeriod> {
    get_periods(&usages, test_start(), test_end(), fs, ds)
}

fn standard(usages: Vec<ScoredUsage>) -> Vec<FocusPeriod> {
    streaks(usages, focus(30 * MIN, 5 * MIN), distractive(15 * MIN, 5 * MIN))
}

fn light(usages: Vec<ScoredUsage>) -> Vec<FocusPeriod> {
    streaks(usages, focus(10 * MIN, 5 * MIN), distractive(10 * MIN, 5 * MIN))
}

#[test]
fn get_streaks_no_apps() {
    assert!(standard(vec![]).is_empty());
}

#[test]
fn get_streaks_single_focus_streak() {
    let s = test_start() + 100 * ONE_HOUR;
    let e = s + 60 * MIN;
    let r = standard(vec![u(s, e, 10)]);
    assert_eq!(r.len(), 1);
    assert_eq!(r[0].start, s);
    assert_eq!(r[0].end, e);
    assert!(r[0].is_focused);
}

#[test]
fn get_streaks_single_distractive_streak() {
    let s = test_start() + 100 * ONE_HOUR;
    let e = s + 30 * MIN;
    let r = standard(vec![u(s, e, 2)]);
    assert_eq!(r.len(), 1);
    assert_eq!(r[0].start, s);
    assert_eq!(r[0].end, e);
    assert!(!r[0].is_focused);
}

#[test]
fn get_streaks_usage_too_short_for_focus() {
    let s = test_start() + 100 * ONE_HOUR;
    assert!(standard(vec![u(s, s + 15 * MIN, 10)]).is_empty());
}

#[test]
fn get_streaks_usage_too_short_for_distractive() {
    let s = test_start() + 100 * ONE_HOUR;
    assert!(standard(vec![u(s, s + 10 * MIN, 2)]).is_empty());
}

#[test]
fn get_streaks_score_below_focus_threshold() {
    let s = test_start() + 100 * ONE_HOUR;
    assert!(standard(vec![u(s, s + 60 * MIN, 3)]).is_empty());
}

#[test]
fn get_streaks_score_above_distractive_threshold() {
    let s = test_start() + 100 * ONE_HOUR;
    assert!(standard(vec![u(s, s + 30 * MIN, 5)]).is_empty());
}

#[test]
fn get_streaks_app_without_tag() {
    let s = test_start() + 100 * ONE_HOUR;
    let e = s + 60 * MIN;
    let r = standard(vec![u(s, e, 0)]);
    assert_eq!(r.len(), 1);
    assert_eq!(r[0].start, s);
    assert_eq!(r[0].end, e);
    assert!(!r[0].is_focused);
}

#[test]
fn get_streaks_multiple_focus_streaks() {
    let s1 = test_start() + 100 * ONE_HOUR;
    let e1 = s1 + 60 * MIN;
    let s2 = test_start() + 200 * ONE_HOUR;
    let e2 = s2 + 60 * MIN;
    let r = standard(vec![u(s1, e1, 10), u(s2, e2, 10)]);
    assert_eq!(r.len(), 2);
    assert_eq!((r[0].start, r[0].end, r[0].is_focused), (s1, e1, true));
    assert_eq!((r[1].start, r[1].end, r[1].is_focused), (s2, e2, true));
}

#[test]
fn get_streaks_multiple_distractive_streaks() {
    let s1 = test_start() + 100 * ONE_HOUR;
    let e1 = s1 + 30 * MIN;
    let s2 = test_start() + 200 * ONE_HOUR;
    let e2 = s2 + 30 * MIN;
    let r = standard(vec![u(s1, e1, 2), u(s2, e2, 2)]);
    assert_eq!(r.len(), 2);
    assert_eq!((r[0].start, r[0].end, r[0].is_focused), (s1, e1, false));
    assert_eq!((r[1].start, r[1].end, r[1].is_focused), (s2, e2, false));
}

#[test]
fn get_streaks_focus_and_distractive_streaks() {
    let fs = test_start() + 100 * ONE_HOUR;
    let fe = fs + 60 * MIN;
    let ds = test_start() + 200 * ONE_HOUR;
    let de = ds + 30 * MIN;
    let r = standard(vec![u(fs, fe, 10), u(ds, de, 2)]);
    assert_eq!(r.len(), 2);
    assert!(!r[0].is_focused);
    assert_eq!((r[0].start, r[0].end), (ds, de));
    assert!(r[1].is_focused);
    assert_eq!((r[1].start, r[1].end), (fs, fe));
}

#[test]
fn get_streaks_overlapping_usages_same_app() {
    let s1 = test_start() + 100 * ONE_HOUR;
    let e1 = s1 + 60 * MIN;
    let s2 = s1 + 30 * MIN;
    let e2 = s2 + 60 * MIN;
    let r = standard(vec![u(s1, e1, 10), u(s2, e2, 10)]);
    assert_eq!(r.len(), 1);
    assert_eq!((r[0].start, r[0].end, r[0].is_focused), (s1, e2, true));
}

#[test]
fn get_streaks_gap_between_usages_within_threshold() {
    let s1 = test_start() + 100 * ONE_HOUR;
    let e1 = s1 + 30 * MIN;
    let s2 = e1 + 3 * MIN;
    let e2 = s2 + 30 * MIN;
    let r = standard(vec![u(s1, e1, 10), u(s2, e2, 10)]);
    assert_eq!(r.len(), 1);
    assert_eq!((r[0].start, r[0].end, r[0].is_focused), (s1, e2, true));
}

#[test]
fn get_streaks_gap_between_usages_exceeds_threshold() {
    let s1 = test_start() + 100 * ONE_HOUR;
    let e1 = s1 + 30 * MIN;
    let s2 = e1 + 10 * MIN;
    let e2 = s2 + 30 * MIN;
    let r = standard(vec![u(s1, e1, 10), u(s2, e2, 10)]);
    assert_eq!(r.len(), 2);
    assert_eq!((r[0].start, r[0].end, r[0].is_focused), (s1, e1, true));
    assert_eq!((r[1].start, r[1].end, r[1].is_focused), (s2, e2, true));
}

#[test]
fn get_streaks_focus_streak_overlaps_distractive_streak() {
    let ds = test_start() + 100 * ONE_HOUR;
    let de = ds + 60 * MIN;
    let fs = ds + 15 * MIN;
    let fe = fs + 60 * MIN;
    let r = standard(vec![u(ds, de, 2), u(fs, fe, 10)]);
    assert_eq!(r.len(), 1);
    assert_eq!((r[0].start, r[0].end, r[0].is_focused), (ds, de, false));
}

#[test]
fn get_streaks_multiple_apps_same_tag() {
    let s1 = test_start() + 100 * ONE_HOUR;
    let e1 = s1 + 30 * MIN;
    let s2 = test_start() + 200 * ONE_HOUR;
    let e2 = s2 + 30 * MIN;
    let r = standard(vec![u(s1, e1, 10), u(s2, e2, 10)]);
    assert_eq!(r.len(), 2);
    assert_eq!((r[0].start, r[0].end, r[0].is_focused), (s1, e1, true));
    assert_eq!((r[1].start, r[1].end, r[1].is_focused), (s2, e2, true));
}

#[test]
fn get_streaks_usage_outside_time_range() {
    let s = test_start() - 100 * ONE_HOUR;
    assert!(standard(vec![u(s, s + 60 * MIN, 10)]).is_empty());
}

#[test]
fn get_streaks_usage_partially_overlaps_time_range() {
    let s = test_start() - 30 * MIN;
    let e = test_start() + 60 * MIN;
    let r = standard(vec![u(s, e, 10)]);
    assert_eq!(r.len(), 1);
    assert_eq!(r[0].start, test_start());
    assert!(r[0].end >= test_start());
    assert!(r[0].end <= e);
    assert!(r[0].is_focused);
}

#[test]
fn get_streaks_complex_merging_scenario() {
    let s1 = test_start() + 100 * ONE_HOUR;
    let e1 = s1 + 40 * MIN;
    let s2 = s1 + 20 * MIN;
    let e2 = s2 + 40 * MIN;
    let s3 = e2 + 3 * MIN;
    let e3 = s3 + 40 * MIN;
    let r = standard(vec![u(s1, e1, 10), u(s2, e2, 10), u(s3, e3, 10)]);
    assert_eq!(r.len(), 1);
    assert_eq!((r[0].start, r[0].end, r[0].is_focused), (s1, e3, true));
}

#[test]
fn get_streaks_focus_gap_exact_threshold_merges() {
    let s1 = test_start() + 10 * ONE_HOUR;
    let e1 = s1 + 30 * MIN;
    let s2 = e1 + 5 * MIN;
    let e2 = s2 + 30 * MIN;
    let r = streaks(vec![u(s1, e1, 10), u(s2, e2, 10)], focus(20 * MIN, 5 * MIN), distractive(15 * MIN, 5 * MIN));
    assert_eq!(r.len(), 1);
    assert_eq!((r[0].start, r[0].end, r[0].is_focused), (s1, e2, true));
}

#[test]
fn get_streaks_focus_gap_just_over_threshold_no_merge() {
    let s1 = test_start() + 20 * ONE_HOUR;
    let e1 = s1 + 30 * MIN;
    let s2 = e1 + 5 * MIN + 1;
    let e2 = s2 + 30 * MIN;
    let r = streaks(vec![u(s1, e1, 10), u(s2, e2, 10)], focus(20 * MIN, 5 * MIN), distractive(15 * MIN, 5 * MIN));
    assert_eq!(r.len(), 2);
    assert!(r.iter().all(|p| p.is_focused));
}

#[test]
fn get_streaks_distractive_gap_exact_threshold_merges() {
    let s1 = test_start() + 5 * ONE_HOUR;
    let e1 = s1 + 20 * MIN;
    let s2 = e1 + 5 * MIN;
    let e2 = s2 + 20 * MIN;
    let r = streaks(vec![u(s1, e1, 0), u(s2, e2, 0)], focus(20 * MIN, 5 * MIN), distractive(10 * MIN, 5 * MIN));
    assert_eq!(r.len(), 1);
    assert!(!r[0].is_focused);
    assert_eq!((r[0].start, r[0].end), (s1, e2));
}

#[test]
fn get_streaks_distractive_gap_over_threshold_no_merge() {
    let s1 = test_start() + 30 * ONE_HOUR;
    let e1 = s1 + 20 * MIN;
    let s2 = e1 + 5 * MIN + 1;
    let e2 = s2 + 20 * MIN;
    let r = streaks(vec![u(s1, e1, -2), u(s2, e2, -2)], focus(20 * MIN, 5 * MIN), distractive(10 * MIN, 5 * MIN));
    assert_eq!(r.len(), 2);
    assert!(r.iter().all(|p| !p.is_focused));
}

#[test]
fn get_streaks_focus_pruned_by_exact_overlap() {
    let s = test_start() + 40 * ONE_HOUR;
    let e = s + 40 * MIN;
    let r = streaks(vec![u(s, e, 10), u(s, e, 0)], focus(30 * MIN, 5 * MIN), distractive(20 * MIN, 5 * MIN));
    assert_eq!(r.len(), 1);
    assert!(!r[0].is_focused);
    assert_eq!((r[0].start, r[0].end), (s, e));
}

fn basic_case(score: i64, duration: i64, expect_focus: bool) {
    let s = test_start() + 2 * ONE_HOUR;
    let r = light(vec![u(s, s + duration, score)]);
    assert_eq!(r.len(), 1);
    assert_eq!(r[0].is_focused, expect_focus);
}

#[test]
fn get_streaks_focus_exact_min_duration() {
    basic_case(6, 10 * MIN, true);
}

#[test]
fn get_streaks_focus_below_min_duration_skipped() {
    let s = test_start() + 3 * ONE_HOUR;
    assert_eq!(light(vec![u(s, s + 10 * MIN - 1, 6)]).len(), 0);
}

#[test]
fn get_streaks_distractive_exact_min_duration() {
    basic_case(0, 10 * MIN, false);
}

#[test]
fn get_streaks_tagless_app_counts_distractive() {
    let s = test_start() + 4 * ONE_HOUR;
    let r = light(vec![u(s, s + 20 * MIN, 0)]);
    assert_eq!(r.len(), 1);
    assert!(!r[0].is_focused);
}

#[test]
fn get_streaks_focus_usage_starts_before_range_clipped() {
    let r = light(vec![u(test_start() - 30 * MIN, test_start() + 30 * MIN, 8)]);
    assert_eq!(r.len(), 1);
    assert_eq!(r[0].start, test_start());
}

#[test]
fn get_streaks_distractive_usage_extends_after_range_clipped() {
    let r = light(vec![u(test_end() - 30 * MIN, test_end() + 30 * MIN, 0)]);
    assert_eq!(r.len(), 1);
    assert_eq!(r[0].end, test_end());
}

#[test]
fn get_streaks_usage_covers_entire_range() {
    let r = light(vec![u(test_start(), test_end(), 9)]);
    assert_eq!(r.len(), 1);
    assert_eq!(r[0].start, test_start());
    assert_eq!(r[0].end, test_end());
    assert!(r[0].is_focused);
}

#[test]
fn get_streaks_negative_score_distractive() {
    basic_case(-5, 15 * MIN, false);
}

#[test]
fn get_streaks_zero_score_distractive() {
    basic_case(0, 15 * MIN, false);
}

#[test]
fn get_streaks_focus_score_one_above_threshold() {
    basic_case(6, 15 * MIN, true);
}

#[test]
fn get_streaks_focus_transitive_three_usages() {
    let s1 = test_start() + 6 * ONE_HOUR;
    let e1 = s1 + 15 * MIN;
    let s2 = e1 + 4 * MIN;
    let e2 = s2 + 15 * MIN;
    let s3 = e2 + 4 * MIN;
    let e3 = s3 + 15 * MIN;
    let r = light(vec![u(s1, e1, 9), u(s2, e2, 9), u(s3, e3, 9)]);
    assert_eq!(r.len(), 1);
    assert_eq!((r[0].start, r[0].end), (s1, e3));
}

#[test]
fn get_streaks_focus_gap_crosses_distractive_not_merge() {
    let f1s = test_start() + 12 * ONE_HOUR;
    let f1e = f1s + 15 * MIN;
    let ds = f1e + 2 * MIN;
    let de = ds + 15 * MIN;
    let f2s = de + 2 * MIN;
    let f2e = f2s + 15 * MIN;
    let r = light(vec![u(f1s, f1e, 10), u(ds, de, 0), u(f2s, f2e, 10)]);
    assert_eq!(r.len(), 3);
    assert_eq!(r.iter().filter(|p| p.is_focused).count(), 2);
}

#[test]
fn get_streaks_focus_score_equal_threshold_old() {
    basic_case(2, 15 * MIN, false);
}

#[test]
fn get_streaks_distractive_score_under_threshold() {
    basic_case(2, 15 * MIN, false);
}

#[test]
fn get_streaks_focus_overlap_zero_gap_merges() {
    let s1 = test_start() + 8 * ONE_HOUR;
    let e1 = s1 + 15 * MIN;
    let s2 = s1 + 5 * MIN;
    let e2 = s2 + 15 * MIN;
    let r = light(vec![u(s1, e1, 10), u(s2, e2, 10)]);
    assert_eq!(r.len(), 1);
    assert!(r[0].is_focused);
    assert_eq!((r[0].start, r[0].end), (s1, e2));
}

#[test]
fn get_streaks_focus_score_equal_threshold_not_focus() {
    let s = test_start() + 2 * ONE_HOUR;
    assert!(light(vec![u(s, s + 15 * MIN, 5)]).is_empty());
}

#[test]
fn get_streaks_distractive_switch_apps_contiguous_usages_merges() {
    let s1 = test_start() + 10 * ONE_HOUR;
    let e1 = s1 + 10 * MIN;
    let s2 = e1;
    let e2 = s2 + 10 * MIN;
    let r = streaks(vec![u(s1, e1, 2), u(s2, e2, 2)], focus(15 * MIN, 5 * MIN), distractive(15 * MIN, 5 * MIN));
    assert_eq!(r.len(), 1);
    assert!(!r[0].is_focused);
    assert_eq!((r[0].start, r[0].end), (s1, e2));
}

#[test]
fn get_streaks_distractive_multi_session_same_app_merges() {
    let s1 = test_start() + 12 * ONE_HOUR;
    let e1 = s1 + 15 * MIN;
    let s2 = e1;
    let e2 = s2 + 15 * MIN;
    let r = streaks(vec![u(s1, e1, 1), u(s2, e2, 1)], focus(25 * MIN, 5 * MIN), distractive(25 * MIN, 5 * MIN));
    assert_eq!(r.len(), 1);
    assert!(!r[0].is_focused);
    assert_eq!((r[0].start, r[0].end), (s1, e2));
}

#[test]
fn get_streaks_focus_switch_apps_contiguous_usages_merges() {
    let s1 = test_start() + 14 * ONE_HOUR;
    let e1 = s1 + 15 * MIN;
    let s2 = e1;
    let e2 = s2 + 15 * MIN;
    let r = streaks(vec![u(s1, e1, 10), u(s2, e2, 10)], focus(25 * MIN, 5 * MIN), distractive(25 * MIN, 5 * MIN));
    assert_eq!(r.len(), 1);
    assert!(r[0].is_focused);
    assert_eq!((r[0].start, r[0].end), (s1, e2));
}

#[test]
fn get_streaks_focus_multi_session_same_app_merges() {
    let s1 = test_start() + 16 * ONE_HOUR;
    let e1 = s1 + 15 * MIN;
    let s2 = e1;
    let e2 = s2 + 15 * MIN;
    let r = streaks(vec![u(s1, e1, 8), u(s2, e2, 8)], focus(25 * MIN, 5 * MIN), distractive(25 * MIN, 5 * MIN));
    assert_eq!(r.len(), 1);
    assert!(r[0].is_focused);
    assert_eq!((r[0].start, r[0].end), (s1, e2));
}

#[test]
fn get_streaks_dp_blocks_focus_usage_extension() {
    let f1s = test_start() + 18 * ONE_HOUR;
    let f1e = f1s + 6 * MIN;
    let f2s = f1e;
    let f2e = f2s + 6 * MIN;
    let ds = f2e + MIN;
    let de = ds + 15 * MIN;
    let f3s = de + MIN;
    let f3e = f3s + 6 * MIN;
    let r = light(vec![u(f1s, f1e, 10), u(f2s, f2e, 10), u(ds, de, 0), u(f3s, f3e, 10)]);
    assert_eq!(r.len(), 2);
    assert_eq!(r.iter().filter(|p| p.is_focused).count(), 1);
    let fp = r.iter().find(|p| p.is_focused).unwrap();
    assert_eq!((fp.start, fp.end), (f1s, f2e));
}

#[test]
fn get_streaks_dp_prevents_focus_streaks_merging() {
    let f1s = test_start() + 20 * ONE_HOUR;
    let f1e = f1s + 15 * MIN;
    let ds = f1e + MIN;
    let de = ds + 15 * MIN;
    let f2s = de + MIN;
    let f2e = f2s + 15 * MIN;
    let r = streaks(vec![u(f1s, f1e, 10), u(ds, de, 0), u(f2s, f2e, 10)], focus(10 * MIN, 20 * MIN), distractive(10 * MIN, 5 * MIN));
    assert_eq!(r.len(), 3);
    assert_eq!(r.iter().filter(|p| p.is_focused).count(), 2);
    let mut starts: Vec<i64> = r.iter().filter(|p| p.is_focused).map(|p| p.start).collect();
    starts.sort();
    assert_eq!(starts, vec![f1s, f2s]);
}

#[test]
fn streaks_list_distractive_then_focused() {
    // a distractive period between two focused ones
    let f1s = test_start() + 20 * ONE_HOUR;
    let r = streaks(
        vec![u(f1s + 60 * MIN, f1s + 75 * MIN, 10), u(f1s + 30 * MIN, f1s + 45 * MIN, 0), u(f1s, f1s + 15 * MIN, 10)],
        focus(10 * MIN, 5 * MIN),
        distractive(10 * MIN, 5 * MIN),
    );
    assert_eq!(
        r,
        vec![
            FocusPeriod { start: f1s + 30 * MIN, end: f1s + 45 * MIN, is_focused: false },
            FocusPeriod { start: f1s, end: f1s + 15 * MIN, is_focused: true },
            FocusPeriod { start: f1s + 60 * MIN, end: f1s + 75 * MIN, is_focused: true },
        ]
    );
}

#[test]
fn short_distractive_usage_does_not_prune_focus() {
    // a distractive chain too short to count leaves an overlapping focus usage alone
    let s = test_start() + 30 * ONE_HOUR;
    let r = light(vec![u(s, s + 20 * MIN, 10), u(s + 5 * MIN, s + 8 * MIN, 0)]);
    assert_eq!(r, vec![FocusPeriod { start: s, end: s + 20 * MIN, is_focused: true }]);
}

#[test]
fn periods_are_nonempty_and_kinds_apart() {
    let s = test_start() + 40 * ONE_HOUR;
    let usages = vec![
        u(s, s + 20 * MIN, 10),
        u(s + 22 * MIN, s + 40 * MIN, 0),
        u(s + 41 * MIN, s + 70 * MIN, 10),
        u(s + 30 * MIN, s + 35 * MIN, 10),
        u(s + 72 * MIN, s + 90 * MIN, 1),
        u(s - 10 * MIN, s + 5 * MIN, 10),
    ];
    let r = light(usages);
    assert!(!r.is_empty());
    assert!(r.iter().any(|p| p.is_focused) && r.iter().any(|p| !p.is_focused));
    for p in &r {
        assert!(p.start < p.end);
    }
    for f in r.iter().filter(|p| p.is_focused) {
        for d in r.iter().filter(|p| !p.is_focused) {
            assert!(f.end <= d.start || f.start >= d.end);
        }
    }
}
