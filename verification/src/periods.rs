//! Focused and distractive periods (streaks) of usage.
//!
//! A usage is *distractive* when its app scores below the distractive
//! threshold, and *focused* when its app scores above the focus threshold.
//! Usages of one kind, taken in order of start (then end), are chained into
//! a period while each one starts at most the maximum gap after the end of
//! the usage before it; a period counts when it lasts at least the minimum
//! duration of its kind. Focused usages that overlap a distractive period
//! are left out, and a focused chain also breaks where a distractive period
//! lies between two of its usages. Periods are clipped to the requested
//! range, and listed distractive first, then focused, each kind by start.
use vstd::prelude::*;

use crate::entities::{Duration, Timestamp};

verus! {

/// Represents a period of time that is either focused or distractive.
#[derive(Clone, Copy, Debug, PartialEq, Eq, Structural)]
pub struct FocusPeriod {
    /// The start time of the period.
    pub start: Timestamp,
    /// The end time of the period.
    pub end: Timestamp,
    /// Whether the period is a focused period. If false, it is a distractive period.
    pub is_focused: bool,
}

/// Settings for focus periods.
#[derive(Clone, Copy, Debug, PartialEq, Eq, Structural)]
pub struct FocusPeriodSettings {
    /// The minimum score of a focused app (exclusive).
    pub min_focus_score: i64,
    /// The minimum duration of a focused usage.
    pub min_focus_usage_dur: Duration,
    /// The maximum gap between two focused usages of one period.
    pub max_focus_gap: Duration,
}

/// Settings for distractive periods.
#[derive(Clone, Copy, Debug, PartialEq, Eq, Structural)]
pub struct DistractivePeriodSettings {
    /// The maximum score of a distractive app (exclusive).
    pub max_distractive_score: i64,
    /// The minimum duration of a distractive usage.
    pub min_distractive_usage_dur: Duration,
    /// The maximum gap between two distractive usages of one period.
    pub max_distractive_gap: Duration,
}

/// A usage together with the score of its app (the score of the app's tag,
/// 0 for an app without a tag).
#[derive(Clone, Copy, Debug, PartialEq, Eq, Structural)]
pub struct ScoredUsage {
    pub start: Timestamp,
    pub end: Timestamp,
    pub score: i64,
}

/// A stretch of time.
#[derive(Clone, Copy, Debug, PartialEq, Eq, Structural)]
pub struct Span {
    pub start: Timestamp,
    pub end: Timestamp,
}

// ---------------------------------------------------------------------------
// Specification
// ---------------------------------------------------------------------------

/// The usage overlaps the range `(start, end)`.
pub open spec fn in_range(u: ScoredUsage, start: int, end: int) -> bool {
    u.end > start && u.start < end
}

/// The usage counts toward a distractive period.
pub open spec fn is_distractive(u: ScoredUsage, ds: DistractivePeriodSettings) -> bool {
    u.score < ds.max_distractive_score
}

/// The usage counts toward a focused period (unless it overlaps a
/// distractive period).
pub open spec fn is_focus(u: ScoredUsage, fs: FocusPeriodSettings) -> bool {
    u.score > fs.min_focus_score
}

pub open spec fn span_of(u: ScoredUsage) -> Span {
    Span { start: u.start, end: u.end }
}

/// The spans of the usages in range that `keep` selects, in input order.
pub open spec fn select_spans(
    usages: Seq<ScoredUsage>,
    start: int,
    end: int,
    keep: spec_fn(ScoredUsage) -> bool,
) -> Seq<Span>
    decreases usages.len(),
{
    if usages.len() == 0 {
        Seq::empty()
    } else {
        let rest = select_spans(usages.drop_last(), start, end, keep);
        let u = usages.last();
        if in_range(u, start, end) && keep(u) {
            rest.push(span_of(u))
        } else {
            rest
        }
    }
}

/// Order of spans: by start, then by end.
pub open spec fn span_le(a: Span, b: Span) -> bool {
    a.start < b.start || (a.start == b.start && a.end <= b.end)
}

/// Inserts `x` before the first span that it orders before.
pub open spec fn sorted_insert(s: Seq<Span>, x: Span) -> Seq<Span>
    decreases s.len(),
{
    if s.len() == 0 {
        seq![x]
    } else if span_le(x, s[0]) {
        seq![x] + s
    } else {
        seq![s[0]] + sorted_insert(s.drop_first(), x)
    }
}

/// The spans ordered by start, then end (spans that compare equal are equal).
pub open spec fn sort_spans(s: Seq<Span>) -> Seq<Span>
    decreases s.len(),
{
    if s.len() == 0 {
        Seq::empty()
    } else {
        sorted_insert(sort_spans(s.drop_last()), s.last())
    }
}

/// The period `dp` lies between a usage that ended at `prev_end` and the
/// next usage `x`.
pub open spec fn lies_between(dp: Span, prev_end: int, x: Span) -> bool {
    dp.start < x.start && dp.end > prev_end
}

/// Usage `x`, following a usage that ended at `prev_end`, starts a new period.
pub open spec fn breaks_chain(prev_end: int, x: Span, gap: int, blockers: Seq<Span>) -> bool {
    x.start - prev_end > gap || exists|k: int|
        0 <= k < blockers.len() && #[trigger] lies_between(blockers[k], prev_end, x)
}

/// The smallest span that covers both.
pub open spec fn cover(a: Span, b: Span) -> Span {
    Span {
        start: if a.start <= b.start { a.start } else { b.start },
        end: if a.end >= b.end { a.end } else { b.end },
    }
}

/// The periods formed by chaining the spans, in order.
pub open spec fn chain_spans(s: Seq<Span>, gap: int, blockers: Seq<Span>) -> Seq<Span>
    decreases s.len(),
{
    if s.len() == 0 {
        Seq::empty()
    } else if s.len() == 1 {
        seq![s[0]]
    } else {
        let g = chain_spans(s.drop_last(), gap, blockers);
        let x = s.last();
        if breaks_chain(s[s.len() - 2].end as int, x, gap, blockers) {
            g.push(x)
        } else {
            g.update(g.len() - 1, cover(g.last(), x))
        }
    }
}

/// The two spans overlap.
pub open spec fn overlaps(a: Span, b: Span) -> bool {
    a.start < b.end && a.end > b.start
}

/// The span overlaps one of the periods.
pub open spec fn overlaps_any(a: Span, periods: Seq<Span>) -> bool {
    exists|k: int| 0 <= k < periods.len() && #[trigger] overlaps(a, periods[k])
}

/// The spans that overlap none of the periods, in order.
pub open spec fn prune_spans(s: Seq<Span>, periods: Seq<Span>) -> Seq<Span>
    decreases s.len(),
{
    if s.len() == 0 {
        Seq::empty()
    } else {
        let rest = prune_spans(s.drop_last(), periods);
        if overlaps_any(s.last(), periods) {
            rest
        } else {
            rest.push(s.last())
        }
    }
}

/// The periods that last at least `min_dur`, in order.
pub open spec fn long_spans(g: Seq<Span>, min_dur: int) -> Seq<Span>
    decreases g.len(),
{
    if g.len() == 0 {
        Seq::empty()
    } else {
        let rest = long_spans(g.drop_last(), min_dur);
        if g.last().end - g.last().start >= min_dur {
            rest.push(g.last())
        } else {
            rest
        }
    }
}

/// The non-empty periods, clipped to the range and labelled.
pub open spec fn clip_periods(g: Seq<Span>, start: Timestamp, end: Timestamp, focused: bool) -> Seq<FocusPeriod>
    decreases g.len(),
{
    if g.len() == 0 {
        Seq::empty()
    } else {
        let rest = clip_periods(g.drop_last(), start, end, focused);
        let p = g.last();
        if p.start < p.end {
            rest.push(
                FocusPeriod {
                    start: if p.start >= start { p.start } else { start },
                    end: if p.end <= end { p.end } else { end },
                    is_focused: focused,
                },
            )
        } else {
            rest
        }
    }
}

/// The distractive periods, unclipped.
pub open spec fn distractive_chains(
    usages: Seq<ScoredUsage>,
    start: int,
    end: int,
    ds: DistractivePeriodSettings,
) -> Seq<Span> {
    long_spans(
        chain_spans(
            sort_spans(select_spans(usages, start, end, |u: ScoredUsage| is_distractive(u, ds))),
            ds.max_distractive_gap as int,
            Seq::empty(),
        ),
        ds.min_distractive_usage_dur as int,
    )
}

/// The focused periods, unclipped.
pub open spec fn focus_chains(
    usages: Seq<ScoredUsage>,
    start: int,
    end: int,
    fs: FocusPeriodSettings,
    ds: DistractivePeriodSettings,
) -> Seq<Span> {
    let dps = distractive_chains(usages, start, end, ds);
    long_spans(
        chain_spans(
            prune_spans(
                sort_spans(select_spans(usages, start, end, |u: ScoredUsage| is_focus(u, fs))),
                dps,
            ),
            fs.max_focus_gap as int,
            dps,
        ),
        fs.min_focus_usage_dur as int,
    )
}

/// All distractive and focused periods of the usages in the range: the
/// distractive periods, then the focused ones, each kind ordered by start.
pub open spec fn spec_periods(
    usages: Seq<ScoredUsage>,
    start: Timestamp,
    end: Timestamp,
    fs: FocusPeriodSettings,
    ds: DistractivePeriodSettings,
) -> Seq<FocusPeriod> {
    clip_periods(distractive_chains(usages, start as int, end as int, ds), start, end, false)
        + clip_periods(focus_chains(usages, start as int, end as int, fs, ds), start, end, true)
}

// ---------------------------------------------------------------------------
// Implementation
// ---------------------------------------------------------------------------

fn select_distractive(usages: &Vec<ScoredUsage>, start: Timestamp, end: Timestamp, ds: DistractivePeriodSettings) -> (r: Vec<Span>)
    ensures
        r@ == select_spans(usages@, start as int, end as int, |u: ScoredUsage| is_distractive(u, ds)),
{
    let ghost keep = |u: ScoredUsage| is_distractive(u, ds);
    let mut r: Vec<Span> = Vec::new();
    let mut i: usize = 0;
    while i < usages.len()
        invariant
            i <= usages.len(),
            r@ == select_spans(usages@.take(i as int), start as int, end as int, keep),
            keep == (|u: ScoredUsage| is_distractive(u, ds)),
        decreases usages.len() - i,
    {
        let u = usages[i];
        proof {
            let t = usages@.take(i + 1);
            assert(t.drop_last() =~= usages@.take(i as int));
            assert(t.last() == u);
        }
        if u.end > start && u.start < end && u.score < ds.max_distractive_score {
            assert(keep(u));
            r.push(Span { start: u.start, end: u.end });
        }
        i = i + 1;
    }
    assert(usages@.take(usages.len() as int) =~= usages@);
    r
}

fn select_focus(usages: &Vec<ScoredUsage>, start: Timestamp, end: Timestamp, fs: FocusPeriodSettings) -> (r: Vec<Span>)
    ensures
        r@ == select_spans(usages@, start as int, end as int, |u: ScoredUsage| is_focus(u, fs)),
{
    let ghost keep = |u: ScoredUsage| is_focus(u, fs);
    let mut r: Vec<Span> = Vec::new();
    let mut i: usize = 0;
    while i < usages.len()
        invariant
            i <= usages.len(),
            r@ == select_spans(usages@.take(i as int), start as int, end as int, keep),
            keep == (|u: ScoredUsage| is_focus(u, fs)),
        decreases usages.len() - i,
    {
        let u = usages[i];
        proof {
            let t = usages@.take(i + 1);
            assert(t.drop_last() =~= usages@.take(i as int));
            assert(t.last() == u);
        }
        if u.end > start && u.start < end && u.score > fs.min_focus_score {
            assert(keep(u));
            r.push(Span { start: u.start, end: u.end });
        }
        i = i + 1;
    }
    assert(usages@.take(usages.len() as int) =~= usages@);
    r
}

fn span_le_exec(a: Span, b: Span) -> (r: bool)
    ensures
        r == span_le(a, b),
{
    a.start < b.start || (a.start == b.start && a.end <= b.end)
}

proof fn lemma_sorted_insert_at(s: Seq<Span>, x: Span, p: int)
    requires
        0 <= p <= s.len(),
        forall|j: int| 0 <= j < p ==> !span_le(x, #[trigger] s[j]),
        p < s.len() ==> span_le(x, s[p]),
    ensures
        sorted_insert(s, x) == s.insert(p, x),
    decreases p,
{
    if s.len() == 0 {
        assert(s.insert(p, x) =~= seq![x]);
    } else if p == 0 {
        assert(s.insert(p, x) =~= seq![x] + s);
    } else {
        let t = s.drop_first();
        assert forall|j: int| 0 <= j < p - 1 implies !span_le(x, #[trigger] t[j]) by {
            assert(t[j] == s[j + 1]);
        }
        lemma_sorted_insert_at(t, x, p - 1);
        assert(s.insert(p, x) =~= seq![s[0]] + t.insert(p - 1, x));
    }
}

/// Inserts `x` into `v` before the first span that it orders before.
fn insert_sorted(v: &mut Vec<Span>, x: Span)
    ensures
        final(v)@ == sorted_insert(old(v)@, x),
{
    let mut p: usize = 0;
    while p < v.len() && !span_le_exec(x, v[p])
        invariant
            p <= v.len(),
            forall|j: int| 0 <= j < p ==> !span_le(x, #[trigger] v@[j]),
        decreases v.len() - p,
    {
        p = p + 1;
    }
    proof {
        lemma_sorted_insert_at(v@, x, p as int);
    }
    v.insert(p, x);
}

/// The spans ordered by start, then end.
pub fn sort_by_start(s: &Vec<Span>) -> (r: Vec<Span>)
    ensures
        r@ == sort_spans(s@),
{
    let mut r: Vec<Span> = Vec::new();
    let mut i: usize = 0;
    while i < s.len()
        invariant
            i <= s.len(),
            r@ == sort_spans(s@.take(i as int)),
        decreases s.len() - i,
    {
        assert(s@.take(i + 1).drop_last() =~= s@.take(i as int));
        insert_sorted(&mut r, s[i]);
        i = i + 1;
    }
    assert(s@.take(s.len() as int) =~= s@);
    r
}

/// Some period lies between a usage that ended at `prev_end` and `x`.
fn any_lies_between(blockers: &Vec<Span>, prev_end: Timestamp, x: Span) -> (r: bool)
    ensures
        r == exists|k: int| 0 <= k < blockers@.len() && #[trigger] lies_between(blockers@[k], prev_end as int, x),
{
    let mut k: usize = 0;
    while k < blockers.len()
        invariant
            k <= blockers.len(),
            forall|j: int| 0 <= j < k ==> !#[trigger] lies_between(blockers@[j], prev_end as int, x),
        decreases blockers.len() - k,
    {
        let dp = blockers[k];
        if dp.start < x.start && dp.end > prev_end {
            assert(lies_between(blockers@[k as int], prev_end as int, x));
            return true;
        }
        k = k + 1;
    }
    false
}

/// The periods formed by chaining the ordered spans.
fn chain(s: &Vec<Span>, gap: Duration, blockers: &Vec<Span>) -> (r: Vec<Span>)
    ensures
        r@ == chain_spans(s@, gap as int, blockers@),
{
    let mut g: Vec<Span> = Vec::new();
    let mut i: usize = 0;
    while i < s.len()
        invariant
            i <= s.len(),
            g@ == chain_spans(s@.take(i as int), gap as int, blockers@),
            i > 0 ==> g.len() > 0,
        decreases s.len() - i,
    {
        let x = s[i];
        proof {
            let t = s@.take(i + 1);
            assert(t.drop_last() =~= s@.take(i as int));
            assert(t.last() == x);
            if i > 0 {
                assert(t[t.len() - 2] == s@[i - 1]);
            }
        }
        if i == 0 {
            g.push(x);
            assert(s@.take(1) =~= seq![x]);
        } else {
            let prev_end = s[i - 1].end;
            let gap_exceeded: bool = x.start as i128 - prev_end as i128 > gap as i128;
            if gap_exceeded || any_lies_between(blockers, prev_end, x) {
                g.push(x);
            } else {
                let n = g.len() - 1;
                let last = g[n];
                let c = Span {
                    start: if last.start <= x.start { last.start } else { x.start },
                    end: if last.end >= x.end { last.end } else { x.end },
                };
                g.set(n, c);
            }
        }
        i = i + 1;
    }
    assert(s@.take(s.len() as int) =~= s@);
    g
}

/// The span overlaps one of the periods.
fn overlaps_any_exec(a: Span, periods: &Vec<Span>) -> (r: bool)
    ensures
        r == overlaps_any(a, periods@),
{
    let mut k: usize = 0;
    while k < periods.len()
        invariant
            k <= periods.len(),
            forall|j: int| 0 <= j < k ==> !#[trigger] overlaps(a, periods@[j]),
        decreases periods.len() - k,
    {
        let p = periods[k];
        if a.start < p.end && a.end > p.start {
            assert(overlaps(a, periods@[k as int]));
            return true;
        }
        k = k + 1;
    }
    false
}

/// The spans that overlap none of the periods.
fn prune(s: &Vec<Span>, periods: &Vec<Span>) -> (r: Vec<Span>)
    ensures
        r@ == prune_spans(s@, periods@),
{
    let mut r: Vec<Span> = Vec::new();
    let mut i: usize = 0;
    while i < s.len()
        invariant
            i <= s.len(),
            r@ == prune_spans(s@.take(i as int), periods@),
        decreases s.len() - i,
    {
        let x = s[i];
        proof {
            let t = s@.take(i + 1);
            assert(t.drop_last() =~= s@.take(i as int));
            assert(t.last() == x);
        }
        if !overlaps_any_exec(x, periods) {
            r.push(x);
        }
        i = i + 1;
    }
    assert(s@.take(s.len() as int) =~= s@);
    r
}

/// The periods that last at least `min_dur`.
fn keep_long(g: &Vec<Span>, min_dur: Duration) -> (r: Vec<Span>)
    ensures
        r@ == long_spans(g@, min_dur as int),
{
    let mut r: Vec<Span> = Vec::new();
    let mut i: usize = 0;
    while i < g.len()
        invariant
            i <= g.len(),
            r@ == long_spans(g@.take(i as int), min_dur as int),
        decreases g.len() - i,
    {
        let p = g[i];
        proof {
            let t = g@.take(i + 1);
            assert(t.drop_last() =~= g@.take(i as int));
            assert(t.last() == p);
        }
        if p.end as i128 - p.start as i128 >= min_dur as i128 {
            r.push(p);
        }
        i = i + 1;
    }
    assert(g@.take(g.len() as int) =~= g@);
    r
}

/// The non-empty periods, clipped to the range and labelled.
fn clip(g: &Vec<Span>, start: Timestamp, end: Timestamp, focused: bool) -> (r: Vec<FocusPeriod>)
    ensures
        r@ == clip_periods(g@, start, end, focused),
{
    let mut r: Vec<FocusPeriod> = Vec::new();
    let mut i: usize = 0;
    while i < g.len()
        invariant
            i <= g.len(),
            r@ == clip_periods(g@.take(i as int), start, end, focused),
        decreases g.len() - i,
    {
        let p = g[i];
        proof {
            let t = g@.take(i + 1);
            assert(t.drop_last() =~= g@.take(i as int));
            assert(t.last() == p);
        }
        if p.start < p.end {
            r.push(
                FocusPeriod {
                    start: if p.start >= start { p.start } else { start },
                    end: if p.end <= end { p.end } else { end },
                    is_focused: focused,
                },
            );
        }
        i = i + 1;
    }
    assert(g@.take(g.len() as int) =~= g@);
    r
}

/// Gets all distractive and focused periods in the range `(start, end)` from
/// the usages (each with the score of its app): the distractive periods, then
/// the focused ones, each kind ordered by start.
///
/// Only usages that overlap the range count. Usages scoring below
/// `max_distractive_score` are chained (gaps of at most
/// `max_distractive_gap`) into distractive periods, which count when they
/// last at least `min_distractive_usage_dur`. Usages scoring above
/// `min_focus_score` that overlap no distractive period are chained (gaps of
/// at most `max_focus_gap`, and no distractive period in between) into
/// focused periods, which count when they last at least
/// `min_focus_usage_dur`. Empty periods are dropped and the rest are clipped
/// to the range.
pub fn get_periods(
    usages: &Vec<ScoredUsage>,
    start: Timestamp,
    end: Timestamp,
    focus_settings: FocusPeriodSettings,
    distractive_settings: DistractivePeriodSettings,
) -> (r: Vec<FocusPeriod>)
    ensures
        r@ == spec_periods(usages@, start, end, focus_settings, distractive_settings),
{
    let ds = distractive_settings;
    let fs = focus_settings;
    let d_sel = select_distractive(usages, start, end, ds);
    let d_sorted = sort_by_start(&d_sel);
    let no_blockers: Vec<Span> = Vec::new();
    let d_all = chain(&d_sorted, ds.max_distractive_gap, &no_blockers);
    assert(no_blockers@ =~= Seq::<Span>::empty());
    let d_chains = keep_long(&d_all, ds.min_distractive_usage_dur);
    let f_sel = select_focus(usages, start, end, fs);
    let f_sorted = sort_by_start(&f_sel);
    let f_pruned = prune(&f_sorted, &d_chains);
    let f_all = chain(&f_pruned, fs.max_focus_gap, &d_chains);
    let f_chains = keep_long(&f_all, fs.min_focus_usage_dur);
    let f_out = clip(&f_chains, start, end, true);
    let mut f_out = f_out;
    let mut periods = clip(&d_chains, start, end, false);
    periods.append(&mut f_out);
    periods
}

// ---------------------------------------------------------------------------
// Laws
// ---------------------------------------------------------------------------

/// The spans are ordered by start.
pub open spec fn starts_sorted(s: Seq<Span>) -> bool {
    forall|i: int, j: int| 0 <= i < j < s.len() ==> s[i].start <= s[j].start
}

/// The periods are ordered by start.
pub open spec fn periods_sorted(s: Seq<FocusPeriod>) -> bool {
    forall|i: int, j: int| 0 <= i < j < s.len() ==> s[i].start <= s[j].start
}

proof fn lemma_sorted_insert_sorted(s: Seq<Span>, x: Span)
    requires
        starts_sorted(s),
    ensures
        starts_sorted(sorted_insert(s, x)),
        sorted_insert(s, x).len() == s.len() + 1,
        forall|k: int| 0 <= k < sorted_insert(s, x).len() ==> (#[trigger] sorted_insert(s, x)[k]
            == x || s.contains(sorted_insert(s, x)[k])),
    decreases s.len(),
{
    if s.len() == 0 {
    } else if span_le(x, s[0]) {
        let r = seq![x] + s;
        assert forall|k: int| 0 <= k < r.len() implies (r[k] == x || s.contains(r[k])) by {
            if k > 0 {
                assert(r[k] == s[k - 1]);
            }
        }
    } else {
        let t = s.drop_first();
        lemma_sorted_insert_sorted(t, x);
        let ti = sorted_insert(t, x);
        let r = seq![s[0]] + ti;
        assert forall|k: int| 0 <= k < r.len() implies (r[k] == x || s.contains(r[k])) by {
            if k == 0 {
                assert(s[0] == s[0]);
            } else {
                assert(r[k] == ti[k - 1]);
                if ti[k - 1] != x {
                    let m = choose|m: int| 0 <= m < t.len() && t[m] == ti[k - 1];
                    assert(s[m + 1] == t[m]);
                }
            }
        }
        assert forall|i: int, j: int| 0 <= i < j < r.len() implies r[i].start <= r[j].start by {
            if i == 0 {
                assert(r[j] == ti[j - 1]);
                if ti[j - 1] == x {
                } else {
                    let m = choose|m: int| 0 <= m < t.len() && t[m] == ti[j - 1];
                    assert(s[m + 1] == t[m]);
                }
            } else {
                assert(r[i] == ti[i - 1]);
                assert(r[j] == ti[j - 1]);
            }
        }
    }
}

proof fn lemma_sort_sorted(s: Seq<Span>)
    ensures
        starts_sorted(sort_spans(s)),
    decreases s.len(),
{
    if s.len() > 0 {
        lemma_sort_sorted(s.drop_last());
        lemma_sorted_insert_sorted(sort_spans(s.drop_last()), s.last());
    }
}

proof fn lemma_prune_sorted(s: Seq<Span>, periods: Seq<Span>)
    requires
        starts_sorted(s),
    ensures
        starts_sorted(prune_spans(s, periods)),
        forall|k: int| 0 <= k < prune_spans(s, periods).len() ==> s.contains(
            #[trigger] prune_spans(s, periods)[k],
        ),
    decreases s.len(),
{
    if s.len() > 0 {
        let t = s.drop_last();
        lemma_prune_sorted(t, periods);
        let rest = prune_spans(t, periods);
        assert forall|k: int| 0 <= k < rest.len() implies s.contains(rest[k]) by {
            let m = choose|m: int| 0 <= m < t.len() && t[m] == rest[k];
            assert(s[m] == t[m]);
        }
        if !overlaps_any(s.last(), periods) {
            let r = rest.push(s.last());
            assert forall|i: int, j: int| 0 <= i < j < r.len() implies r[i].start <= r[j].start by {
                if j == r.len() - 1 {
                    let m = choose|m: int| 0 <= m < t.len() && t[m] == rest[i];
                    assert(s[m] == t[m]);
                }
            }
            assert forall|k: int| 0 <= k < r.len() implies s.contains(r[k]) by {
                if k == r.len() - 1 {
                    assert(s[s.len() - 1] == s.last());
                }
            }
        }
    }
}

proof fn lemma_long_sorted(g: Seq<Span>, min_dur: int)
    requires
        starts_sorted(g),
    ensures
        starts_sorted(long_spans(g, min_dur)),
        forall|k: int| 0 <= k < long_spans(g, min_dur).len() ==> g.contains(
            #[trigger] long_spans(g, min_dur)[k],
        ),
    decreases g.len(),
{
    if g.len() > 0 {
        let t = g.drop_last();
        lemma_long_sorted(t, min_dur);
        let rest = long_spans(t, min_dur);
        assert forall|k: int| 0 <= k < rest.len() implies g.contains(rest[k]) by {
            let m = choose|m: int| 0 <= m < t.len() && t[m] == rest[k];
            assert(g[m] == t[m]);
        }
        if g.last().end - g.last().start >= min_dur {
            let r = rest.push(g.last());
            assert forall|i: int, j: int| 0 <= i < j < r.len() implies r[i].start <= r[j].start by {
                if j == r.len() - 1 {
                    let m = choose|m: int| 0 <= m < t.len() && t[m] == rest[i];
                    assert(g[m] == t[m]);
                }
            }
            assert forall|k: int| 0 <= k < r.len() implies g.contains(r[k]) by {
                if k == r.len() - 1 {
                    assert(g[g.len() - 1] == g.last());
                }
            }
        }
    }
}

proof fn lemma_chain_sorted(s: Seq<Span>, gap: int, blockers: Seq<Span>)
    requires
        starts_sorted(s),
    ensures
        starts_sorted(chain_spans(s, gap, blockers)),
        s.len() > 0 ==> chain_spans(s, gap, blockers).len() > 0,
        s.len() > 0 ==> chain_spans(s, gap, blockers).last().start <= s.last().start,
    decreases s.len(),
{
    if s.len() > 1 {
        let t = s.drop_last();
        lemma_chain_sorted(t, gap, blockers);
        assert(t.last() == s[s.len() - 2]);
    }
}

pub open spec fn clipped_start(p: Span, start: Timestamp) -> Timestamp {
    if p.start >= start {
        p.start
    } else {
        start
    }
}

proof fn lemma_clip_sorted(g: Seq<Span>, start: Timestamp, end: Timestamp, focused: bool)
    requires
        starts_sorted(g),
    ensures
        periods_sorted(clip_periods(g, start, end, focused)),
        g.len() > 0 ==> forall|k: int| 0 <= k < clip_periods(g, start, end, focused).len() ==> (
        #[trigger] clip_periods(g, start, end, focused)[k]).start <= clipped_start(g.last(), start),
    decreases g.len(),
{
    if g.len() > 0 {
        let t = g.drop_last();
        lemma_clip_sorted(t, start, end, focused);
        let rest = clip_periods(t, start, end, focused);
        if t.len() > 0 {
            assert(t.last() == g[g.len() - 2]);
        }
        let p = g.last();
        let r = clip_periods(g, start, end, focused);
        if p.start < p.end {
            assert forall|i: int, j: int| 0 <= i < j < r.len() implies r[i].start <= r[j].start by {
                assert(r == rest.push(FocusPeriod {
                    start: if p.start >= start { p.start } else { start },
                    end: if p.end <= end { p.end } else { end },
                    is_focused: focused,
                }));
                assert(r[i] == rest[i]);
                if j == r.len() - 1 {
                    assert(t.len() > 0);
                    assert(t.last().start <= p.start);
                    assert(rest[i].start <= clipped_start(t.last(), start));
                } else {
                    assert(r[j] == rest[j]);
                }
            }
        }
    }
}

/// The distractive periods come first, then the focused ones, and the
/// periods of each kind are ordered by start.
pub proof fn law_periods_ordered(
    usages: Seq<ScoredUsage>,
    start: Timestamp,
    end: Timestamp,
    fs: FocusPeriodSettings,
    ds: DistractivePeriodSettings,
)
    ensures
        ({
            let r = spec_periods(usages, start, end, fs, ds);
            &&& forall|i: int, j: int| 0 <= i < j < r.len() && (#[trigger] r[i]).is_focused ==> (#[trigger] r[j]).is_focused
            &&& forall|i: int, j: int|
                0 <= i < j < r.len() && (#[trigger] r[i]).is_focused == (#[trigger] r[j]).is_focused ==> r[i].start <= r[j].start
        }),
{
    let dsel = select_spans(usages, start as int, end as int, |u: ScoredUsage| is_distractive(u, ds));
    lemma_sort_sorted(dsel);
    lemma_chain_sorted(sort_spans(dsel), ds.max_distractive_gap as int, Seq::empty());
    lemma_long_sorted(
        chain_spans(sort_spans(dsel), ds.max_distractive_gap as int, Seq::empty()),
        ds.min_distractive_usage_dur as int,
    );
    let dps = distractive_chains(usages, start as int, end as int, ds);
    let fsel = select_spans(usages, start as int, end as int, |u: ScoredUsage| is_focus(u, fs));
    lemma_sort_sorted(fsel);
    lemma_prune_sorted(sort_spans(fsel), dps);
    lemma_chain_sorted(prune_spans(sort_spans(fsel), dps), fs.max_focus_gap as int, dps);
    lemma_long_sorted(
        chain_spans(prune_spans(sort_spans(fsel), dps), fs.max_focus_gap as int, dps),
        fs.min_focus_usage_dur as int,
    );
    let fcs = focus_chains(usages, start as int, end as int, fs, ds);
    lemma_clip_sorted(fcs, start, end, true);
    lemma_clip_sorted(dps, start, end, false);
    lemma_clip_within(fcs, start, end, true);
    lemma_clip_within(dps, start, end, false);
    let a = clip_periods(dps, start, end, false);
    let b = clip_periods(fcs, start, end, true);
    let r = spec_periods(usages, start, end, fs, ds);
    assert(r == a + b);
    assert forall|i: int, j: int| 0 <= i < j < r.len() && (#[trigger] r[i]).is_focused implies (#[trigger] r[j]).is_focused by {
        if i < a.len() {
            assert(r[i] == a[i]);
        } else {
            assert(r[j] == b[j - a.len()]);
        }
    }
    assert forall|i: int, j: int|
        0 <= i < j < r.len() && (#[trigger] r[i]).is_focused == (#[trigger] r[j]).is_focused implies r[i].start <= r[j].start by {
        if j < a.len() {
            assert(r[i] == a[i]);
            assert(r[j] == a[j]);
        } else if i >= a.len() {
            assert(r[i] == b[i - a.len()]);
            assert(r[j] == b[j - a.len()]);
        } else {
            assert(r[i] == a[i]);
            assert(r[j] == b[j - a.len()]);
        }
    }
}

proof fn lemma_clip_within(g: Seq<Span>, start: Timestamp, end: Timestamp, focused: bool)
    ensures
        forall|k: int| 0 <= k < clip_periods(g, start, end, focused).len() ==> {
            let p = #[trigger] clip_periods(g, start, end, focused)[k];
            start <= p.start && p.end <= end && p.is_focused == focused
        },
    decreases g.len(),
{
    if g.len() > 0 {
        let t = g.drop_last();
        lemma_clip_within(t, start, end, focused);
        let rest = clip_periods(t, start, end, focused);
        let r = clip_periods(g, start, end, focused);
        assert forall|k: int| 0 <= k < r.len() implies start <= (#[trigger] r[k]).start && r[k].end
            <= end && r[k].is_focused == focused by {
            if k < rest.len() {
                assert(r[k] == rest[k]);
            }
        }
    }
}

/// Every period lies within the requested range.
pub proof fn law_periods_within_range(
    usages: Seq<ScoredUsage>,
    start: Timestamp,
    end: Timestamp,
    fs: FocusPeriodSettings,
    ds: DistractivePeriodSettings,
)
    ensures
        forall|k: int| 0 <= k < spec_periods(usages, start, end, fs, ds).len() ==> {
            let p = #[trigger] spec_periods(usages, start, end, fs, ds)[k];
            start <= p.start && p.end <= end
        },
{
    let a = clip_periods(distractive_chains(usages, start as int, end as int, ds), start, end, false);
    let b = clip_periods(focus_chains(usages, start as int, end as int, fs, ds), start, end, true);
    lemma_clip_within(distractive_chains(usages, start as int, end as int, ds), start, end, false);
    lemma_clip_within(focus_chains(usages, start as int, end as int, fs, ds), start, end, true);
    let r = spec_periods(usages, start, end, fs, ds);
    assert(r == a + b);
    assert forall|k: int| 0 <= k < r.len() implies start <= (#[trigger] r[k]).start && r[k].end <= end by {
        if k < a.len() {
            assert(r[k] == a[k]);
        } else {
            assert(r[k] == b[k - a.len()]);
        }
    }
}


// ---------------------------------------------------------------------------
// Each period is non-empty, and no focused period overlaps a distractive one
// ---------------------------------------------------------------------------

/// The span overlaps the range `(start, end)`.
spec fn touches(a: Span, start: int, end: int) -> bool {
    a.start < end && a.end > start
}

/// The span lies wholly before or wholly after the period.
spec fn apart(a: Span, dp: Span) -> bool {
    a.end <= dp.start || a.start >= dp.end
}

/// A period of the list that [`clip_periods`] gives, made from the span `p`.
spec fn clip_one(p: Span, start: Timestamp, end: Timestamp, focused: bool) -> FocusPeriod {
    FocusPeriod {
        start: if p.start >= start { p.start } else { start },
        end: if p.end <= end { p.end } else { end },
        is_focused: focused,
    }
}

proof fn lemma_select_touch(usages: Seq<ScoredUsage>, start: int, end: int, keep: spec_fn(ScoredUsage) -> bool)
    ensures
        forall|k: int| 0 <= k < select_spans(usages, start, end, keep).len() ==> touches(
            #[trigger] select_spans(usages, start, end, keep)[k],
            start,
            end,
        ),
    decreases usages.len(),
{
    if usages.len() > 0 {
        lemma_select_touch(usages.drop_last(), start, end, keep);
        let rest = select_spans(usages.drop_last(), start, end, keep);
        let r = select_spans(usages, start, end, keep);
        assert forall|k: int| 0 <= k < r.len() implies touches(#[trigger] r[k], start, end) by {
            if k < rest.len() {
                assert(r[k] == rest[k]);
            }
        }
    }
}

proof fn lemma_sort_from(s: Seq<Span>)
    ensures
        forall|k: int| 0 <= k < sort_spans(s).len() ==> s.contains(#[trigger] sort_spans(s)[k]),
    decreases s.len(),
{
    if s.len() > 0 {
        let t = s.drop_last();
        lemma_sort_from(t);
        lemma_sort_sorted(t);
        lemma_sorted_insert_sorted(sort_spans(t), s.last());
        let r = sort_spans(s);
        assert forall|k: int| 0 <= k < r.len() implies s.contains(#[trigger] r[k]) by {
            if r[k] == s.last() {
                assert(s[s.len() - 1] == r[k]);
            } else {
                assert(sort_spans(t).contains(r[k]));
                let i = choose|i: int| 0 <= i < sort_spans(t).len() && sort_spans(t)[i] == r[k];
                assert(t.contains(sort_spans(t)[i]));
                let m = choose|m: int| 0 <= m < t.len() && t[m] == r[k];
                assert(s[m] == t[m]);
            }
        }
    }
}

proof fn lemma_chain_touch(s: Seq<Span>, gap: int, blockers: Seq<Span>, start: int, end: int)
    requires
        forall|k: int| 0 <= k < s.len() ==> touches(#[trigger] s[k], start, end),
    ensures
        forall|k: int| 0 <= k < chain_spans(s, gap, blockers).len() ==> touches(
            #[trigger] chain_spans(s, gap, blockers)[k],
            start,
            end,
        ),
        s.len() > 0 ==> chain_spans(s, gap, blockers).len() > 0,
    decreases s.len(),
{
    if s.len() > 1 {
        let t = s.drop_last();
        assert forall|k: int| 0 <= k < t.len() implies touches(#[trigger] t[k], start, end) by {
            assert(t[k] == s[k]);
        }
        lemma_chain_touch(t, gap, blockers, start, end);
        let g = chain_spans(t, gap, blockers);
        let x = s.last();
        assert(touches(s[s.len() - 1], start, end));
        let r = chain_spans(s, gap, blockers);
        assert forall|k: int| 0 <= k < r.len() implies touches(#[trigger] r[k], start, end) by {
            if k < g.len() - 1 {
                assert(r[k] == g[k]);
            } else if k == g.len() - 1 {
                assert(touches(g[g.len() - 1], start, end));
            }
        }
    } else if s.len() == 1 {
        assert(touches(s[0], start, end));
    }
}

proof fn lemma_chain_avoids(s: Seq<Span>, gap: int, blockers: Seq<Span>, j: int)
    requires
        starts_sorted(s),
        0 <= j < blockers.len(),
        blockers[j].start < blockers[j].end,
        forall|k: int| 0 <= k < s.len() ==> apart(#[trigger] s[k], blockers[j]),
    ensures
        forall|k: int| 0 <= k < chain_spans(s, gap, blockers).len() ==> apart(
            #[trigger] chain_spans(s, gap, blockers)[k],
            blockers[j],
        ),
        s.len() > 0 ==> chain_spans(s, gap, blockers).len() > 0,
        s.len() > 0 ==> chain_spans(s, gap, blockers).last().start <= s.last().start,
        s.len() > 0 ==> s.last().end <= chain_spans(s, gap, blockers).last().end,
    decreases s.len(),
{
    let dp = blockers[j];
    if s.len() == 1 {
        assert(apart(s[0], dp));
    } else if s.len() > 1 {
        let t = s.drop_last();
        assert forall|k: int| 0 <= k < t.len() implies apart(#[trigger] t[k], dp) by {
            assert(t[k] == s[k]);
        }
        assert forall|a: int, b: int| 0 <= a < b < t.len() implies t[a].start <= t[b].start by {
            assert(t[a] == s[a]);
            assert(t[b] == s[b]);
        }
        lemma_chain_avoids(t, gap, blockers, j);
        let g = chain_spans(t, gap, blockers);
        let x = s.last();
        let prev = s[s.len() - 2];
        assert(t.last() == prev);
        assert(apart(s[s.len() - 1], dp));
        assert(prev.start <= x.start);
        let r = chain_spans(s, gap, blockers);
        if !breaks_chain(prev.end as int, x, gap, blockers) {
            let l = g.last();
            assert(!lies_between(blockers[j], prev.end as int, x));
            assert(apart(g[g.len() - 1], dp));
            assert(apart(cover(l, x), dp));
            assert forall|k: int| 0 <= k < r.len() implies apart(#[trigger] r[k], dp) by {
                if k < g.len() - 1 {
                    assert(r[k] == g[k]);
                }
            }
        } else {
            assert forall|k: int| 0 <= k < r.len() implies apart(#[trigger] r[k], dp) by {
                if k < g.len() {
                    assert(r[k] == g[k]);
                }
            }
        }
    }
}

proof fn lemma_clip_from(g: Seq<Span>, start: Timestamp, end: Timestamp, focused: bool)
    ensures
        forall|k: int| #![trigger clip_periods(g, start, end, focused)[k]] 0 <= k < clip_periods(g, start, end, focused).len() ==> exists|i: int|
            0 <= i < g.len() && (#[trigger] g[i]).start < g[i].end && clip_periods(g, start, end, focused)[k]
                == clip_one(g[i], start, end, focused),
    decreases g.len(),
{
    if g.len() > 0 {
        let t = g.drop_last();
        lemma_clip_from(t, start, end, focused);
        let rest = clip_periods(t, start, end, focused);
        let r = clip_periods(g, start, end, focused);
        assert forall|k: int| #![trigger r[k]] 0 <= k < r.len() implies exists|i: int|
            0 <= i < g.len() && (#[trigger] g[i]).start < g[i].end && r[k] == clip_one(g[i], start, end, focused) by {
            if k < rest.len() {
                assert(r[k] == rest[k]);
                let i = choose|i: int| 0 <= i < t.len() && (#[trigger] t[i]).start < t[i].end && rest[k] == clip_one(t[i], start, end, focused);
                assert(g[i] == t[i]);
            } else {
                assert(g[g.len() - 1] == g.last());
                assert(r[k] == clip_one(g[g.len() - 1], start, end, focused));
            }
        }
    }
}

/// All elements of `sub` are elements of `s`, and all of `s` satisfy `p`.
proof fn lemma_from_all(s: Seq<Span>, sub: Seq<Span>, p: spec_fn(Span) -> bool)
    requires
        forall|k: int| 0 <= k < s.len() ==> p(#[trigger] s[k]),
        forall|k: int| 0 <= k < sub.len() ==> s.contains(#[trigger] sub[k]),
    ensures
        forall|k: int| 0 <= k < sub.len() ==> p(#[trigger] sub[k]),
{
    assert forall|k: int| 0 <= k < sub.len() implies p(#[trigger] sub[k]) by {
        assert(s.contains(sub[k]));
        let m = choose|m: int| 0 <= m < s.len() && s[m] == sub[k];
        assert(p(s[m]));
    }
}

/// The distractive chains and the focused chains touch the range.
proof fn lemma_chains_touch(
    usages: Seq<ScoredUsage>,
    start: Timestamp,
    end: Timestamp,
    fs: FocusPeriodSettings,
    ds: DistractivePeriodSettings,
)
    ensures
        forall|k: int| 0 <= k < distractive_chains(usages, start as int, end as int, ds).len() ==> touches(
            #[trigger] distractive_chains(usages, start as int, end as int, ds)[k],
            start as int,
            end as int,
        ),
        forall|k: int| 0 <= k < focus_chains(usages, start as int, end as int, fs, ds).len() ==> touches(
            #[trigger] focus_chains(usages, start as int, end as int, fs, ds)[k],
            start as int,
            end as int,
        ),
{
    let (st, en) = (start as int, end as int);
    let tp = |a: Span| touches(a, st, en);
    let dsel = select_spans(usages, st, en, |u: ScoredUsage| is_distractive(u, ds));
    lemma_select_touch(usages, st, en, |u: ScoredUsage| is_distractive(u, ds));
    lemma_sort_from(dsel);
    lemma_from_all(dsel, sort_spans(dsel), tp);
    let dch = chain_spans(sort_spans(dsel), ds.max_distractive_gap as int, Seq::empty());
    lemma_chain_touch(sort_spans(dsel), ds.max_distractive_gap as int, Seq::empty(), st, en);
    lemma_sort_sorted(dsel);
    lemma_chain_sorted(sort_spans(dsel), ds.max_distractive_gap as int, Seq::empty());
    lemma_long_sorted(dch, ds.min_distractive_usage_dur as int);
    lemma_from_all(dch, long_spans(dch, ds.min_distractive_usage_dur as int), tp);
    let dps = distractive_chains(usages, st, en, ds);
    let fsel = select_spans(usages, st, en, |u: ScoredUsage| is_focus(u, fs));
    lemma_select_touch(usages, st, en, |u: ScoredUsage| is_focus(u, fs));
    lemma_sort_from(fsel);
    lemma_from_all(fsel, sort_spans(fsel), tp);
    lemma_sort_sorted(fsel);
    lemma_prune_sorted(sort_spans(fsel), dps);
    let pr = prune_spans(sort_spans(fsel), dps);
    lemma_from_all(sort_spans(fsel), pr, tp);
    lemma_chain_touch(pr, fs.max_focus_gap as int, dps, st, en);
    let fch = chain_spans(pr, fs.max_focus_gap as int, dps);
    lemma_chain_sorted(pr, fs.max_focus_gap as int, dps);
    lemma_long_sorted(fch, fs.min_focus_usage_dur as int);
    lemma_from_all(fch, long_spans(fch, fs.min_focus_usage_dur as int), tp);
}

/// Over a range that is not empty, every period starts before it ends.
pub proof fn law_periods_nonempty(
    usages: Seq<ScoredUsage>,
    start: Timestamp,
    end: Timestamp,
    fs: FocusPeriodSettings,
    ds: DistractivePeriodSettings,
)
    requires
        start < end,
    ensures
        forall|k: int| 0 <= k < spec_periods(usages, start, end, fs, ds).len() ==> (#[trigger] spec_periods(
            usages,
            start,
            end,
            fs,
            ds,
        )[k]).start < spec_periods(usages, start, end, fs, ds)[k].end,
{
    lemma_chains_touch(usages, start, end, fs, ds);
    let dps = distractive_chains(usages, start as int, end as int, ds);
    let fcs = focus_chains(usages, start as int, end as int, fs, ds);
    lemma_clip_from(dps, start, end, false);
    lemma_clip_from(fcs, start, end, true);
    let a = clip_periods(dps, start, end, false);
    let b = clip_periods(fcs, start, end, true);
    let r = spec_periods(usages, start, end, fs, ds);
    assert(r == a + b);
    assert forall|k: int| 0 <= k < r.len() implies (#[trigger] r[k]).start < r[k].end by {
        if k < a.len() {
            assert(r[k] == a[k]);
            let i = choose|i: int| 0 <= i < dps.len() && (#[trigger] dps[i]).start < dps[i].end && a[k] == clip_one(dps[i], start, end, false);
            assert(touches(dps[i], start as int, end as int));
        } else {
            assert(r[k] == b[k - a.len()]);
            let i = choose|i: int| 0 <= i < fcs.len() && (#[trigger] fcs[i]).start < fcs[i].end && b[k - a.len()] == clip_one(fcs[i], start, end, true);
            assert(touches(fcs[i], start as int, end as int));
        }
    }
}

proof fn lemma_prune_apart(s: Seq<Span>, periods: Seq<Span>, j: int)
    requires
        0 <= j < periods.len(),
    ensures
        forall|k: int| 0 <= k < prune_spans(s, periods).len() ==> apart(#[trigger] prune_spans(s, periods)[k], periods[j]),
    decreases s.len(),
{
    if s.len() > 0 {
        let t = s.drop_last();
        lemma_prune_apart(t, periods, j);
        let rest = prune_spans(t, periods);
        let r = prune_spans(s, periods);
        assert forall|k: int| 0 <= k < r.len() implies apart(#[trigger] r[k], periods[j]) by {
            if k < rest.len() {
                assert(r[k] == rest[k]);
            } else {
                assert(!overlaps_any(s.last(), periods));
                assert(!overlaps(s.last(), periods[j]));
            }
        }
    }
}

/// No focused period overlaps a distractive period.
pub proof fn law_focused_apart_from_distractive(
    usages: Seq<ScoredUsage>,
    start: Timestamp,
    end: Timestamp,
    fs: FocusPeriodSettings,
    ds: DistractivePeriodSettings,
)
    ensures
        ({
            let r = spec_periods(usages, start, end, fs, ds);
            forall|i: int, j: int|
                0 <= i < r.len() && 0 <= j < r.len() && (#[trigger] r[i]).is_focused && !(#[trigger] r[j]).is_focused
                    ==> r[i].end <= r[j].start || r[i].start >= r[j].end
        }),
{
    let (st, en) = (start as int, end as int);
    let dps = distractive_chains(usages, st, en, ds);
    let fcs = focus_chains(usages, st, en, fs, ds);
    let fsel = select_spans(usages, st, en, |u: ScoredUsage| is_focus(u, fs));
    lemma_sort_sorted(fsel);
    lemma_prune_sorted(sort_spans(fsel), dps);
    let pr = prune_spans(sort_spans(fsel), dps);
    let fch = chain_spans(pr, fs.max_focus_gap as int, dps);
    lemma_chain_sorted(pr, fs.max_focus_gap as int, dps);
    lemma_long_sorted(fch, fs.min_focus_usage_dur as int);
    lemma_clip_from(dps, start, end, false);
    lemma_clip_from(fcs, start, end, true);
    lemma_clip_within(dps, start, end, false);
    lemma_clip_within(fcs, start, end, true);
    let a = clip_periods(dps, start, end, false);
    let b = clip_periods(fcs, start, end, true);
    let r = spec_periods(usages, start, end, fs, ds);
    assert(r == a + b);
    assert forall|i: int, j: int|
        0 <= i < r.len() && 0 <= j < r.len() && (#[trigger] r[i]).is_focused && !(#[trigger] r[j]).is_focused implies r[i].end
            <= r[j].start || r[i].start >= r[j].end by {
        // r[j] is distractive, so it comes from a distractive chain
        if j >= a.len() {
            assert(r[j] == b[j - a.len()]);
        }
        if i < a.len() {
            assert(r[i] == a[i]);
        }
        assert(j < a.len() && i >= a.len());
        assert(r[j] == a[j]);
        assert(r[i] == b[i - a.len()]);
        let m = choose|m: int| 0 <= m < dps.len() && (#[trigger] dps[m]).start < dps[m].end && a[j] == clip_one(dps[m], start, end, false);
        let n = choose|n: int| 0 <= n < fcs.len() && (#[trigger] fcs[n]).start < fcs[n].end && b[i - a.len()] == clip_one(fcs[n], start, end, true);
        lemma_prune_apart(sort_spans(fsel), dps, m);
        lemma_chain_avoids(pr, fs.max_focus_gap as int, dps, m);
        lemma_from_all(fch, fcs, |x: Span| apart(x, dps[m]));
        assert(apart(fcs[n], dps[m]));
    }
}


// ---------------------------------------------------------------------------
// Two focused usages
// ---------------------------------------------------------------------------

/// Two usages of focused apps (neither distractive), both in the range, the
/// first starting before the second, with no other usage: they make one
/// focused period when the second starts at most `max_focus_gap` after the
/// first ends (and together they last long enough), and two periods when the
/// gap is wider (and each lasts long enough). The chaining of focused usages
/// goes by the focus gap, whatever the distractive settings.
pub proof fn law_two_focus_usages(
    a: ScoredUsage,
    b: ScoredUsage,
    start: Timestamp,
    end: Timestamp,
    fs: FocusPeriodSettings,
    ds: DistractivePeriodSettings,
)
    requires
        a.score > fs.min_focus_score,
        b.score > fs.min_focus_score,
        a.score >= ds.max_distractive_score,
        b.score >= ds.max_distractive_score,
        a.end > start && a.start < end,
        b.end > start && b.start < end,
        a.start < b.start,
        a.start < a.end,
        b.start < b.end,
    ensures
        b.start - a.end <= fs.max_focus_gap && (if a.end >= b.end { a.end } else { b.end }) - a.start
            >= fs.min_focus_usage_dur ==> spec_periods(seq![a, b], start, end, fs, ds) == seq![
            FocusPeriod {
                start: if a.start >= start { a.start } else { start },
                end: if a.end >= b.end {
                    if a.end <= end { a.end } else { end }
                } else {
                    if b.end <= end { b.end } else { end }
                },
                is_focused: true,
            },
        ],
        b.start - a.end > fs.max_focus_gap && a.end - a.start >= fs.min_focus_usage_dur && b.end - b.start
            >= fs.min_focus_usage_dur ==> spec_periods(seq![a, b], start, end, fs, ds) == seq![
            FocusPeriod {
                start: if a.start >= start { a.start } else { start },
                end: if a.end <= end { a.end } else { end },
                is_focused: true,
            },
            FocusPeriod {
                start: if b.start >= start { b.start } else { start },
                end: if b.end <= end { b.end } else { end },
                is_focused: true,
            },
        ],
{
    let us = seq![a, b];
    let (st, en) = (start as int, end as int);
    let sa = span_of(a);
    let sb = span_of(b);
    assert(us.drop_last() =~= seq![a]);
    assert(seq![a].drop_last() =~= Seq::<ScoredUsage>::empty());
    let dk = |u: ScoredUsage| is_distractive(u, ds);
    let fk = |u: ScoredUsage| is_focus(u, fs);
    let none = Seq::<ScoredUsage>::empty();
    assert(select_spans(none, st, en, dk) == Seq::<Span>::empty());
    assert(select_spans(none, st, en, fk) == Seq::<Span>::empty());
    assert(seq![a].last() == a);
    assert(us.last() == b);
    assert(!dk(a) && !dk(b) && fk(a) && fk(b));
    assert(select_spans(seq![a], st, en, dk) =~= Seq::<Span>::empty());
    assert(select_spans(us, st, en, dk) =~= Seq::<Span>::empty());
    assert(select_spans(seq![a], st, en, fk) =~= seq![sa]);
    assert(select_spans(us, st, en, fk) =~= seq![sa, sb]);
    // the distractive side is empty
    let empty = Seq::<Span>::empty();
    assert(sort_spans(empty) == empty);
    assert(chain_spans(empty, ds.max_distractive_gap as int, empty) == empty);
    assert(long_spans(empty, ds.min_distractive_usage_dur as int) == empty);
    let dps = distractive_chains(us, st, en, ds);
    assert(dps == empty);
    assert(clip_periods(dps, start, end, false) == Seq::<FocusPeriod>::empty());
    // sorting keeps the two in order
    assert(seq![sa].drop_last() =~= empty);
    assert(sort_spans(seq![sa]) =~= seq![sa]);
    assert(seq![sa, sb].drop_last() =~= seq![sa]);
    assert(!span_le(sb, sa));
    assert(seq![sa].drop_first() =~= empty);
    assert(sorted_insert(seq![sa], sb) =~= seq![sa] + sorted_insert(empty, sb));
    assert(sort_spans(seq![sa, sb]) =~= seq![sa, sb]);
    // pruning by no period keeps both
    assert(!overlaps_any(sa, dps));
    assert(!overlaps_any(sb, dps));
    assert(prune_spans(empty, dps) == empty);
    assert(seq![sa].last() == sa);
    assert(seq![sa, sb].last() == sb);
    assert(prune_spans(seq![sa], dps) =~= seq![sa]);
    assert(prune_spans(seq![sa, sb], dps) =~= seq![sa, sb]);
    let gap = fs.max_focus_gap as int;
    let md = fs.min_focus_usage_dur as int;
    let ch = chain_spans(seq![sa, sb], gap, dps);
    assert(chain_spans(seq![sa], gap, dps) == seq![sa]);
    let fcs = focus_chains(us, st, en, fs, ds);
    assert(fcs == long_spans(ch, md));
    let r = spec_periods(us, start, end, fs, ds);
    assert(r =~= clip_periods(fcs, start, end, true));
    if sb.start - sa.end <= gap {
        assert(!breaks_chain(sa.end as int, sb, gap, dps));
        let c = cover(sa, sb);
        assert(ch =~= seq![c]);
        if c.end - c.start >= md {
            assert(seq![c].drop_last() =~= empty);
            assert(seq![c].last() == c);
            assert(long_spans(empty, md) == empty);
            assert(long_spans(ch, md) =~= seq![c]);
            assert(clip_periods(empty, start, end, true) == Seq::<FocusPeriod>::empty());
            assert(clip_periods(seq![c], start, end, true) =~= seq![
                FocusPeriod {
                    start: if c.start >= start { c.start } else { start },
                    end: if c.end <= end { c.end } else { end },
                    is_focused: true,
                },
            ]);
        }
    } else {
        assert(breaks_chain(sa.end as int, sb, gap, dps));
        assert(ch =~= seq![sa, sb]);
        if sa.end - sa.start >= md && sb.end - sb.start >= md {
            assert(ch.drop_last() =~= seq![sa]);
            assert(seq![sa].drop_last() =~= empty);
            assert(long_spans(empty, md) == empty);
            assert(long_spans(seq![sa], md) =~= seq![sa]);
            assert(clip_periods(empty, start, end, true) == Seq::<FocusPeriod>::empty());
            assert(long_spans(ch, md) =~= seq![sa, sb]);
            assert(clip_periods(seq![sa], start, end, true) =~= seq![
                FocusPeriod {
                    start: if sa.start >= start { sa.start } else { start },
                    end: if sa.end <= end { sa.end } else { end },
                    is_focused: true,
                },
            ]);
        }
    }
}


/// Two usages of distractive apps (neither focused), both in the range, the
/// first starting before the second, with no other usage: they make one
/// distractive period when the second starts at most `max_distractive_gap`
/// after the first ends (and together they last long enough), and two when
/// the gap is wider (and each lasts long enough). The chaining of
/// distractive usages goes by the distractive gap, whatever the focus
/// settings.
pub proof fn law_two_distractive_usages(
    a: ScoredUsage,
    b: ScoredUsage,
    start: Timestamp,
    end: Timestamp,
    fs: FocusPeriodSettings,
    ds: DistractivePeriodSettings,
)
    requires
        a.score < ds.max_distractive_score,
        b.score < ds.max_distractive_score,
        a.score <= fs.min_focus_score,
        b.score <= fs.min_focus_score,
        a.end > start && a.start < end,
        b.end > start && b.start < end,
        a.start < b.start,
        a.start < a.end,
        b.start < b.end,
    ensures
        b.start - a.end <= ds.max_distractive_gap && (if a.end >= b.end { a.end } else { b.end }) - a.start
            >= ds.min_distractive_usage_dur ==> spec_periods(seq![a, b], start, end, fs, ds) == seq![
            FocusPeriod {
                start: if a.start >= start { a.start } else { start },
                end: if a.end >= b.end {
                    if a.end <= end { a.end } else { end }
                } else {
                    if b.end <= end { b.end } else { end }
                },
                is_focused: false,
            },
        ],
        b.start - a.end > ds.max_distractive_gap && a.end - a.start >= ds.min_distractive_usage_dur && b.end
            - b.start >= ds.min_distractive_usage_dur ==> spec_periods(seq![a, b], start, end, fs, ds) == seq![
            FocusPeriod {
                start: if a.start >= start { a.start } else { start },
                end: if a.end <= end { a.end } else { end },
                is_focused: false,
            },
            FocusPeriod {
                start: if b.start >= start { b.start } else { start },
                end: if b.end <= end { b.end } else { end },
                is_focused: false,
            },
        ],
{
    let us = seq![a, b];
    let (st, en) = (start as int, end as int);
    let sa = span_of(a);
    let sb = span_of(b);
    assert(us.drop_last() =~= seq![a]);
    assert(seq![a].drop_last() =~= Seq::<ScoredUsage>::empty());
    let dk = |u: ScoredUsage| is_distractive(u, ds);
    let fk = |u: ScoredUsage| is_focus(u, fs);
    let none = Seq::<ScoredUsage>::empty();
    assert(select_spans(none, st, en, dk) == Seq::<Span>::empty());
    assert(select_spans(none, st, en, fk) == Seq::<Span>::empty());
    assert(seq![a].last() == a);
    assert(us.last() == b);
    assert(dk(a) && dk(b) && !fk(a) && !fk(b));
    assert(select_spans(seq![a], st, en, fk) =~= Seq::<Span>::empty());
    assert(select_spans(us, st, en, fk) =~= Seq::<Span>::empty());
    assert(select_spans(seq![a], st, en, dk) =~= seq![sa]);
    assert(select_spans(us, st, en, dk) =~= seq![sa, sb]);
    let empty = Seq::<Span>::empty();
    assert(sort_spans(empty) == empty);
    assert(seq![sa].drop_last() =~= empty);
    assert(seq![sa].last() == sa);
    assert(sort_spans(seq![sa]) =~= seq![sa]);
    assert(seq![sa, sb].drop_last() =~= seq![sa]);
    assert(!span_le(sb, sa));
    assert(seq![sa].drop_first() =~= empty);
    assert(sorted_insert(seq![sa], sb) =~= seq![sa] + sorted_insert(empty, sb));
    assert(sort_spans(seq![sa, sb]) =~= seq![sa, sb]);
    assert(seq![sa].last() == sa);
    assert(seq![sa, sb].last() == sb);
    let gap = ds.max_distractive_gap as int;
    let md = ds.min_distractive_usage_dur as int;
    let ch = chain_spans(seq![sa, sb], gap, empty);
    assert(chain_spans(seq![sa], gap, empty) == seq![sa]);
    let dps = distractive_chains(us, st, en, ds);
    assert(dps == long_spans(ch, md));
    // the focused side is empty
    assert(sort_spans(empty) == empty);
    assert(prune_spans(empty, dps) == empty);
    assert(chain_spans(empty, fs.max_focus_gap as int, dps) == empty);
    assert(long_spans(empty, fs.min_focus_usage_dur as int) == empty);
    let fcs = focus_chains(us, st, en, fs, ds);
    assert(fcs == empty);
    assert(clip_periods(fcs, start, end, true) == Seq::<FocusPeriod>::empty());
    let r = spec_periods(us, start, end, fs, ds);
    assert(r =~= clip_periods(dps, start, end, false));
    assert(long_spans(empty, md) == empty);
    assert(clip_periods(empty, start, end, false) == Seq::<FocusPeriod>::empty());
    if sb.start - sa.end <= gap {
        assert(!breaks_chain(sa.end as int, sb, gap, empty));
        let c = cover(sa, sb);
        assert(ch =~= seq![c]);
        if c.end - c.start >= md {
            assert(seq![c].drop_last() =~= empty);
            assert(seq![c].last() == c);
            assert(long_spans(ch, md) =~= seq![c]);
            assert(clip_periods(seq![c], start, end, false) =~= seq![
                FocusPeriod {
                    start: if c.start >= start { c.start } else { start },
                    end: if c.end <= end { c.end } else { end },
                    is_focused: false,
                },
            ]);
        }
    } else {
        assert(breaks_chain(sa.end as int, sb, gap, empty));
        assert(ch =~= seq![sa, sb]);
        if sa.end - sa.start >= md && sb.end - sb.start >= md {
            assert(ch.drop_last() =~= seq![sa]);
            assert(long_spans(seq![sa], md) =~= seq![sa]);
            assert(long_spans(ch, md) =~= seq![sa, sb]);
            assert(clip_periods(seq![sa], start, end, false) =~= seq![
                FocusPeriod {
                    start: if sa.start >= start { sa.start } else { start },
                    end: if sa.end <= end { sa.end } else { end },
                    is_focused: false,
                },
            ]);
        }
    }
}

} // verus!
