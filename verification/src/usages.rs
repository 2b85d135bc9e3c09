//! Gathering usages and usage durations read from the database.
use std::collections::HashMap;
use vstd::prelude::*;

use crate::entities::{Duration, Id, Timestamp, Usage};
use crate::infused::{WithDuration, WithGroupedDuration};

verus! {

broadcast use vstd::std_specs::hash::group_hash_axioms;

/// A usage in a time range with its session and app, clipped to the range.
#[derive(Clone, Debug)]
pub struct AppSessionUsage {
    pub app_id: Id,
    pub session_id: Id,
    pub usage_id: Id,
    pub session_title: String,
    pub start: Timestamp,
    pub end: Timestamp,
}

/// A session with its usages in a time range.
#[derive(Clone, Debug)]
pub struct Session {
    pub id: Id,
    /// Title of the session
    pub title: String,
    /// Earliest start of its usages
    pub start: Timestamp,
    /// Latest end of its usages
    pub end: Timestamp,
    /// Its usages, in order
    pub usages: Vec<Usage>,
}

/// The rows of the app's session, in order.
pub open spec fn session_rows(rows: Seq<AppSessionUsage>, app: Id, session: Id) -> Seq<AppSessionUsage>
    decreases rows.len(),
{
    if rows.len() == 0 {
        Seq::empty()
    } else if rows.last().app_id == app && rows.last().session_id == session {
        session_rows(rows.drop_last(), app, session).push(rows.last())
    } else {
        session_rows(rows.drop_last(), app, session)
    }
}

/// Some row is of the app.
pub open spec fn has_app(rows: Seq<AppSessionUsage>, app: Id) -> bool {
    exists|i: int| 0 <= i < rows.len() && #[trigger] rows[i].app_id == app
}

/// The earliest start of the rows.
pub open spec fn earliest_start(rs: Seq<AppSessionUsage>) -> Timestamp
    decreases rs.len(),
{
    if rs.len() <= 1 {
        rs[0].start
    } else {
        let e = earliest_start(rs.drop_last());
        if rs.last().start < e {
            rs.last().start
        } else {
            e
        }
    }
}

/// The latest end of the rows.
pub open spec fn latest_end(rs: Seq<AppSessionUsage>) -> Timestamp
    decreases rs.len(),
{
    if rs.len() <= 1 {
        rs[0].end
    } else {
        let e = latest_end(rs.drop_last());
        if rs.last().end > e {
            rs.last().end
        } else {
            e
        }
    }
}

pub open spec fn usage_of(row: AppSessionUsage) -> Usage {
    Usage { id: row.usage_id, session_id: row.session_id, start: row.start, end: row.end }
}

/// The session gathers the (non-empty) rows: the title of the first, the
/// earliest start, the latest end and all the usages in order.
pub open spec fn session_of(s: Session, rs: Seq<AppSessionUsage>) -> bool {
    &&& s.id == rs[0].session_id
    &&& s.title == rs[0].session_title
    &&& s.start == earliest_start(rs)
    &&& s.end == latest_end(rs)
    &&& s.usages@ == rs.map_values(|row: AppSessionUsage| usage_of(row))
}

/// The sessions gathered from the rows, for the rows seen so far.
pub open spec fn gathered(m: Map<Id, HashMap<Id, Session>>, rows: Seq<AppSessionUsage>) -> bool {
    &&& forall|app: Id| #[trigger] m.contains_key(app) <==> has_app(rows, app)
    &&& forall|app: Id, session: Id|
        #[trigger] m.contains_key(app) ==> (#[trigger] m[app]@.contains_key(session) <==> session_rows(
            rows,
            app,
            session,
        ).len() > 0)
    &&& forall|app: Id, session: Id|
        #[trigger] m.contains_key(app) && #[trigger] m[app]@.contains_key(session) ==> session_of(
            m[app]@[session],
            session_rows(rows, app, session),
        )
}

proof fn lemma_session_rows_has_app(rows: Seq<AppSessionUsage>, app: Id, session: Id)
    ensures
        session_rows(rows, app, session).len() > 0 ==> has_app(rows, app),
    decreases rows.len(),
{
    if rows.len() > 0 {
        lemma_session_rows_has_app(rows.drop_last(), app, session);
        if has_app(rows.drop_last(), app) {
            let k = choose|k: int| 0 <= k < rows.drop_last().len() && #[trigger] rows.drop_last()[k].app_id == app;
            assert(rows[k] == rows.drop_last()[k]);
        }
        if rows.last().app_id == app {
            assert(rows[rows.len() - 1].app_id == app);
        }
    }
}

proof fn lemma_session_rows_step(rows: Seq<AppSessionUsage>, app: Id, session: Id)
    requires
        rows.len() > 0,
    ensures
        session_rows(rows, app, session) == (if rows.last().app_id == app && rows.last().session_id == session {
            session_rows(rows.drop_last(), app, session).push(rows.last())
        } else {
            session_rows(rows.drop_last(), app, session)
        }),
{
}

/// Gathers the usages (read in order of start) into sessions, by app and by
/// session. A session takes the title of its first usage, spans from the
/// earliest start to the latest end of its usages, and lists them in order.
pub fn gather_app_session_usages(rows: &Vec<AppSessionUsage>) -> (r: HashMap<Id, HashMap<Id, Session>>)
    ensures
        gathered(r@, rows@),
{
    let mut m: HashMap<Id, HashMap<Id, Session>> = HashMap::new();
    let mut i: usize = 0;
    while i < rows.len()
        invariant
            i <= rows.len(),
            gathered(m@, rows@.take(i as int)),
        decreases rows.len() - i,
    {
        let row = &rows[i];
        let ghost prev = rows@.take(i as int);
        let ghost cur = rows@.take(i + 1);
        proof {
            assert(cur.drop_last() =~= prev);
            assert(cur.last() == rows@[i as int]);
        }
        let ghost old_m = m@;
        let mut sessions = match m.remove(&row.app_id) {
            Some(s) => s,
            None => HashMap::new(),
        };
        let ghost old_sessions = sessions@;
        let usage = Usage { id: row.usage_id, session_id: row.session_id, start: row.start, end: row.end };
        let session = match sessions.remove(&row.session_id) {
            Some(s) => {
                let mut usages = s.usages;
                usages.push(usage);
                Session {
                    id: s.id,
                    title: s.title,
                    start: if row.start < s.start { row.start } else { s.start },
                    end: if row.end > s.end { row.end } else { s.end },
                    usages,
                }
            },
            None => {
                let mut usages: Vec<Usage> = Vec::new();
                usages.push(usage);
                Session {
                    id: row.session_id,
                    title: row.session_title.clone(),
                    start: row.start,
                    end: row.end,
                    usages,
                }
            },
        };
        proof {
            let sr = session_rows(cur, row.app_id, row.session_id);
            let sp = session_rows(prev, row.app_id, row.session_id);
            lemma_session_rows_step(cur, row.app_id, row.session_id);
            lemma_session_rows_has_app(prev, row.app_id, row.session_id);
            if old_m.contains_key(row.app_id) {
                assert(old_sessions == old_m[row.app_id]@);
                if old_sessions.contains_key(row.session_id) {
                    assert(session_of(old_sessions[row.session_id], sp));
                } else {
                    assert(sp.len() == 0);
                }
            } else {
                assert(old_sessions == Map::<Id, Session>::empty());
                assert(!has_app(prev, row.app_id));
                assert(sp.len() == 0);
            }
            assert(sr == sp.push(rows@[i as int]));
            assert(sr.drop_last() == sp);
            if sp.len() > 0 {
                assert(sr[0] == sp[0]);
            }
            assert(sr.map_values(|row: AppSessionUsage| usage_of(row)) =~= sp.map_values(
                |row: AppSessionUsage| usage_of(row),
            ).push(usage));
            assert(session.id == sr[0].session_id);
            assert(session.title == sr[0].session_title);
            assert(session.start == earliest_start(sr));
            assert(session.end == latest_end(sr));
            assert(session.usages@ == sr.map_values(|row: AppSessionUsage| usage_of(row)));
            assert(session_of(session, sr));
        }
        sessions.insert(row.session_id, session);
        m.insert(row.app_id, sessions);
        proof {
            assert forall|app: Id| #[trigger] m@.contains_key(app) <==> has_app(cur, app) by {
                if has_app(prev, app) {
                    let k = choose|k: int| 0 <= k < prev.len() && #[trigger] prev[k].app_id == app;
                    assert(cur[k] == prev[k]);
                }
                if has_app(cur, app) && app != row.app_id {
                    let k = choose|k: int| 0 <= k < cur.len() && #[trigger] cur[k].app_id == app;
                    assert(prev[k] == cur[k]);
                }
                assert(cur[i as int].app_id == row.app_id);
            }
            assert forall|app: Id, session: Id|
                #[trigger] m@.contains_key(app) implies (#[trigger] m@[app]@.contains_key(session)
                <==> session_rows(cur, app, session).len() > 0) by {
                lemma_session_rows_step(cur, app, session);
                lemma_session_rows_has_app(prev, app, session);
                if app == row.app_id && !old_m.contains_key(app) {
                    assert(!has_app(prev, app));
                }
            }
            assert forall|app: Id, session: Id|
                #[trigger] m@.contains_key(app) && #[trigger] m@[app]@.contains_key(session) implies session_of(
                m@[app]@[session],
                session_rows(cur, app, session),
            ) by {
                lemma_session_rows_step(cur, app, session);
                lemma_session_rows_has_app(prev, app, session);
                if app == row.app_id && !old_m.contains_key(app) {
                    assert(!has_app(prev, app));
                }
            }
        }
        i = i + 1;
    }
    assert(rows@.take(rows.len() as int) =~= rows@);
    m
}

/// The grouped durations of the target, in order.
pub open spec fn durations_of(rows: Seq<WithGroupedDuration>, id: Id) -> Seq<WithGroupedDuration>
    decreases rows.len(),
{
    if rows.len() == 0 {
        Seq::empty()
    } else if rows.last().id == id {
        durations_of(rows.drop_last(), id).push(rows.last())
    } else {
        durations_of(rows.drop_last(), id)
    }
}

/// Gathers the per-period durations by target, each target's in order.
pub fn group_durations_per_period(rows: &Vec<WithGroupedDuration>) -> (r: HashMap<Id, Vec<WithGroupedDuration>>)
    ensures
        forall|id: Id| #[trigger] r@.contains_key(id) <==> durations_of(rows@, id).len() > 0,
        forall|id: Id| #[trigger] r@.contains_key(id) ==> r@[id]@ == durations_of(rows@, id),
{
    let mut m: HashMap<Id, Vec<WithGroupedDuration>> = HashMap::new();
    let mut i: usize = 0;
    while i < rows.len()
        invariant
            i <= rows.len(),
            forall|id: Id| #[trigger] m@.contains_key(id) <==> durations_of(rows@.take(i as int), id).len() > 0,
            forall|id: Id| #[trigger] m@.contains_key(id) ==> m@[id]@ == durations_of(rows@.take(i as int), id),
        decreases rows.len() - i,
    {
        let row = rows[i];
        proof {
            let t = rows@.take(i + 1);
            assert(t.drop_last() =~= rows@.take(i as int));
            assert(t.last() == row);
        }
        let mut v = match m.remove(&row.id) {
            Some(v) => v,
            None => Vec::new(),
        };
        v.push(row);
        m.insert(row.id, v);
        i = i + 1;
    }
    assert(rows@.take(rows.len() as int) =~= rows@);
    m
}

/// The last duration row of the target.
pub open spec fn last_duration(rows: Seq<WithDuration>, id: Id) -> Option<WithDuration>
    decreases rows.len(),
{
    if rows.len() == 0 {
        None
    } else if rows.last().id == id {
        Some(rows.last())
    } else {
        last_duration(rows.drop_last(), id)
    }
}

/// Gathers the durations by target; a repeated target keeps its last row.
pub fn durations_by_id(rows: &Vec<WithDuration>) -> (r: HashMap<Id, WithDuration>)
    ensures
        forall|id: Id| #[trigger] r@.contains_key(id) <==> last_duration(rows@, id) is Some,
        forall|id: Id| #[trigger] r@.contains_key(id) ==> Some(r@[id]) == last_duration(rows@, id),
{
    let mut m: HashMap<Id, WithDuration> = HashMap::new();
    let mut i: usize = 0;
    while i < rows.len()
        invariant
            i <= rows.len(),
            forall|id: Id| #[trigger] m@.contains_key(id) <==> last_duration(rows@.take(i as int), id) is Some,
            forall|id: Id| #[trigger] m@.contains_key(id) ==> Some(m@[id]) == last_duration(rows@.take(i as int), id),
        decreases rows.len() - i,
    {
        let row = rows[i];
        proof {
            let t = rows@.take(i + 1);
            assert(t.drop_last() =~= rows@.take(i as int));
            assert(t.last() == row);
        }
        m.insert(row.id, row);
        i = i + 1;
    }
    assert(rows@.take(rows.len() as int) =~= rows@);
    m
}

/// The shift that moves all usages so that the latest end becomes `last`.
pub fn usages_shift(last: Timestamp, last_usage_end: Timestamp) -> (r: Duration)
    requires
        i64::MIN <= last - last_usage_end <= i64::MAX,
    ensures
        r == last - last_usage_end,
{
    last - last_usage_end
}

} // verus!
