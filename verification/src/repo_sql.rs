//! SQL expressions for periods and tick conversions, used by the period
//! queries of the repository.
use vstd::prelude::*;

use crate::table::Period;

verus! {

/// `prefix ++ expr ++ suffix`
fn wrap(prefix: &str, expr: &str, suffix: &str) -> (r: String)
    ensures
        r@ == prefix@ + expr@ + suffix@,
{
    let mut s = String::from_str(prefix);
    s.append(expr);
    s.append(suffix);
    s
}

/// The SQL expressions (in unix seconds, UTC) for the start and the end of
/// the local period that contains the unix-seconds expression `expr`.
pub open spec fn spec_period_start_end(expr: Seq<char>, period: Period) -> (Seq<char>, Seq<char>) {
    match period {
        Period::Hour => ("unixepoch((unixepoch("@ + expr + ", 'unixepoch', 'localtime')/3600) * 3600, 'unixepoch', 'utc')"@, "unixepoch((unixepoch("@ + expr + ", 'unixepoch', 'localtime')/3600) * 3600 + 3600, 'unixepoch', 'utc')"@),
        Period::Day => ("unixepoch("@ + expr + ", 'unixepoch', 'localtime', 'start of day', 'utc')"@, "unixepoch("@ + expr + ", 'unixepoch', 'localtime', 'start of day', '+1 day', 'utc')"@),
        Period::Week => ("unixepoch("@ + expr + ", 'unixepoch', 'localtime', 'start of day', 'weekday 0', '-6 days', 'utc')"@, "unixepoch("@ + expr + ", 'unixepoch', 'localtime', 'start of day', 'weekday 0', '+1 day', 'utc')"@),
        Period::Month => ("unixepoch("@ + expr + ", 'unixepoch', 'localtime', 'start of month', 'utc')"@, "unixepoch("@ + expr + ", 'unixepoch', 'localtime', 'start of month', '+1 month', 'utc')"@),
        Period::Year => ("unixepoch("@ + expr + ", 'unixepoch', 'localtime', 'start of year', 'utc')"@, "unixepoch("@ + expr + ", 'unixepoch', 'localtime', 'start of year', '+1 year', 'utc')"@),
    }
}

/// The SQL expressions (in unix seconds, UTC) for the start and the end of
/// the local period that contains the unix-seconds expression `expr`.
pub fn sql_period_start_end(expr: &str, period: &Period) -> (r: (String, String))
    ensures
        (r.0@, r.1@) == spec_period_start_end(expr@, *period),
{
    match period {
        Period::Hour => (wrap("unixepoch((unixepoch(", expr, ", 'unixepoch', 'localtime')/3600) * 3600, 'unixepoch', 'utc')"), wrap("unixepoch((unixepoch(", expr, ", 'unixepoch', 'localtime')/3600) * 3600 + 3600, 'unixepoch', 'utc')")),
        Period::Day => (wrap("unixepoch(", expr, ", 'unixepoch', 'localtime', 'start of day', 'utc')"), wrap("unixepoch(", expr, ", 'unixepoch', 'localtime', 'start of day', '+1 day', 'utc')")),
        Period::Week => (wrap("unixepoch(", expr, ", 'unixepoch', 'localtime', 'start of day', 'weekday 0', '-6 days', 'utc')"), wrap("unixepoch(", expr, ", 'unixepoch', 'localtime', 'start of day', 'weekday 0', '+1 day', 'utc')")),
        Period::Month => (wrap("unixepoch(", expr, ", 'unixepoch', 'localtime', 'start of month', 'utc')"), wrap("unixepoch(", expr, ", 'unixepoch', 'localtime', 'start of month', '+1 month', 'utc')")),
        Period::Year => (wrap("unixepoch(", expr, ", 'unixepoch', 'localtime', 'start of year', 'utc')"), wrap("unixepoch(", expr, ", 'unixepoch', 'localtime', 'start of year', '+1 year', 'utc')")),
    }
}

/// The SQL expression for the start of the period after the one that starts
/// at the unix-seconds expression `expr`.
pub open spec fn spec_period_next(expr: Seq<char>, period: Period) -> Seq<char> {
    match period {
        Period::Hour => "(("@ + expr + ") + 3600)"@,
        Period::Day => "unixepoch("@ + expr + ", 'unixepoch', '+1 day')"@,
        Period::Week => "unixepoch("@ + expr + ", 'unixepoch', '+7 days')"@,
        Period::Month => "unixepoch("@ + expr + ", 'unixepoch', '+1 month')"@,
        Period::Year => "unixepoch("@ + expr + ", 'unixepoch', '+1 year')"@,
    }
}

/// The SQL expression for the start of the period after the one that starts
/// at the unix-seconds expression `expr`.
pub fn sql_period_next(expr: &str, period: &Period) -> (r: String)
    ensures
        r@ == spec_period_next(expr@, *period),
{
    match period {
        Period::Hour => wrap("((", expr, ") + 3600)"),
        Period::Day => wrap("unixepoch(", expr, ", 'unixepoch', '+1 day')"),
        Period::Week => wrap("unixepoch(", expr, ", 'unixepoch', '+7 days')"),
        Period::Month => wrap("unixepoch(", expr, ", 'unixepoch', '+1 month')"),
        Period::Year => wrap("unixepoch(", expr, ", 'unixepoch', '+1 year')"),
    }
}

/// The SQL expression that converts the Windows-ticks expression `expr` to
/// unix seconds.
pub fn sql_ticks_to_unix(expr: &str) -> (r: String)
    ensures
        r@ == "((("@ + expr@ + ") / 10000 - 62135596800000)/1000)"@,
{
    wrap("(((", expr, ") / 10000 - 62135596800000)/1000)")
}

/// The SQL expression that converts the unix-seconds expression `expr` to
/// Windows ticks.
pub fn sql_unix_to_ticks(expr: &str) -> (r: String)
    ensures
        r@ == "((("@ + expr@ + ") * 1000 + 62135596800000)*10000)"@,
{
    wrap("(((", expr, ") * 1000 + 62135596800000)*10000)")
}

} // verus!
