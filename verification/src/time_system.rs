//! Clocks that give the current time and the starts of the current day, week
//! and month, as Windows ticks.
use vstd::prelude::*;

use crate::entities::Timestamp;

verus! {

/// A value that is a count of Windows ticks.
pub trait ToTicks {
    /// The number of ticks.
    fn to_ticks(&self) -> Timestamp;
}

/// A clock of the user's time system.
pub trait TimeSystem {
    type Ticks: ToTicks;

    /// The current time
    fn now(&self) -> Self::Ticks;

    /// The start of the current day (in local time when `local`)
    fn day_start(&self, local: bool) -> Self::Ticks;

    /// The start of the current week (in local time when `local`)
    fn week_start(&self, local: bool) -> Self::Ticks;

    /// The start of the current month (in local time when `local`)
    fn month_start(&self, local: bool) -> Self::Ticks;
}

/// A fixed clock.
#[derive(Clone, Copy, Debug, PartialEq, Eq, Structural)]
pub struct Times {
    pub now: i64,
    pub day_start: i64,
    pub week_start: i64,
    pub month_start: i64,
}

impl Default for Times {
    /// The clock at tick 0 for every instant.
    fn default() -> (r: Times)
        ensures
            r == (Times { now: 0, day_start: 0, week_start: 0, month_start: 0 }),
    {
        Times { now: 0, day_start: 0, week_start: 0, month_start: 0 }
    }
}

/// A count of ticks.
#[derive(Clone, Copy, Debug, PartialEq, Eq, Structural)]
pub struct Tick(pub i64);

impl ToTicks for Tick {
    fn to_ticks(&self) -> (r: Timestamp)
        ensures
            r == self.0,
    {
        self.0
    }
}

impl TimeSystem for Times {
    type Ticks = Tick;

    fn now(&self) -> (r: Tick)
        ensures
            r == Tick(self.now),
    {
        Tick(self.now)
    }

    fn day_start(&self, _local: bool) -> (r: Tick)
        ensures
            r == Tick(self.day_start),
    {
        Tick(self.day_start)
    }

    fn week_start(&self, _local: bool) -> (r: Tick)
        ensures
            r == Tick(self.week_start),
    {
        Tick(self.week_start)
    }

    fn month_start(&self, _local: bool) -> (r: Tick)
        ensures
            r == Tick(self.month_start),
    {
        Tick(self.month_start)
    }
}

} // verus!
