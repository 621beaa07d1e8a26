//! Chart time ranges: the preset periods a chart can show, and the
//! calendar arithmetic that turns a picked date into a Unix timestamp.

use vstd::prelude::*;

verus! {

#[derive(Debug, Clone, Copy, PartialEq, Eq, Structural)]
pub enum TimePeriod {
    Daily,
    Weekly,
    Monthly,
    Yearly,
    All,
    Custom,
}

impl Default for TimePeriod {
    fn default() -> (r: TimePeriod)
        ensures
            r == TimePeriod::Weekly,
    {
        TimePeriod::Weekly
    }
}

impl TimePeriod {
    pub fn all() -> (r: Vec<TimePeriod>)
        ensures
            r@ == seq![
                TimePeriod::Daily,
                TimePeriod::Weekly,
                TimePeriod::Monthly,
                TimePeriod::Yearly,
                TimePeriod::All,
                TimePeriod::Custom,
            ],
    {
        let mut r: Vec<TimePeriod> = Vec::new();
        r.push(TimePeriod::Daily);
        r.push(TimePeriod::Weekly);
        r.push(TimePeriod::Monthly);
        r.push(TimePeriod::Yearly);
        r.push(TimePeriod::All);
        r.push(TimePeriod::Custom);
        proof {
            assert(r@ =~= seq![
                TimePeriod::Daily,
                TimePeriod::Weekly,
                TimePeriod::Monthly,
                TimePeriod::Yearly,
                TimePeriod::All,
                TimePeriod::Custom,
            ]);
        }
        r
    }

    pub fn label(&self) -> (r: &'static str)
        ensures
            *self is Daily ==> r@ == "Daily"@,
            *self is Weekly ==> r@ == "Weekly"@,
            *self is Monthly ==> r@ == "Monthly"@,
            *self is Yearly ==> r@ == "Yearly"@,
            *self is All ==> r@ == "All"@,
            *self is Custom ==> r@ == "Custom"@,
    {
        match self {
            TimePeriod::Daily => "Daily",
            TimePeriod::Weekly => "Weekly",
            TimePeriod::Monthly => "Monthly",
            TimePeriod::Yearly => "Yearly",
            TimePeriod::All => "All",
            TimePeriod::Custom => "Custom",
        }
    }

    /// Whether the period's span fits before `current`: the current
    /// time, rounded down to the period's granularity, must reach at
    /// least the span back for the range to exist. `All` and `Custom`
    /// subtract nothing and are always available.
    pub open spec fn history_available(self, current: u64) -> bool {
        match self {
            TimePeriod::Daily => current as int - (current as int % 60) >= 86400,
            TimePeriod::Weekly => current as int - (current as int % 3600) >= 604800,
            TimePeriod::Monthly => current as int - (current as int % 86400) >= 2592000,
            TimePeriod::Yearly => current as int - (current as int % 86400) >= 31536000,
            TimePeriod::All => true,
            TimePeriod::Custom => true,
        }
    }

    /// The chart range for this period: `to` is the current time
    /// rounded down to the period's granularity, `from` reaches the
    /// period's span back; `All` starts at the epoch and `Custom`
    /// passes the picked range through.
    pub open spec fn spec_from_to(self, current: u64, default_from: u64, default_to: u64) -> (
        int,
        int,
    ) {
        match self {
            TimePeriod::Daily => {
                let to = current as int - (current as int % 60);
                (to - 86400, to)
            },
            TimePeriod::Weekly => {
                let to = current as int - (current as int % 3600);
                (to - 604800, to)
            },
            TimePeriod::Monthly => {
                let to = current as int - (current as int % 86400);
                (to - 2592000, to)
            },
            TimePeriod::Yearly => {
                let to = current as int - (current as int % 86400);
                (to - 31536000, to)
            },
            TimePeriod::All => {
                let to = current as int - (current as int % 86400);
                (0, to)
            },
            TimePeriod::Custom => (default_from as int, default_to as int),
        }
    }

    /// The `(from, to)` range to chart, given the current Unix time and
    /// the picked custom range.
    pub fn get_from_to(&self, current: u64, default_from: u64, default_to: u64) -> (r: (u64, u64))
        requires
            self.history_available(current),
        ensures
            r.0 == self.spec_from_to(current, default_from, default_to).0,
            r.1 == self.spec_from_to(current, default_from, default_to).1,
    {
        match self {
            TimePeriod::Daily => {
                let to = current - (current % 60);
                (to - 60 * 60 * 24, to)
            },
            TimePeriod::Weekly => {
                let to = current - (current % (60 * 60));
                (to - 60 * 60 * 24 * 7, to)
            },
            TimePeriod::Monthly => {
                let to = current - (current % (60 * 60 * 24));
                (to - 60 * 60 * 24 * 30, to)
            },
            TimePeriod::Yearly => {
                let to = current - (current % (60 * 60 * 24));
                (to - 60 * 60 * 24 * 365, to)
            },
            TimePeriod::All => {
                proof {
                    assert(current as int % 86400 <= current as int) by (nonlinear_arith);
                }
                let to = current - (current % (60 * 60 * 24));
                (0, to)
            },
            TimePeriod::Custom => (default_from, default_to),
        }
    }
}

pub open spec fn is_leap_year(year: int) -> bool {
    year % 4 == 0 && (year % 100 != 0 || year % 400 == 0)
}

pub open spec fn spec_days_in_year(year: int) -> int {
    if is_leap_year(year) {
        366
    } else {
        365
    }
}

pub open spec fn spec_days_in_month(year: int, month: int) -> int {
    if month == 2 {
        if is_leap_year(year) {
            29
        } else {
            28
        }
    } else if month == 4 || month == 6 || month == 9 || month == 11 {
        30
    } else {
        31
    }
}

/// Days from 1970-01-01 to `year`-01-01, for years from 1970 on.
pub open spec fn spec_days_before_year(year: int) -> int
    decreases year - 1970,
{
    if year <= 1970 {
        0
    } else {
        spec_days_before_year(year - 1) + spec_days_in_year(year - 1)
    }
}

/// Days from `year`-01-01 to `year`-`month`-01.
pub open spec fn spec_days_before_month(year: int, month: int) -> int
    decreases month,
{
    if month <= 1 {
        0
    } else {
        spec_days_before_month(year, month - 1) + spec_days_in_month(year, month - 1)
    }
}

/// Days from the epoch to this civil date.
pub open spec fn spec_days_from_epoch(year: int, month: int, day: int) -> int {
    spec_days_before_year(year) + spec_days_before_month(year, month) + day - 1
}

pub open spec fn valid_date(year: int, month: int, day: int) -> bool {
    1 <= month <= 12 && 1 <= day <= spec_days_in_month(year, month)
}

pub fn leap_year(year: u32) -> (r: bool)
    ensures
        r == is_leap_year(year as int),
{
    year % 4 == 0 && (year % 100 != 0 || year % 400 == 0)
}

pub fn days_in_month(year: u32, month: u32) -> (r: u64)
    ensures
        r == spec_days_in_month(year as int, month as int),
{
    if month == 2 {
        if leap_year(year) {
            29
        } else {
            28
        }
    } else if month == 4 || month == 6 || month == 9 || month == 11 {
        30
    } else {
        31
    }
}

/// The date a chart boundary picker produced.
#[derive(Debug, Clone, Copy, PartialEq, Eq, Structural)]
pub struct DateParts {
    pub year: u32,
    pub month: u32,
    pub day: u32,
}

impl DateParts {
    pub fn with_year(&self, year: u32) -> (r: Self)
        ensures
            r.year == year,
            r.month == self.month,
            r.day == self.day,
    {
        Self { year, month: self.month, day: self.day }
    }

    pub fn with_month(&self, month: u32) -> (r: Self)
        ensures
            r.year == self.year,
            r.month == month,
            r.day == self.day,
    {
        Self { year: self.year, month, day: self.day }
    }

    pub fn with_day(&self, day: u32) -> (r: Self)
        ensures
            r.year == self.year,
            r.month == self.month,
            r.day == day,
    {
        Self { year: self.year, month: self.month, day }
    }

    /// Midnight of this date as a Unix timestamp. Defined exactly for
    /// valid civil dates from 1970 on; earlier years (whose timestamp
    /// would be negative) and invalid dates read back as `None`.
    pub fn as_timestamp(&self) -> (r: Option<u64>)
        ensures
            r is Some <==> self.year >= 1970 && valid_date(
                self.year as int,
                self.month as int,
                self.day as int,
            ),
            r matches Some(ts) ==> ts == 86400 * spec_days_from_epoch(
                self.year as int,
                self.month as int,
                self.day as int,
            ),
    {
        if self.year < 1970 {
            return None;
        }
        if self.month < 1 || self.month > 12 {
            return None;
        }
        if self.day < 1 || self.day as u64 > days_in_month(self.year, self.month) {
            return None;
        }
        let mut days: u64 = 0;
        let mut y: u32 = 1970;
        while y < self.year
            invariant
                1970 <= y <= self.year,
                days == spec_days_before_year(y as int),
                days <= 366 * ((y - 1970) as u64),
            decreases self.year - y,
        {
            days = days + (if leap_year(y) {
                366
            } else {
                365
            });
            y = y + 1;
        }
        let mut m: u32 = 1;
        while m < self.month
            invariant
                1 <= m <= self.month,
                self.month <= 12,
                days == spec_days_before_year(self.year as int) + spec_days_before_month(
                    self.year as int,
                    m as int,
                ),
                days <= 366 * 4294967296 + 31 * m,
            decreases self.month - m,
        {
            days = days + days_in_month(self.year, m);
            m = m + 1;
        }
        days = days + (self.day as u64 - 1);
        Some(86400 * days)
    }
}

} // verus!
