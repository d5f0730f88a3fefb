//! The meal-period resolver: which serving window, if any, is open at a
//! given instant.
//!
//! Window tables depend on the weekday of the service day (instant shifted
//! by the facility offset). All windows include both endpoints, and they
//! are checked breakfast, brunch, lunch, dinner, first match wins.
use crate::time::{
    hour_of, minute_of, minute_of_day_of, service_civil, weekday_of, CivilInstant, MAX_INSTANT,
    MIN_INSTANT, SERVICE_OFFSET_SECONDS,
};
use vstd::prelude::*;

verus! {

/// One of the four daily serving windows.
#[derive(Clone, Copy, Debug, PartialEq, Eq, Structural)]
pub enum MealPeriod {
    Breakfast,
    Brunch,
    Lunch,
    Dinner,
}

/// Monday through Friday, with Monday = 0.
pub open spec fn is_weekday(w: int) -> bool {
    0 <= w <= 4
}

/// The window table, over a weekday `w` (Monday = 0) and minutes since
/// midnight `m` of the service day. Minute marks: breakfast 07:00-10:30
/// on weekdays, brunch 09:30-14:30 on weekends, lunch 11:00-17:00 on
/// Friday and 11:00-16:00 on the other weekdays, dinner 17:00-20:00 every
/// day; all bounds inclusive, first listed match wins.
pub open spec fn spec_window(w: int, m: int) -> Option<MealPeriod> {
    if is_weekday(w) && 420 <= m && m <= 630 {
        Some(MealPeriod::Breakfast)
    } else if (w == 5 || w == 6) && 570 <= m && m <= 870 {
        Some(MealPeriod::Brunch)
    } else if w == 4 && 660 <= m && m <= 1020 {
        Some(MealPeriod::Lunch)
    } else if 0 <= w <= 3 && 660 <= m && m <= 960 {
        Some(MealPeriod::Lunch)
    } else if 1020 <= m && m <= 1200 {
        Some(MealPeriod::Dinner)
    } else {
        None
    }
}

/// The period open at instant `t`: the window table read at the weekday
/// and time of day of the service day containing `t`.
pub open spec fn period_at(t: int) -> Option<MealPeriod> {
    let u = t - SERVICE_OFFSET_SECONDS;
    spec_window(weekday_of(u), minute_of_day_of(u))
}

impl MealPeriod {
    /// The stable integer code this period is stored under.
    pub open spec fn as_int_spec(self) -> int {
        match self {
            MealPeriod::Breakfast => 0,
            MealPeriod::Brunch => 1,
            MealPeriod::Lunch => 2,
            MealPeriod::Dinner => 3,
        }
    }

    pub fn as_int(&self) -> (r: i32)
        ensures
            r == self.as_int_spec(),
    {
        match self {
            MealPeriod::Breakfast => 0,
            MealPeriod::Brunch => 1,
            MealPeriod::Lunch => 2,
            MealPeriod::Dinner => 3,
        }
    }

    pub open spec fn from_int_spec(code: int) -> MealPeriod {
        if code == 0 {
            MealPeriod::Breakfast
        } else if code == 1 {
            MealPeriod::Brunch
        } else if code == 2 {
            MealPeriod::Lunch
        } else {
            MealPeriod::Dinner
        }
    }

    /// The period stored under the integer code `code`.
    pub fn from_int(code: i32) -> (r: Self)
        requires
            0 <= code <= 3,
        ensures
            r == Self::from_int_spec(code as int),
            r.as_int_spec() == code,
    {
        if code == 0 {
            MealPeriod::Breakfast
        } else if code == 1 {
            MealPeriod::Brunch
        } else if code == 2 {
            MealPeriod::Lunch
        } else {
            MealPeriod::Dinner
        }
    }

    /// The stable lowercase token this period serializes to.
    pub open spec fn token_spec(self) -> Seq<char> {
        match self {
            MealPeriod::Breakfast => "breakfast"@,
            MealPeriod::Brunch => "brunch"@,
            MealPeriod::Lunch => "lunch"@,
            MealPeriod::Dinner => "dinner"@,
        }
    }

    pub fn token(&self) -> (r: &'static str)
        ensures
            r@ == self.token_spec(),
    {
        match self {
            MealPeriod::Breakfast => "breakfast",
            MealPeriod::Brunch => "brunch",
            MealPeriod::Lunch => "lunch",
            MealPeriod::Dinner => "dinner",
        }
    }

    /// The meal being served at the service-day breakdown `c`, read off
    /// the window table.
    pub fn current(c: &CivilInstant) -> (r: Option<MealPeriod>)
        requires
            c.wf(),
        ensures
            r == spec_window(c.weekday as int, c.minute as int + 60 * (c.hour as int)),
    {
        let atime: u32 = c.minute + 60 * c.hour;

        // breakfast
        if c.weekday <= 4 {
            if 420 <= atime && atime <= 630 {
                return Some(MealPeriod::Breakfast);
            }
        }

        // brunch
        if c.weekday == 5 || c.weekday == 6 {
            if 570 <= atime && atime <= 870 {
                return Some(MealPeriod::Brunch);
            }
        }

        // lunch
        if c.weekday == 4 {
            if 660 <= atime && atime <= 1020 {
                return Some(MealPeriod::Lunch);
            }
        } else if c.weekday <= 3 {
            if 660 <= atime && atime <= 960 {
                return Some(MealPeriod::Lunch);
            }
        }

        // dinner
        if 1020 <= atime && atime <= 1200 {
            return Some(MealPeriod::Dinner);
        }

        None
    }
}

/// The period open at instant `t`.
pub fn current_period_at(t: i64) -> (r: Option<MealPeriod>)
    requires
        MIN_INSTANT <= t <= MAX_INSTANT,
    ensures
        r == period_at(t as int),
{
    let c = service_civil(t);
    proof {
        assert(c.minute as int + 60 * (c.hour as int) == minute_of_day_of(
            t - SERVICE_OFFSET_SECONDS,
        )) by {
            assert(c.hour == hour_of(t - SERVICE_OFFSET_SECONDS));
            assert(c.minute == minute_of(t - SERVICE_OFFSET_SECONDS));
        }
    }
    MealPeriod::current(&c)
}

/// The period open right now, by the system clock. The clock is read once;
/// an instant beyond the supported range counts as no meal in progress.
pub fn current_period() -> (r: Option<MealPeriod>)
    ensures
        exists|t: int| 0 <= t && r == #[trigger] period_at(t),
{
    let t = crate::time::now_unix();
    if t <= MAX_INSTANT {
        let r = current_period_at(t);
        proof {
            assert(r == period_at(t as int));
        }
        r
    } else {
        proof {
            assert(period_at(SERVICE_OFFSET_SECONDS as int) == Option::<MealPeriod>::None);
        }
        None
    }
}

} // verus!
