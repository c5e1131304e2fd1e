//! Shared pieces of the module contract: layout constraints, refresh
//! cadence, and the relative-time rendering used by feed displays.

use vstd::prelude::*;

verus! {

/// Bounds a module imposes on its own width and height.
#[derive(Debug, Clone, PartialEq, Eq, Structural)]
pub struct ModuleSizeContrainte {
    pub x_min: Option<u32>,
    pub x_max: Option<u32>,
    pub y_min: Option<u32>,
    pub y_max: Option<u32>,
}

impl Default for ModuleSizeContrainte {
    /// No constraint in any direction.
    fn default() -> (r: Self)
        ensures
            r.x_min is None && r.x_max is None && r.y_min is None && r.y_max is None,
    {
        ModuleSizeContrainte { x_min: None, x_max: None, y_min: None, y_max: None }
    }
}

/// How often a module wants an autonomous background refresh.
#[derive(Debug, Clone, Copy, PartialEq, Eq, Structural)]
pub enum RefreshTime {
    NONE,
    MINUTES(u8),
    HOURS(u8),
}

/// The kind of input drawn for a configuration field.
#[derive(Debug, Clone, PartialEq, Eq, Structural)]
pub enum FieldHelperType {
    TEXT,
    PASSWORD,
    NUMBER(i64, i64),
}

/// A duration in the coarsest fitting unit, and whether it lies before or
/// after the reference instant.
#[derive(Debug, Clone, PartialEq, Eq, Structural)]
pub enum DISTANT_TIME_RESULT {
    FUTUR(u64, u64),
    PAST(u64, u64),
}

/// A distance in seconds reduced to the coarsest fitting unit: the unit's
/// rank (0 seconds, 1 minutes, 2 hours, 3 days, 4 months, 5 years) and the
/// count in that unit.
pub open spec fn spec_reduce_time(d: int) -> (int, int) {
    if d < 60 {
        (0, d)
    } else if d / 60 < 60 {
        (1, d / 60)
    } else if d / 60 / 60 < 24 {
        (2, d / 60 / 60)
    } else if d / 60 / 60 / 24 < 30 {
        (3, d / 60 / 60 / 24)
    } else if d / 60 / 60 / 24 / 30 < 12 {
        (4, d / 60 / 60 / 24 / 30)
    } else {
        (5, d / 60 / 60 / 24 / 30 / 12)
    }
}

/// The distance between a reference instant and a timestamp, in the
/// coarsest fitting unit. Both are in seconds since the epoch. The variant
/// follows the sign of `now - timestamp`.
pub fn distant_time(now: i64, timestamp: i64) -> (r: DISTANT_TIME_RESULT)
    requires
        now - timestamp > i64::MIN,
        timestamp - now > i64::MIN,
    ensures
        ({
            let d = if now - timestamp >= 0 {
                now - timestamp
            } else {
                timestamp - now
            };
            let unit = spec_reduce_time(d).0;
            let count = spec_reduce_time(d).1;
            if now - timestamp >= 0 {
                r == DISTANT_TIME_RESULT::FUTUR(count as u64, unit as u64)
            } else {
                r == DISTANT_TIME_RESULT::PAST(count as u64, unit as u64)
            }
        }),
{
    let distance: i64 = now - timestamp;
    let ifpast = distance < 0;
    let d: i64 = if distance < 0 {
        -distance
    } else {
        distance
    };
    let (unit, count): (u64, u64) = if d < 60 {
        (0, d as u64)
    } else if d / 60 < 60 {
        (1, (d / 60) as u64)
    } else if d / 60 / 60 < 24 {
        (2, (d / 60 / 60) as u64)
    } else if d / 60 / 60 / 24 < 30 {
        (3, (d / 60 / 60 / 24) as u64)
    } else if d / 60 / 60 / 24 / 30 < 12 {
        (4, (d / 60 / 60 / 24 / 30) as u64)
    } else {
        (5, (d / 60 / 60 / 24 / 30 / 12) as u64)
    };
    if ifpast {
        DISTANT_TIME_RESULT::PAST(count, unit)
    } else {
        DISTANT_TIME_RESULT::FUTUR(count, unit)
    }
}

impl DISTANT_TIME_RESULT {
    /// The translation key of the unit this result is expressed in.
    pub fn unit_key(&self) -> (r: &'static str)
        ensures
            ({
                let u = match *self {
                    DISTANT_TIME_RESULT::FUTUR(_, u) => u,
                    DISTANT_TIME_RESULT::PAST(_, u) => u,
                };
                (u == 0 ==> r@ == "DISTANT_TIME_RESULT_SEC"@) && (u == 1 ==> r@
                    == "DISTANT_TIME_RESULT_MIN"@) && (u == 2 ==> r@
                    == "DISTANT_TIME_RESULT_HOUR"@) && (u == 3 ==> r@
                    == "DISTANT_TIME_RESULT_DAY"@) && (u == 4 ==> r@
                    == "DISTANT_TIME_RESULT_MON"@) && (u >= 5 ==> r@
                    == "DISTANT_TIME_RESULT_YEAR"@)
            }),
    {
        let u = match self {
            DISTANT_TIME_RESULT::FUTUR(_, u) => *u,
            DISTANT_TIME_RESULT::PAST(_, u) => *u,
        };
        if u == 0 {
            "DISTANT_TIME_RESULT_SEC"
        } else if u == 1 {
            "DISTANT_TIME_RESULT_MIN"
        } else if u == 2 {
            "DISTANT_TIME_RESULT_HOUR"
        } else if u == 3 {
            "DISTANT_TIME_RESULT_DAY"
        } else if u == 4 {
            "DISTANT_TIME_RESULT_MON"
        } else {
            "DISTANT_TIME_RESULT_YEAR"
        }
    }
}

} // verus!
