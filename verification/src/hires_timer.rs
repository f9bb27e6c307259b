//! The high resolution timer that can be asked for on Windows.
use crate::text::same;
use vstd::prelude::*;

verus! {

/// Whether the value of the variable `NICY_HIRES_TIMER` asks for the timer.
pub open spec fn asks_for_timer(variable: Option<Seq<char>>) -> bool {
    variable matches Some(v) && v != "0"@
}

/// The period in milliseconds of a timer that is on.
pub open spec fn period_of(enabled: bool) -> Option<u32> {
    if enabled {
        Some(1u32)
    } else {
        None
    }
}

/// Whether the high resolution timer is on, for as long as this is held.
pub struct Guard {
    enabled: bool,
}

impl Guard {
    /// Whether the timer is on.
    pub closed spec fn is_enabled(&self) -> bool {
        self.enabled
    }

    /// Asks for the timer, by the value of the variable `NICY_HIRES_TIMER`:
    /// any value but `0` turns it on.
    pub fn maybe_enable(variable: Option<&str>) -> (g: Guard)
        ensures
            g.is_enabled() == (variable matches Some(v) && v@ != "0"@),
            g.is_enabled() == asks_for_timer(
                match variable {
                    Some(v) => Some(v@),
                    None => None,
                },
            ),
    {
        let enabled = match variable {
            Some(v) => !same(v, "0"),
            None => false,
        };
        Guard { enabled }
    }

    /// The period in milliseconds that is to be set at first and taken back
    /// at last; none if the timer is off.
    pub fn period(&self) -> (r: Option<u32>)
        ensures
            r == (if self.is_enabled() {
                Some(1u32)
            } else {
                None
            }),
            r == period_of(self.is_enabled()),
    {
        if self.enabled {
            Some(1)
        } else {
            None
        }
    }
}

} // verus!
