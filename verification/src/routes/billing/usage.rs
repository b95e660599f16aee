//! Requests about usage.

use vstd::prelude::*;

verus! {

/// An answer.
#[derive(Debug)]
pub struct DataResponse<T> {
    pub data: T,
}

/// A request for the usage of the last days.
#[derive(Clone, Copy, Debug, PartialEq, Eq, Structural)]
pub struct UsageHistoryParams {
    /// The number of days.
    pub days: u32,
}

/// The number of days where the request names none.
pub fn default_days() -> (res: u32)
    ensures
        res == 30,
{
    30
}

impl UsageHistoryParams {
    /// The number of days that are shown: what was asked for, at most 90.
    pub fn shown_days(&self) -> (res: u32)
        ensures
            res == if self.days <= 90 {
                self.days
            } else {
                90
            },
    {
        if self.days <= 90 {
            self.days
        } else {
            90
        }
    }
}

/// Usage is shown for as many days as were asked for, at most 90 and 30 where nothing was asked
/// for.
pub proof fn usage_is_shown_for_the_days_asked(usual: u32, params: UsageHistoryParams, days: u32)
    requires
        call_ensures(default_days, (), usual),
        call_ensures(UsageHistoryParams::shown_days, (&params,), days),
    ensures
        usual == 30,
        days <= 90,
        days == params.days || (params.days > 90 && days == 90),
{
}

} // verus!
