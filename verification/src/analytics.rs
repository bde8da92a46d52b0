//! Analytics periods.

use vstd::prelude::*;

verus! {

/// Analytics rules.
pub struct AnalyticsService {}

impl AnalyticsService {
    /// The period just before `[start, end)`, of the same length, for comparing growth;
    /// times are seconds.
    pub fn previous_period(start: i64, end: i64) -> (r: (i64, i64))
        requires
            i64::MIN <= end - start <= i64::MAX,
            i64::MIN <= start - (end - start) <= i64::MAX,
        ensures
            r.1 == start,
            r.0 == start - (end - start),
            r.1 - r.0 == end - start,
    {
        let duration = end - start;
        (start - duration, start)
    }
}

} // verus!
