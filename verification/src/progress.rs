//! Progress of the classic long operations: the percent shown on the bar.
use vstd::prelude::*;

verus! {

/// Progress of an operation over the values `[min, max]`.
pub struct Progress {
    /// First value.
    pub min: u64,
    /// Last value.
    pub max: u64,
    /// Percent shown on the bar.
    pub percent: u64,
}

/// Percent of the way from `min` to `max` that `value` is.
pub open spec fn spec_percent(min: u64, max: u64, value: u64) -> int {
    (value - min) * 100 / (if max == min {
        1
    } else {
        max - min
    }) as int
}

impl Progress {
    /// Create new progress over `[min, max]`, at 0%.
    pub fn new(min: u64, max: u64) -> (r: Self)
        ensures
            r.min == min,
            r.max == max,
            r.percent == 0,
    {
        Progress { min, max, percent: 0 }
    }

    /// Move the progress to `value`; `true` if the percent shown changed
    /// (the bar is to be drawn again).
    pub fn update(&mut self, value: u64) -> (r: bool)
        requires
            old(self).min <= value <= old(self).max,
            (value - old(self).min) * 100 <= u64::MAX,
        ensures
            final(self).percent == spec_percent(old(self).min, old(self).max, value),
            r == (final(self).percent != old(self).percent),
            final(self).min == old(self).min,
            final(self).max == old(self).max,
    {
        let span = if self.max == self.min {
            1
        } else {
            self.max - self.min
        };
        let percent = ((value - self.min) * 100) / span;
        let changed = percent != self.percent;
        self.percent = percent;
        changed
    }
}

/// The percent starts at 0 at the first value, reaches 100 at the last,
/// never goes back as the value grows, and stays within 0 to 100.
pub proof fn law_percent_range(min: u64, max: u64, a: u64, b: u64)
    requires
        min <= a <= b <= max,
    ensures
        spec_percent(min, max, min) == 0,
        min < max ==> spec_percent(min, max, max) == 100,
        spec_percent(min, max, a) <= spec_percent(min, max, b),
        0 <= spec_percent(min, max, a) <= 100,
{
    let span: int = if max == min {
        1
    } else {
        max - min
    };
    vstd::arithmetic::div_mod::lemma_div_is_ordered((a - min) * 100, (b - min) * 100, span);
    vstd::arithmetic::div_mod::lemma_div_is_ordered((a - min) * 100, span * 100, span);
    vstd::arithmetic::div_mod::lemma_div_multiples_vanish(100, span);
    vstd::arithmetic::div_mod::lemma_div_pos_is_pos((a - min) * 100, span);
    assert((a - min) * 100 <= (b - min) * 100) by (nonlinear_arith)
        requires
            a <= b,
    ;
    assert((a - min) * 100 <= span * 100) by (nonlinear_arith)
        requires
            a - min <= span,
    ;
    assert(span * 100 == 100 * span) by (nonlinear_arith);
}

} // verus!
