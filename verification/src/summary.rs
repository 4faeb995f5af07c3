//! Per-period totals: one amount per category over a stretch of time, the
//! unit that tables and plots consume.

use vstd::prelude::*;

use crate::date::Period;
use crate::entry::{Amount, Category, CATEGORY_COUNT};
use crate::template::clamp_i64;

verus! {

/// Totals of one period: an amount for each category, in declaration order.
#[derive(Debug)]
pub struct Summary {
    pub period: Period,
    pub amounts: Vec<Amount>,
}

impl Summary {
    /// One amount per category, and dates the calendar accepts.
    pub open spec fn wf(&self) -> bool {
        self.amounts@.len() == CATEGORY_COUNT && self.period.0.wf() && self.period.1.wf()
    }

    /// A summary of the given period with all categories at zero.
    pub fn new(period: Period) -> (r: Summary)
        requires
            period.0.wf(),
            period.1.wf(),
        ensures
            r.wf(),
            r.period == period,
            r.amounts@.len() == CATEGORY_COUNT,
            forall|i: int| 0 <= i < CATEGORY_COUNT ==> (#[trigger] r.amounts@[i]) == Amount(0),
    {
        let mut amounts: Vec<Amount> = Vec::new();
        let mut i: usize = 0;
        while i < CATEGORY_COUNT
            invariant
                i <= CATEGORY_COUNT,
                amounts@.len() == i,
                forall|k: int| 0 <= k < i ==> (#[trigger] amounts@[k]) == Amount(0),
            decreases CATEGORY_COUNT - i,
        {
            amounts.push(Amount(0));
            i = i + 1;
        }
        Summary { period: period, amounts: amounts }
    }

    /// The period the totals cover.
    pub fn period(&self) -> (r: Period)
        ensures
            r == self.period,
    {
        self.period
    }

    /// The totals, one per category in declaration order.
    pub fn amounts(&self) -> (r: &Vec<Amount>)
        ensures
            r == &self.amounts,
    {
        &self.amounts
    }

    /// Add an amount to one category's total, saturating at the `i64`
    /// bounds.
    pub fn add(&mut self, cat: Category, a: Amount)
        requires
            old(self).wf(),
        ensures
            final(self).wf(),
            final(self).period == old(self).period,
            final(self).amounts@.len() == old(self).amounts@.len(),
            forall|k: int|
                0 <= k < CATEGORY_COUNT && crate::entry::spec_cat_of_index(k) == cat
                    ==> (#[trigger] final(self).amounts@[k]) == Amount(
                    clamp_i64(old(self).amounts@[k].0 + a.0) as i64,
                ),
            forall|k: int|
                0 <= k < CATEGORY_COUNT && crate::entry::spec_cat_of_index(k) != cat
                    ==> (#[trigger] final(self).amounts@[k]) == old(self).amounts@[k],
    {
        let i = cat.index();
        let cur = self.amounts[i].0;
        let v: i64 = match cur.checked_add(a.0) {
            Some(x) => x,
            None => {
                if a.0 > 0 {
                    i64::MAX
                } else {
                    i64::MIN
                }
            },
        };
        self.amounts.set(i, Amount(v));
        proof {
            assert forall|k: int|
                0 <= k < CATEGORY_COUNT && crate::entry::spec_cat_of_index(k) != cat implies (
            #[trigger] self.amounts@[k]) == old(self).amounts@[k] by {
                assert(k != i);
            }
        }
    }
}

} // verus!
