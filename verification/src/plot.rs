//! The data side of plotting: cumulative per-period series and their
//! reduction to plain coordinates. Drawing the coordinates to an image is
//! left to the caller.

use vstd::prelude::*;

use crate::date::{month_num, spec_date_index, Date, Period};
use crate::entry::Amount;
use crate::summary::Summary;
use crate::template::clamp_i64;

verus! {

/// A plot item that can be converted to a value (e.g. an amount or a date).
pub trait Scalar {
    /// The value the item stands for.
    spec fn scalar_spec(&self) -> int;

    /// What the conversion demands of the item.
    spec fn scalar_inv(&self) -> bool;

    /// Convert the item to its value.
    fn to_scalar(&self) -> (r: i64)
        requires
            self.scalar_inv(),
        ensures
            r as int == self.scalar_spec(),
    ;
}

/// A plot item that can be converted to a pair of values (e.g. a period).
pub trait ScalarRange {
    /// The pair of values the item stands for.
    spec fn range_spec(&self) -> (int, int);

    /// What the conversion demands of the item.
    spec fn range_inv(&self) -> bool;

    /// Convert the item to its pair of values.
    fn to_range(&self) -> (r: (i64, i64))
        requires
            self.range_inv(),
        ensures
            r.0 as int == self.range_spec().0,
            r.1 as int == self.range_spec().1,
    ;
}

/// A plot item that can be converted to a group of values (e.g. a sequence
/// of cumulative entries).
pub trait ScalarGroup {
    /// The values the item stands for.
    spec fn group_spec(&self) -> Seq<int>;

    /// What the conversion demands of the item.
    spec fn group_inv(&self) -> bool;

    /// Convert the item to its values.
    fn to_group(&self) -> (r: Vec<i64>)
        requires
            self.group_inv(),
        ensures
            r@.len() == self.group_spec().len(),
            forall|i: int| 0 <= i < r@.len() ==> (#[trigger] r@[i]) as int == self.group_spec()[i],
    ;
}

impl Scalar for Amount {
    open spec fn scalar_spec(&self) -> int {
        self.0 as int
    }

    open spec fn scalar_inv(&self) -> bool {
        true
    }

    fn to_scalar(&self) -> (r: i64) {
        self.0
    }
}

impl Scalar for Date {
    open spec fn scalar_spec(&self) -> int {
        spec_date_index(self.year as int, month_num(self.month), self.day as int)
    }

    open spec fn scalar_inv(&self) -> bool {
        self.wf()
    }

    fn to_scalar(&self) -> (r: i64) {
        self.index() as i64
    }
}

impl ScalarRange for Period {
    open spec fn range_spec(&self) -> (int, int) {
        (self.0.scalar_spec(), self.1.scalar_spec())
    }

    open spec fn range_inv(&self) -> bool {
        self.0.wf() && self.1.wf()
    }

    fn to_range(&self) -> (r: (i64, i64)) {
        (self.0.to_scalar(), self.1.to_scalar())
    }
}

impl<T: Scalar> ScalarRange for (T, T) {
    open spec fn range_spec(&self) -> (int, int) {
        (self.0.scalar_spec(), self.1.scalar_spec())
    }

    open spec fn range_inv(&self) -> bool {
        self.0.scalar_inv() && self.1.scalar_inv()
    }

    fn to_range(&self) -> (r: (i64, i64)) {
        (self.0.to_scalar(), self.1.to_scalar())
    }
}

/// A same-abscissa series, stored as running totals.
#[derive(Debug)]
pub struct CumulativeEntry {
    pub points: Vec<Amount>,
}

/// Running totals of a series, each step saturating at the `i64` bounds.
pub open spec fn spec_cumul(s: Seq<Amount>) -> Seq<Amount>
    decreases s.len(),
{
    if s.len() == 0 {
        Seq::empty()
    } else if s.len() == 1 {
        s
    } else {
        let p = spec_cumul(s.drop_last());
        p.push(Amount(clamp_i64(p.last().0 + s.last().0) as i64))
    }
}

impl CumulativeEntry {
    /// Turn a series of amounts into its running totals.
    pub fn cumul(points: Vec<Amount>) -> (r: CumulativeEntry)
        ensures
            r.points@ == spec_cumul(points@),
    {
        let ghost orig = points@;
        let mut points = points;
        let mut i: usize = 1;
        proof {
            assert(orig.take(1) =~= points@.take(1));
            if orig.len() > 0 {
                assert(spec_cumul(orig.take(1)) =~= orig.take(1));
            }
        }
        while i < points.len()
            invariant
                1 <= i,
                points@.len() == orig.len(),
                i <= points@.len() || orig.len() == 0,
                orig.len() > 0 ==> points@.take(i as int) == spec_cumul(orig.take(i as int)),
                forall|k: int| i <= k < orig.len() ==> (#[trigger] points@[k]) == orig[k],
            decreases points.len() - i,
        {
            let prev = points[i - 1].0;
            let cur = points[i].0;
            let v: i64 = match prev.checked_add(cur) {
                Some(x) => x,
                None => {
                    if cur > 0 {
                        i64::MAX
                    } else {
                        i64::MIN
                    }
                },
            };
            let ghost pre = points@;
            points.set(i, Amount(v));
            i = i + 1;
            proof {
                assert(orig.take(i as int).drop_last() =~= orig.take(i as int - 1));
                assert(points@.take(i as int - 1) =~= pre.take(i as int - 1));
                assert(points@.take(i as int) =~= points@.take(i as int - 1).push(Amount(v)));
                assert(spec_cumul(orig.take(i as int)) == points@.take(i as int - 1).push(
                    Amount(v),
                ));
            }
        }
        proof {
            assert(orig.take(orig.len() as int) =~= orig);
            if orig.len() > 0 {
                assert(points@.take(orig.len() as int) =~= points@);
            } else {
                assert(points@ =~= Seq::<Amount>::empty());
                assert(spec_cumul(orig) =~= Seq::<Amount>::empty());
            }
        }
        CumulativeEntry { points }
    }
}

impl ScalarGroup for CumulativeEntry {
    open spec fn group_spec(&self) -> Seq<int> {
        Seq::new(self.points@.len(), |i: int| self.points@[i].0 as int)
    }

    open spec fn group_inv(&self) -> bool {
        true
    }

    fn to_group(&self) -> (r: Vec<i64>) {
        let mut out: Vec<i64> = Vec::new();
        let mut i: usize = 0;
        while i < self.points.len()
            invariant
                i <= self.points@.len(),
                out@.len() == i,
                forall|k: int| 0 <= k < i ==> (#[trigger] out@[k]) == self.points@[k].0,
            decreases self.points.len() - i,
        {
            out.push(self.points[i].0);
            i = i + 1;
        }
        out
    }
}

/// Generic plotter: (X, Y) pairs describing how to display the data.
#[derive(Debug)]
pub struct Plot<X, Y> {
    pub data: Vec<(X, Y)>,
}

impl<X, Y> Plot<X, Y> {
    /// Empty plotter.
    pub fn new() -> (r: Plot<X, Y>)
        ensures
            r.data@ == Seq::<(X, Y)>::empty(),
    {
        let r = Plot { data: Vec::new() };
        proof {
            assert(r.data@ =~= Seq::<(X, Y)>::empty());
        }
        r
    }

    /// Add an item.
    pub fn push(&mut self, x: X, y: Y)
        ensures
            final(self).data@ == old(self).data@.push((x, y)),
    {
        self.data.push((x, y));
    }
}

/// Plain coordinates ready to be drawn: an abscissa range and the group of
/// ordinates above it, per period.
#[derive(Debug)]
pub struct RangeGroupDrawer {
    pub points: Vec<((i64, i64), Vec<i64>)>,
}

impl<X: ScalarRange, Y: ScalarGroup> Plot<X, Y> {
    /// Reduce every pair to plain coordinates, in order.
    pub fn to_range_group_drawer(&self) -> (r: RangeGroupDrawer)
        requires
            forall|i: int|
                0 <= i < self.data@.len() ==> (#[trigger] self.data@[i]).0.range_inv() && self
                    .data@[i].1.group_inv(),
        ensures
            r.points@.len() == self.data@.len(),
            forall|i: int|
                0 <= i < self.data@.len() ==> {
                    let p = #[trigger] r.points@[i];
                    let d = self.data@[i];
                    p.0.0 as int == d.0.range_spec().0 && p.0.1 as int == d.0.range_spec().1
                        && p.1@.len() == d.1.group_spec().len() && (forall|k: int|
                        0 <= k < p.1@.len() ==> (#[trigger] p.1@[k]) as int == d.1.group_spec()[k])
                },
    {
        let mut points: Vec<((i64, i64), Vec<i64>)> = Vec::new();
        let mut i: usize = 0;
        while i < self.data.len()
            invariant
                i <= self.data@.len(),
                points@.len() == i,
                forall|j: int|
                    0 <= j < self.data@.len() ==> (#[trigger] self.data@[j]).0.range_inv() && self
                        .data@[j].1.group_inv(),
                forall|j: int|
                    0 <= j < i ==> {
                        let p = #[trigger] points@[j];
                        let d = self.data@[j];
                        p.0.0 as int == d.0.range_spec().0 && p.0.1 as int == d.0.range_spec().1
                            && p.1@.len() == d.1.group_spec().len() && (forall|k: int|
                            0 <= k < p.1@.len() ==> (#[trigger] p.1@[k]) as int
                                == d.1.group_spec()[k])
                    },
            decreases self.data.len() - i,
        {
            let x = self.data[i].0.to_range();
            let y = self.data[i].1.to_group();
            points.push((x, y));
            i = i + 1;
        }
        RangeGroupDrawer { points }
    }
}

/// In charge of the public interface to the plotting devices.
pub struct Plotter<'d> {
    pub data: &'d [Summary],
}

impl<'d> Plotter<'d> {
    /// Wrap data to plot.
    pub fn from(data: &'d [Summary]) -> (r: Plotter<'d>)
        ensures
            r.data == data,
    {
        Plotter { data }
    }

    /// Accumulate the contained data into a cumulative plot: one series per
    /// period, made of the running totals of its per-category amounts.
    pub fn cumulative_plot(&self) -> (r: Plot<Period, CumulativeEntry>)
        requires
            forall|i: int| 0 <= i < self.data@.len() ==> (#[trigger] self.data@[i]).wf(),
        ensures
            r.data@.len() == self.data@.len(),
            forall|i: int|
                0 <= i < r.data@.len() ==> (#[trigger] r.data@[i]).0 == self.data@[i].period && r
                    .data@[i].1.points@ == spec_cumul(self.data@[i].amounts@),
    {
        let mut plot: Plot<Period, CumulativeEntry> = Plot::new();
        let n = slice_len(self.data);
        let mut i: usize = 0;
        while i < n
            invariant
                i <= n,
                n == self.data@.len(),
                forall|j: int| 0 <= j < self.data@.len() ==> (#[trigger] self.data@[j]).wf(),
                plot.data@.len() == i,
                forall|j: int|
                    0 <= j < i ==> (#[trigger] plot.data@[j]).0 == self.data@[j].period
                        && plot.data@[j].1.points@ == spec_cumul(self.data@[j].amounts@),
            decreases n - i,
        {
            let sum = slice_index(self.data, i);
            let amounts = copy_amounts(sum.amounts());
            plot.push(sum.period(), CumulativeEntry::cumul(amounts));
            i = i + 1;
        }
        plot
    }
}

fn slice_len(s: &[Summary]) -> (n: usize)
    ensures
        n == s@.len(),
{
    s.len()
}

fn slice_index(s: &[Summary], i: usize) -> (r: &Summary)
    requires
        i < s@.len(),
    ensures
        *r == s@[i as int],
{
    &s[i]
}

fn copy_amounts(v: &Vec<Amount>) -> (r: Vec<Amount>)
    ensures
        r@ == v@,
{
    let mut out: Vec<Amount> = Vec::new();
    let mut i: usize = 0;
    while i < v.len()
        invariant
            i <= v@.len(),
            out@.len() == i,
            forall|k: int| 0 <= k < i ==> (#[trigger] out@[k]) == v@[k],
        decreases v.len() - i,
    {
        out.push(v[i]);
        i = i + 1;
    }
    proof {
        assert(out@ =~= v@);
    }
    out
}

} // verus!
