//! An interval over any ordered type, with inclusivity at either end.
//!
//! An independently useful helper: the store itself queries time ranges
//! through the criteria module.

use vstd::prelude::*;
use vstd::pervasive::cloned;
use vstd::std_specs::cmp::PartialOrdSpec;

verus! {

/// An interval across the data type `T`.
pub struct Interval<T> {
    start: T,
    start_incl: bool,
    end: T,
    end_incl: bool,
}

impl<T> Interval<T> where T: Clone + PartialOrd + PartialOrdSpec {
    pub closed spec fn start_value(self) -> T {
        self.start
    }

    pub closed spec fn end_value(self) -> T {
        self.end
    }

    pub closed spec fn start_inclusive(self) -> bool {
        self.start_incl
    }

    pub closed spec fn end_inclusive(self) -> bool {
        self.end_incl
    }

    /// Whether `v` lies within the interval, going by `T`'s order.
    pub open spec fn contains_spec(self, v: T) -> bool {
        (if self.start_inclusive() {
            self.start_value().partial_cmp_spec(&v) matches Some(
                core::cmp::Ordering::Less
                | core::cmp::Ordering::Equal,
            )
        } else {
            self.start_value().partial_cmp_spec(&v) == Some(core::cmp::Ordering::Less)
        }) && (if self.end_inclusive() {
            v.partial_cmp_spec(&self.end_value()) matches Some(
                core::cmp::Ordering::Less
                | core::cmp::Ordering::Equal,
            )
        } else {
            v.partial_cmp_spec(&self.end_value()) == Some(core::cmp::Ordering::Less)
        })
    }

    /// An interval from `start` to `end`, with the given inclusivity at
    /// either end.
    pub fn new(start: T, start_incl: bool, end: T, end_incl: bool) -> (r: Interval<T>)
        ensures
            r.start_value() == start,
            r.end_value() == end,
            r.start_inclusive() == start_incl,
            r.end_inclusive() == end_incl,
    {
        Interval { start, start_incl, end, end_incl }
    }

    /// An interval that contains exactly the given value.
    pub fn exact(val: T) -> (r: Interval<T>)
        ensures
            cloned(val, r.start_value()),
            r.end_value() == val,
            r.start_inclusive(),
            r.end_inclusive(),
    {
        Interval { start: val.clone(), start_incl: true, end: val, end_incl: true }
    }

    /// Tests whether a value lies in the interval.  The answer is pinned
    /// down whenever `T`'s comparisons obey their specification, as the
    /// primitive types' do.
    pub fn contains(&self, val: T) -> (r: bool)
        ensures
            T::obeys_partial_cmp_spec() ==> r == self.contains_spec(val),
    {
        match (self.start_incl, self.end_incl) {
            (true, true) => self.start <= val && val <= self.end,
            (true, false) => self.start <= val && val < self.end,
            (false, true) => self.start < val && val <= self.end,
            (false, false) => self.start < val && val < self.end,
        }
    }
}

} // verus!
