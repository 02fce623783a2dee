//! Composable query predicates over a payload's timestamp and tags.
//!
//! Every criteria value is a pure predicate; its meaning is the spec
//! function `matches`, and the executable `apply` decides it.  Time
//! comparisons go by the absolute instant alone: a value's zone name never
//! takes part.

use vstd::prelude::*;

use crate::date_time_tz::DateTimeTz;
use crate::text::eq_str;
use crate::types::Recordable;

verus! {

/// A query predicate over records.  `matches` is what the predicate means;
/// `apply` decides it on a record.
pub trait Criteria {
    /// The predicate itself, over a payload's timestamp and tags.
    spec fn matches(&self, ts: DateTimeTz, tags: Seq<Seq<char>>) -> bool;

    /// Applies the criteria to a payload, returning true exactly when the
    /// payload's timestamp and tags satisfy `matches`.
    fn apply<T: Recordable>(&self, record: &T) -> (r: bool)
        ensures
            r == self.matches(record.timestamp_spec(), record.tags_spec()),
    ;
}

/// Both criteria must be matched.
pub struct And<A: Criteria, B: Criteria> {
    pub lside: A,
    pub rside: B,
}

impl<A: Criteria, B: Criteria> Criteria for And<A, B> {
    open spec fn matches(&self, ts: DateTimeTz, tags: Seq<Seq<char>>) -> bool {
        self.lside.matches(ts, tags) && self.rside.matches(ts, tags)
    }

    fn apply<T: Recordable>(&self, record: &T) -> (r: bool) {
        self.lside.apply(record) && self.rside.apply(record)
    }
}

/// Either criteria may be matched.
pub struct Or<A: Criteria, B: Criteria> {
    pub lside: A,
    pub rside: B,
}

impl<A: Criteria, B: Criteria> Criteria for Or<A, B> {
    open spec fn matches(&self, ts: DateTimeTz, tags: Seq<Seq<char>>) -> bool {
        self.lside.matches(ts, tags) || self.rside.matches(ts, tags)
    }

    fn apply<T: Recordable>(&self, record: &T) -> (r: bool) {
        self.lside.apply(record) || self.rside.apply(record)
    }
}

/// The starting time for a search: matches payloads whose timestamp is at
/// or after (after, when not inclusive) the given time.
pub struct StartTime {
    pub time: DateTimeTz,
    pub incl: bool,
}

impl Criteria for StartTime {
    open spec fn matches(&self, ts: DateTimeTz, tags: Seq<Seq<char>>) -> bool {
        if self.incl {
            self.time.inst() <= ts.inst()
        } else {
            self.time.inst() < ts.inst()
        }
    }

    fn apply<T: Recordable>(&self, record: &T) -> (r: bool) {
        let rts = record.timestamp();
        if self.incl {
            self.time.instant_seconds() <= rts.instant_seconds()
        } else {
            self.time.instant_seconds() < rts.instant_seconds()
        }
    }
}

/// The ending time for a search: matches payloads whose timestamp is at or
/// before (before, when not inclusive) the given time.
pub struct EndTime {
    pub time: DateTimeTz,
    pub incl: bool,
}

impl Criteria for EndTime {
    open spec fn matches(&self, ts: DateTimeTz, tags: Seq<Seq<char>>) -> bool {
        if self.incl {
            ts.inst() <= self.time.inst()
        } else {
            ts.inst() < self.time.inst()
        }
    }

    fn apply<T: Recordable>(&self, record: &T) -> (r: bool) {
        let rts = record.timestamp();
        if self.incl {
            rts.instant_seconds() <= self.time.instant_seconds()
        } else {
            rts.instant_seconds() < self.time.instant_seconds()
        }
    }
}

/// Tags that must all exist on the record; the empty list matches every
/// record.
pub struct Tags {
    pub tags: Vec<String>,
}

impl Criteria for Tags {
    open spec fn matches(&self, ts: DateTimeTz, tags: Seq<Seq<char>>) -> bool {
        forall|i: int| 0 <= i < self.tags@.len() ==> tags.contains(#[trigger] self.tags@[i]@)
    }

    fn apply<T: Recordable>(&self, record: &T) -> (r: bool) {
        let rtags = record.tags();
        let mut k: usize = 0;
        while k < self.tags.len()
            invariant
                k <= self.tags@.len(),
                rtags.deep_view() == record.tags_spec(),
                forall|i: int|
                    0 <= i < k ==> record.tags_spec().contains(#[trigger] self.tags@[i]@),
            decreases self.tags@.len() - k,
        {
            if !contains_string(&rtags, &self.tags[k]) {
                proof {
                    assert(!record.tags_spec().contains(self.tags@[k as int]@));
                }
                return false;
            }
            k = k + 1;
        }
        true
    }
}

/// Whether one of the strings of `v` has the characters of `s`.
fn contains_string(v: &Vec<String>, s: &String) -> (r: bool)
    ensures
        r == v.deep_view().contains(s@),
{
    let mut i: usize = 0;
    while i < v.len()
        invariant
            i <= v@.len(),
            forall|j: int| 0 <= j < i ==> v.deep_view()[j] != s@,
        decreases v@.len() - i,
    {
        proof {
            assert(v.deep_view()[i as int] == v@[i as int]@);
        }
        if eq_str(v[i].as_str(), s.as_str()) {
            return true;
        }
        i = i + 1;
    }
    false
}

/// A criteria that matches records of exactly the given time: the instants
/// are equal, whatever zone names the two values carry.
pub fn exact_time(time: DateTimeTz) -> (r: And<StartTime, EndTime>)
    ensures
        forall|ts: DateTimeTz, tags: Seq<Seq<char>>| #[trigger]
            r.matches(ts, tags) <==> ts.inst() == time.inst(),
{
    let second = time.duplicate();
    And {
        lside: StartTime { time, incl: true },
        rside: EndTime { time: second, incl: true },
    }
}

/// A criteria that matches all records within a time range, with the given
/// inclusivity at either boundary.  The clause states the boundary
/// conditions exactly, over the absolute instants.
pub fn time_range(start: DateTimeTz, start_incl: bool, end: DateTimeTz, end_incl: bool) -> (r:
    And<StartTime, EndTime>)
    ensures
        forall|ts: DateTimeTz, tags: Seq<Seq<char>>| #[trigger]
            r.matches(ts, tags) <==> ((if start_incl {
                start.inst() <= ts.inst()
            } else {
                start.inst() < ts.inst()
            }) && (if end_incl {
                ts.inst() <= end.inst()
            } else {
                ts.inst() < end.inst()
            })),
{
    And {
        lside: StartTime { time: start, incl: start_incl },
        rside: EndTime { time: end, incl: end_incl },
    }
}

} // verus!
