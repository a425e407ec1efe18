//! Time positions: where a sample sits within the unit interval.
use vstd::prelude::*;
use crate::rational::ratio;

verus! {

/// The time position of sample number `index` when the unit interval holds
/// `count` evenly spaced samples: the exact value `index / count`.
///
/// A position always has at least one sample per unit interval, so its value
/// is never a division by zero. Positions are made by [`TimePos::new`], which
/// turns a zero count away.
#[derive(Clone, Copy, Debug, PartialEq, Eq)]
pub struct TimePos {
    index: usize,
    count: usize,
}

impl TimePos {
    #[verifier::type_invariant]
    spec fn well_formed(self) -> bool {
        self.count > 0
    }

    /// The number of the sample, counted from zero.
    pub closed spec fn spec_index(&self) -> usize {
        self.index
    }

    /// The number of samples per unit interval.
    pub closed spec fn spec_count(&self) -> usize {
        self.count
    }

    /// The position of sample `index` out of `count` per unit interval, or
    /// `None` when `count` is zero.
    pub fn new(index: usize, count: usize) -> (pos: Option<TimePos>)
        ensures
            pos is None <==> count == 0,
            pos matches Some(t) ==> t.index() == index && t.count() == count,
    {
        if count == 0 {
            None
        } else {
            Some(TimePos { index, count })
        }
    }

    /// The position of sample `index` out of a count known to be positive.
    pub(crate) fn at(index: usize, count: usize) -> (t: TimePos)
        requires
            count > 0,
        ensures
            t.index() == index,
            t.count() == count,
    {
        TimePos { index, count }
    }

    /// The number of the sample, counted from zero.
    #[verifier::when_used_as_spec(spec_index)]
    pub fn index(&self) -> (index: usize)
        ensures
            index == self.spec_index(),
    {
        self.index
    }

    /// The number of samples per unit interval; never zero.
    #[verifier::when_used_as_spec(spec_count)]
    pub fn count(&self) -> (count: usize)
        ensures
            count == self.spec_count(),
            count > 0,
    {
        proof {
            use_type_invariant(self);
        }
        self.count
    }
}

impl View for TimePos {
    type V = real;

    /// The position as a real number of unit intervals.
    open spec fn view(&self) -> real {
        ratio(self.index() as int, self.count() as int)
    }
}

} // verus!
