//! The estimator of the boundaries of equiprobable buckets.

use crate::markers::{Interpolate, InvalidMarker, Markers, State};
use crate::refusal::refuse;
use vstd::prelude::*;

verus! {

/// The target numerators of a histogram of `buckets` buckets: boundary `i`
/// aims at the fraction `i / buckets` of the observations.
pub open spec fn boundary_targets(buckets: u16) -> Seq<u64> {
    Seq::new((buckets + 1) as nat, |i: int| i as u64)
}

/// The bucket counts that a histogram can be made with.
pub open spec fn valid_buckets(buckets: u16) -> bool {
    4 <= buckets <= 65534
}

/// A histogram of equiprobable buckets over a stream of observations.
#[derive(Clone, Debug)]
pub struct Histogram {
    core: Markers,
    b: u16,
}

impl View for Histogram {
    type V = State;

    closed spec fn view(&self) -> State {
        self.core@
    }
}

impl Histogram {
    /// The number of buckets.
    pub closed spec fn buckets(&self) -> u16 {
        self.b
    }

    /// The markers are in order and aim at the bucket boundaries.
    pub open spec fn wf(&self) -> bool {
        &&& valid_buckets(self.buckets())
        &&& self@.wf()
        &&& self@.rested()
        &&& self@.targets == boundary_targets(self.buckets())
        &&& self@.scale == self.buckets()
    }

    /// A histogram of `buckets` buckets that has seen nothing; a refusal
    /// unless `buckets` is at least 4 and at most 65534.
    pub fn new(buckets: u16) -> (r: Result<Histogram, simple_error::SimpleError>)
        ensures
            r.is_ok() <==> valid_buckets(buckets),
            r matches Ok(h) ==> {
                &&& h.wf()
                &&& h.buckets() == buckets
                &&& h@ == State::initial(boundary_targets(buckets), buckets as u64)
            },
    {
        if buckets < 4 || buckets == u16::MAX {
            return Err(refuse("buckets out of range 3 < buckets < u16 MAX - 1"));
        }
        let mut targets: Vec<u64> = Vec::new();
        let mut i: u16 = 0;
        while i <= buckets
            invariant
                i <= buckets + 1,
                buckets < u16::MAX,
                targets@ == Seq::new(i as nat, |j: int| j as u64),
            decreases buckets + 1 - i,
        {
            targets.push(i as u64);
            i += 1;
            assert(targets@ =~= Seq::new(i as nat, |j: int| j as u64));
        }
        Ok(Histogram { core: Markers::new(targets, buckets as u64), b: buckets })
    }

    /// Puts the histogram back into the state in which it was made.
    pub fn clear(&mut self) -> (r: &mut Self)
        requires
            old(self).wf(),
        ensures
            *final(self) == *final(r),
            r.wf(),
            r.buckets() == old(self).buckets(),
            r@ == State::initial(boundary_targets(old(self).buckets()), old(self).buckets() as u64),
    {
        self.core.clear();
        self
    }

    /// Whether the histogram has seen as many observations as it has
    /// boundaries.
    pub fn is_ready(&self) -> (r: bool)
        ensures
            r == self@.ready(),
    {
        self.core.is_ready()
    }

    /// Adds an observation; `None` stands for one that is not a number and
    /// changes nothing.
    pub fn add<I: Interpolate>(&mut self, x: Option<i64>, ip: &I)
        requires
            old(self).wf(),
            x.is_some() && old(self)@.ready() ==> old(self)@.total() < usize::MAX,
        ensures
            final(self).wf(),
            final(self).buckets() == old(self).buckets(),
            x.is_none() ==> final(self)@ == old(self)@,
            x matches Some(v) ==> {
                &&& old(self)@.remaining > 1 ==> final(self)@ == old(self)@.stored(v)
                &&& old(self)@.remaining == 1 ==> final(self)@.seeded(old(self)@, v)
                &&& old(self)@.ready() ==> final(self)@.follows(old(self)@, v)
            },
    {
        match x {
            None => {},
            Some(v) => {
                self.core.add(v, ip);
            },
        }
    }

    /// The boundary `marker`: 1 is the minimum, `buckets + 1` the maximum.
    pub fn estimate(&self, marker: usize) -> (r: Result<Option<i64>, InvalidMarker>)
        requires
            self.wf(),
        ensures
            r == self@.estimate(marker),
    {
        self.core.estimate(marker)
    }

    /// The number of observations at or below the boundary `marker`.
    pub fn count(&self, marker: usize) -> (r: Result<usize, InvalidMarker>)
        requires
            self.wf(),
        ensures
            r == self@.count(marker),
    {
        self.core.count(marker)
    }
}

} // verus!
