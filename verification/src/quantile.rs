//! The estimator of a single quantile, with five markers.

use crate::markers::{Interpolate, InvalidMarker, Markers, State};
use crate::refusal::refuse;
use vstd::prelude::*;

verus! {

/// The target numerators, over `2 * den`, of the markers of the quantile
/// `p = num / den`: the minimum, `p / 2`, `p`, `(1 + p) / 2` and the maximum.
pub open spec fn quantile_targets(num: u64, den: u64) -> Seq<u64> {
    seq![0u64, num, (2 * num) as u64, (den + num) as u64, (2 * den) as u64]
}

/// The fractions `num / den` that lie strictly between 0 and 1.
pub open spec fn valid_fraction(num: u64, den: u64) -> bool {
    0 < num < den
}

/// An estimate of the quantile `num / den` of a stream of observations.
#[derive(Clone, Debug)]
pub struct Quantile {
    core: Markers,
    num: u64,
    den: u64,
}

impl View for Quantile {
    type V = State;

    closed spec fn view(&self) -> State {
        self.core@
    }
}

impl Quantile {
    /// The numerator and the denominator of the quantile.
    pub closed spec fn fraction(&self) -> (u64, u64) {
        (self.num, self.den)
    }

    /// The markers are in order and aim at the quantile and its companions.
    pub open spec fn wf(&self) -> bool {
        &&& valid_fraction(self.fraction().0, self.fraction().1)
        &&& 2 * self.fraction().1 <= u64::MAX
        &&& self@.wf()
        &&& self@.rested()
        &&& self@.targets == quantile_targets(self.fraction().0, self.fraction().1)
        &&& self@.scale == 2 * self.fraction().1
    }

    /// An estimator of the quantile `num / den` that has seen nothing; a
    /// refusal unless the fraction lies strictly between 0 and 1.
    pub fn new(num: u64, den: u64) -> (r: Result<Quantile, simple_error::SimpleError>)
        requires
            2 * den <= u64::MAX,
        ensures
            r.is_ok() <==> valid_fraction(num, den),
            r matches Ok(q) ==> {
                &&& q.wf()
                &&& q.fraction() == (num, den)
                &&& q@ == State::initial(quantile_targets(num, den), (2 * den) as u64)
            },
    {
        if num == 0 || num >= den {
            return Err(refuse("p_quantile out of range 0 < p < 1"));
        }
        let mut targets: Vec<u64> = Vec::new();
        targets.push(0);
        targets.push(num);
        targets.push(2 * num);
        targets.push(den + num);
        targets.push(2 * den);
        assert(targets@ =~= quantile_targets(num, den));
        Ok(Quantile { core: Markers::new(targets, 2 * den), num, den })
    }

    /// Puts the estimator back into the state in which it was made.
    pub fn clear(&mut self) -> (r: &mut Self)
        requires
            old(self).wf(),
        ensures
            *final(self) == *final(r),
            r.wf(),
            r.fraction() == old(self).fraction(),
            r@ == State::initial(
                quantile_targets(old(self).fraction().0, old(self).fraction().1),
                (2 * old(self).fraction().1) as u64,
            ),
    {
        self.core.clear();
        self
    }

    /// Whether the estimator has seen five observations.
    pub fn is_ready(&self) -> (r: bool)
        ensures
            r == self@.ready(),
    {
        self.core.is_ready()
    }

    /// What `add` answers in the state `s`: the height of the middle marker
    /// once the estimator is ready, nothing before.
    pub open spec fn answer(s: State) -> Option<i64> {
        if s.ready() {
            Some(s.heights[2])
        } else {
            None
        }
    }

    /// Adds an observation and answers with the present estimate of the
    /// quantile. `None` stands for an observation that is not a number: it
    /// changes nothing, and the answer is the estimate as it stands.
    pub fn add<I: Interpolate>(&mut self, x: Option<i64>, ip: &I) -> (r: Option<i64>)
        requires
            old(self).wf(),
            x.is_some() && old(self)@.ready() ==> old(self)@.total() < usize::MAX,
        ensures
            final(self).wf(),
            final(self).fraction() == old(self).fraction(),
            r == Self::answer(final(self)@),
            x.is_none() ==> final(self)@ == old(self)@,
            x matches Some(v) ==> {
                &&& old(self)@.remaining > 1 ==> final(self)@ == old(self)@.stored(v)
                &&& old(self)@.remaining == 1 ==> final(self)@.seeded(old(self)@, v)
                &&& old(self)@.ready() ==> final(self)@.follows(old(self)@, v)
            },
    {
        match x {
            None => {},
            Some(v) => {
                self.core.add(v, ip);
            },
        }
        match self.core.estimate(3) {
            Ok(e) => e,
            Err(_) => None,
        }
    }

    /// The height of `marker`: 1 is the minimum, 2 the quantile `p / 2`, 3
    /// the quantile `p`, 4 the quantile `(1 + p) / 2`, 5 the maximum.
    pub fn estimate(&self, marker: usize) -> (r: Result<Option<i64>, InvalidMarker>)
        requires
            self.wf(),
        ensures
            r == self@.estimate(marker),
    {
        self.core.estimate(marker)
    }

    /// The number of observations at or below `marker`.
    pub fn count(&self, marker: usize) -> (r: Result<usize, InvalidMarker>)
        requires
            self.wf(),
        ensures
            r == self@.count(marker),
    {
        self.core.count(marker)
    }
}

} // verus!
