//! The marker set shared by both estimators: the fill phase, the bucket rule,
//! the occupancy counts, the displacement test and the relocation guard.

use vstd::prelude::*;

verus! {

/// `q` is in non-decreasing order.
pub open spec fn ascending(q: Seq<i64>) -> bool {
    forall|i: int, j: int| 0 <= i <= j < q.len() ==> q[i] <= q[j]
}

/// `n` is in strictly increasing order.
pub open spec fn climbing(n: Seq<usize>) -> bool {
    forall|i: int, j: int| 0 <= i < j < n.len() ==> n[i] < n[j]
}

/// The counts `1, 2, ..., m`.
pub open spec fn ranks(m: nat) -> Seq<usize> {
    Seq::new(m, |i: int| (i + 1) as usize)
}

/// The first index from `from` on, short of the last, whose height exceeds
/// `x`; the last index where there is none.
pub open spec fn first_above(q: Seq<i64>, x: i64, from: int) -> int
    decreases q.len() - from,
{
    if from >= q.len() - 1 {
        q.len() - 1
    } else if x < q[from] {
        from
    } else {
        first_above(q, x, from + 1)
    }
}

/// `scale` times the desired position of a marker that aims at the fraction
/// `target / scale` of the observations: the position is
/// `1 + (total - 1) * target / scale`, where the last count is the total.
pub open spec fn desired(n: Seq<usize>, target: u64, scale: u64) -> int {
    scale + (n.last() - 1) * target
}

/// Marker `i` lags its desired position `1 + (total - 1) * target / scale` by
/// a full rank or more, and has room below its right neighbour.
pub open spec fn lags(n: Seq<usize>, target: u64, scale: u64, i: int) -> bool {
    &&& (n.last() - 1) * target >= scale * n[i]
    &&& n[i + 1] - n[i] > 1
}

/// Marker `i` leads its desired position by a full rank or more, and has room
/// above its left neighbour.
pub open spec fn leads(n: Seq<usize>, target: u64, scale: u64, i: int) -> bool {
    &&& scale * n[i] - (n.last() - 1) * target >= 2 * scale
    &&& n[i] - n[i - 1] > 1
}

/// The counts after the displacement test has been applied, in turn, to the
/// interior markers below `upto`.
pub open spec fn swept(n: Seq<usize>, targets: Seq<u64>, scale: u64, upto: int) -> Seq<usize>
    decreases upto,
{
    if upto <= 1 {
        n
    } else {
        let before = swept(n, targets, scale, upto - 1);
        let i = upto - 1;
        if lags(before, targets[i], scale, i) {
            before.update(i, (before[i] + 1) as usize)
        } else if leads(before, targets[i], scale, i) {
            before.update(i, (before[i] - 1) as usize)
        } else {
            before
        }
    }
}

/// One step of the sweep, at marker `i`, after an observation that fell in
/// bucket `k` was counted: a marker that is due to move down has counted the
/// observation, and after its move no marker is due to move down again.
proof fn lemma_sweep_step(before: Seq<usize>, now: Seq<usize>, target: u64, scale: u64, i: int, k: int)
    requires
        before.len() == now.len(),
        1 <= i <= now.len() - 2,
        scale > 0,
        before.last() >= 1,
        now.last() == before.last() + 1,
        now[i] == if i >= k { before[i] + 1 } else { before[i] as int },
        now[i - 1] >= before[i - 1],
        !leads(before, target, scale, i),
    ensures
        leads(now, target, scale, i) ==> i >= k && now[i] == before[i] + 1,
        lags(now, target, scale, i) ==> !leads(now.update(i, (now[i] + 1) as usize), target, scale, i),
        leads(now, target, scale, i) ==> !leads(now.update(i, (now[i] - 1) as usize), target, scale, i),
{
    let total = before.last() as int;
    let t = target as int;
    let s = scale as int;
    assert((total - 1) * t <= total * t) by (nonlinear_arith)
        requires
            t >= 0,
    ;
    assert(now.last() - 1 == total);
    assert(s * (now[i] + 1) == s * now[i] + s) by (nonlinear_arith);
    assert(s * (now[i] - 1) == s * now[i] - s) by (nonlinear_arith);
    assert(s * (before[i] + 1) == s * before[i] + s) by (nonlinear_arith);
}

/// What a marker set holds.
pub struct State {
    /// The marker heights; before the set is ready, the observations stored
    /// so far, from the back.
    pub heights: Seq<i64>,
    /// The occupancy count of each marker.
    pub positions: Seq<usize>,
    /// The numerator of each marker's target fraction.
    pub targets: Seq<u64>,
    /// The common denominator of the target fractions.
    pub scale: u64,
    /// How many observations are still needed before the set is ready.
    pub remaining: nat,
}

impl State {
    pub open spec fn len(self) -> nat {
        self.heights.len()
    }

    pub open spec fn ready(self) -> bool {
        self.remaining == 0
    }

    /// The number of observations counted so far.
    pub open spec fn total(self) -> int {
        self.positions.last() as int
    }

    pub open spec fn wf(self) -> bool {
        &&& 3 <= self.heights.len() <= usize::MAX
        &&& self.positions.len() == self.heights.len()
        &&& self.targets.len() == self.heights.len()
        &&& self.scale > 0
        &&& forall|i: int| 0 <= i < self.targets.len() ==> #[trigger] self.targets[i] <= self.scale
        &&& self.remaining <= self.heights.len()
        &&& self.positions[0] == 1
        &&& climbing(self.positions)
        &&& self.remaining == 0 ==> ascending(self.heights)
        &&& self.remaining > 0 ==> self.positions == ranks(self.heights.len())
    }

    /// No interior marker is due to move down: the state in which every
    /// addition leaves the set.
    pub open spec fn rested(self) -> bool {
        forall|i: int|
            1 <= i <= self.len() - 2 ==> !#[trigger] leads(self.positions, self.targets[i], self.scale, i)
    }

    /// The state of a set that has seen nothing.
    pub open spec fn initial(targets: Seq<u64>, scale: u64) -> State {
        State {
            heights: Seq::new(targets.len(), |i: int| 0i64),
            positions: ranks(targets.len()),
            targets,
            scale,
            remaining: targets.len(),
        }
    }

    /// The bucket that `x` falls in: the index of the first marker past the
    /// minimum that exceeds `x`, the maximum's index where none does.
    pub open spec fn bucket(self, x: i64) -> int {
        first_above(self.heights, x, 1)
    }

    /// The heights once the outer markers have been stretched to take in `x`.
    pub open spec fn stretched(self, x: i64) -> Seq<i64> {
        let last = self.heights.len() - 1;
        let low = if x < self.heights[0] { x } else { self.heights[0] };
        let high = if self.heights[last] < x { x } else { self.heights[last] };
        self.heights.update(0, low).update(last, high)
    }

    /// The counts once every marker from `x`'s bucket on has counted `x`.
    pub open spec fn counted(self, x: i64) -> Seq<usize> {
        let k = self.bucket(x);
        Seq::new(
            self.positions.len(),
            |i: int|
                if i >= k {
                    (self.positions[i] + 1) as usize
                } else {
                    self.positions[i]
                },
        )
    }

    /// The state after `x` has been taken in while the set is ready, before
    /// any marker is relocated.
    pub open spec fn taken(self, x: i64) -> State {
        State { heights: self.stretched(x), positions: self.counted(x), ..self }
    }

    /// The state after `x` has been stored while more than one observation
    /// is still needed.
    pub open spec fn stored(self, x: i64) -> State {
        State {
            heights: self.heights.update(self.remaining - 1, x),
            remaining: (self.remaining - 1) as nat,
            ..self
        }
    }

    /// Whether `self` is what storing `x` as the last missing observation
    /// makes of `before`: the stored observations in ascending order.
    pub open spec fn seeded(self, before: State, x: i64) -> bool {
        &&& self.remaining == 0
        &&& ascending(self.heights)
        &&& self.heights.to_multiset() == before.heights.update(0, x).to_multiset()
        &&& self.positions == before.positions
        &&& self.targets == before.targets
        &&& self.scale == before.scale
    }

    /// The move that marker `i` is due.
    pub open spec fn due(self, i: int) -> Shift {
        if lags(self.positions, self.targets[i], self.scale, i) {
            Shift::Up
        } else if leads(self.positions, self.targets[i], self.scale, i) {
            Shift::Down
        } else {
            Shift::Stay
        }
    }

    /// Whether `self` is what adding `x` makes of the ready state `before`,
    /// whatever heights were proposed for the markers that moved: the counts
    /// are those of the sweep, the outer markers hold `x`, a marker whose
    /// count the sweep left alone keeps its height, and the heights ascend.
    pub open spec fn follows(self, before: State, x: i64) -> bool {
        let taken = before.taken(x);
        &&& self.remaining == 0
        &&& self.targets == before.targets
        &&& self.scale == before.scale
        &&& self.positions == swept(taken.positions, before.targets, before.scale, before.len() - 1)
        &&& self.heights.len() == before.heights.len()
        &&& self.heights[0] == taken.heights[0]
        &&& self.heights.last() == taken.heights.last()
        &&& forall|i: int|
            1 <= i <= before.len() - 2 && self.positions[i] == taken.positions[i]
                ==> #[trigger] self.heights[i] == before.heights[i]
        &&& ascending(self.heights)
        &&& self.total() == before.total() + 1
        &&& forall|i: int| 0 <= i < before.len() ==> before.positions[i] <= #[trigger] self.positions[i]
    }

    /// What a query for `marker`, counted from one, reads: the height,
    /// nothing while the set is not ready, a refusal where there is no such
    /// marker.
    pub open spec fn estimate(self, marker: usize) -> Result<Option<i64>, InvalidMarker> {
        if marker < 1 || marker > self.len() {
            Err(InvalidMarker { marker, markers: self.len() as usize })
        } else if self.ready() {
            Ok(Some(self.heights[marker - 1]))
        } else {
            Ok(None)
        }
    }

    /// What a query for the count of `marker`, counted from one, reads: the
    /// count, zero while the set is not ready, a refusal where there is no
    /// such marker.
    pub open spec fn count(self, marker: usize) -> Result<usize, InvalidMarker> {
        if marker < 1 || marker > self.len() {
            Err(InvalidMarker { marker, markers: self.len() as usize })
        } else if self.ready() {
            Ok(self.positions[marker - 1])
        } else {
            Ok(0usize)
        }
    }

    /// `c` lies strictly between the neighbours of marker `i`.
    pub open spec fn admits(self, i: int, c: i64) -> bool {
        self.heights[i - 1] < c && c < self.heights[i + 1]
    }

    /// The height that marker `i` takes when `c` is proposed: `c` where it
    /// keeps the heights in order, the present height otherwise.
    pub open spec fn settled(self, i: int, c: i64) -> i64 {
        if self.heights[i - 1] <= c && c <= self.heights[i + 1] { c } else { self.heights[i] }
    }

    /// The state after marker `i` has moved one rank, up or down, with `c`
    /// proposed as its new height.
    pub open spec fn moved(self, i: int, up: bool, c: i64) -> State {
        let rank = if up {
            (self.positions[i] + 1) as usize
        } else {
            (self.positions[i] - 1) as usize
        };
        State {
            heights: self.heights.update(i, self.settled(i, c)),
            positions: self.positions.update(i, rank),
            ..self
        }
    }
}

/// A query named a marker that the set does not have.
#[derive(Clone, Copy, Debug, PartialEq, Eq, Structural)]
pub struct InvalidMarker {
    /// The marker that was asked for, counted from one.
    pub marker: usize,
    /// The number of markers in the set.
    pub markers: usize,
}

/// The direction in which a marker is due to move.
#[derive(Clone, Copy, Debug, PartialEq, Eq, Structural)]
pub enum Shift {
    Stay,
    Up,
    Down,
}

/// A marker with its two neighbours: what an interpolation reads.
#[derive(Clone, Copy, Debug)]
pub struct Stencil {
    pub left_height: i64,
    pub height: i64,
    pub right_height: i64,
    pub left_position: usize,
    pub position: usize,
    pub right_position: usize,
}

/// The heights proposed for a marker that moves: the parabolic one, and the
/// linear one where the parabolic one was not admitted.
#[derive(Clone, Copy, Debug)]
pub struct Proposal {
    pub parabolic: i64,
    pub linear: Option<i64>,
}

impl Proposal {
    /// The height that is put forward: the linear one where there is one,
    /// the parabolic one otherwise.
    pub open spec fn chosen(self) -> i64 {
        match self.linear {
            Some(c) => c,
            None => self.parabolic,
        }
    }

    /// The height that is put forward.
    pub fn height(&self) -> (c: i64)
        ensures
            c == self.chosen(),
    {
        match self.linear {
            Some(c) => c,
            None => self.parabolic,
        }
    }
}

/// Proposes a new height for a marker that moves one rank.
pub trait Interpolate {
    /// The piecewise-parabolic proposal.
    fn parabolic(&self, around: &Stencil, up: bool) -> i64;

    /// The linear proposal, towards the neighbour on the side of the move.
    fn linear(&self, around: &Stencil, up: bool) -> i64;
}

/// A set of markers with their heights, counts and target fractions.
#[derive(Clone, Debug)]
pub struct Markers {
    q: Vec<i64>,
    n: Vec<usize>,
    f: Vec<u64>,
    scale: u64,
    cnt: usize,
}

impl View for Markers {
    type V = State;

    closed spec fn view(&self) -> State {
        State {
            heights: self.q@,
            positions: self.n@,
            targets: self.f@,
            scale: self.scale,
            remaining: self.cnt as nat,
        }
    }
}

impl Markers {
    /// A marker set that has seen nothing, one marker for each target.
    pub fn new(targets: Vec<u64>, scale: u64) -> (s: Markers)
        requires
            targets@.len() >= 3,
            scale > 0,
            forall|i: int| 0 <= i < targets@.len() ==> #[trigger] targets@[i] <= scale,
        ensures
            s@ == State::initial(targets@, scale),
            s@.wf(),
            s@.rested(),
    {
        let m: usize = targets.len();
        let mut q: Vec<i64> = Vec::new();
        let mut n: Vec<usize> = Vec::new();
        let mut i: usize = 0;
        while i < m
            invariant
                i <= m,
                m == targets@.len(),
                q@ == Seq::new(i as nat, |j: int| 0i64),
                n@ == ranks(i as nat),
            decreases m - i,
        {
            q.push(0);
            n.push(i + 1);
            i += 1;
            assert(q@ =~= Seq::new(i as nat, |j: int| 0i64));
            assert(n@ =~= ranks(i as nat));
        }
        Markers { q, n, f: targets, scale, cnt: m }
    }

    /// Puts the set back into the state in which it was made.
    pub fn clear(&mut self)
        requires
            old(self)@.wf(),
        ensures
            final(self)@ == State::initial(old(self)@.targets, old(self)@.scale),
            final(self)@.wf(),
            final(self)@.rested(),
    {
        let m: usize = self.q.len();
        let mut i: usize = 0;
        while i < m
            invariant
                i <= m,
                m == self.q@.len(),
                m == self.n@.len(),
                self.f == old(self).f,
                self.scale == old(self).scale,
                forall|j: int| 0 <= j < i ==> self.q@[j] == 0 && self.n@[j] == j + 1,
            decreases m - i,
        {
            self.q.set(i, 0);
            self.n.set(i, i + 1);
            i += 1;
        }
        self.cnt = m;
        assert(self.q@ =~= Seq::new(m as nat, |j: int| 0i64));
        assert(self.n@ =~= ranks(m as nat));
    }

    /// Whether enough observations have been stored for the markers to stand.
    pub fn is_ready(&self) -> (r: bool)
        ensures
            r == self@.ready(),
    {
        self.cnt == 0
    }

    /// The number of markers.
    pub fn len(&self) -> (m: usize)
        ensures
            m == self@.len(),
    {
        self.q.len()
    }

    /// Stores `x` while the set is not ready. The observation that completes
    /// the set puts the heights in ascending order.
    pub fn store(&mut self, x: i64)
        requires
            old(self)@.wf(),
            !old(self)@.ready(),
        ensures
            final(self)@.wf(),
            old(self)@.remaining > 1 ==> final(self)@ == old(self)@.stored(x),
            old(self)@.remaining == 1 ==> final(self)@.seeded(old(self)@, x),
            final(self)@.rested(),
    {
        let m: usize = self.q.len();
        assert forall|i: int| 1 <= i <= m - 2 implies !#[trigger] leads(
            self@.positions,
            self@.targets[i],
            self@.scale,
            i,
        ) by {
            assert(ranks(m as nat)[i] - ranks(m as nat)[i - 1] == 1);
        }
        self.cnt = self.cnt - 1;
        self.q.set(self.cnt, x);
        if self.cnt == 0 {
            sort_heights(&mut self.q);
        }
    }

    /// The bucket that `x` falls in.
    pub fn locate(&self, x: i64) -> (k: usize)
        requires
            self@.wf(),
        ensures
            k == self@.bucket(x),
            1 <= k <= self@.len() - 1,
    {
        let last: usize = self.q.len() - 1;
        let mut k: usize = 1;
        while k < last && x >= self.q[k]
            invariant
                1 <= k <= last,
                last == self.q@.len() - 1,
                first_above(self.q@, x, k as int) == first_above(self.q@, x, 1),
            decreases last - k,
        {
            k += 1;
        }
        k
    }

    /// Takes `x` in while the set is ready: stretches the outer markers to
    /// hold it and counts it on every marker from its bucket on.
    pub fn take(&mut self, x: i64)
        requires
            old(self)@.wf(),
            old(self)@.ready(),
            old(self)@.total() < usize::MAX,
        ensures
            final(self)@ == old(self)@.taken(x),
            final(self)@.wf(),
            final(self)@.total() == old(self)@.total() + 1,
    {
        let m: usize = self.q.len();
        let k: usize = self.locate(x);
        if x < self.q[0] {
            self.q.set(0, x);
        }
        if self.q[m - 1] < x {
            self.q.set(m - 1, x);
        }
        assert(self.q@ =~= old(self)@.stretched(x));
        let mut i: usize = k;
        while i < m
            invariant
                k <= i <= m,
                m == self.n@.len(),
                climbing(old(self).n@),
                old(self).n@.len() == m,
                old(self).n@[m - 1] < usize::MAX,
                forall|j: int|
                    0 <= j < m ==> self.n@[j] == if k <= j < i {
                        (old(self).n@[j] + 1) as usize
                    } else {
                        old(self).n@[j]
                    },
                self.q@ == old(self)@.stretched(x),
                self.f == old(self).f,
                self.scale == old(self).scale,
                self.cnt == old(self).cnt,
                k == old(self)@.bucket(x),
            decreases m - i,
        {
            assert(old(self).n@[i as int] <= old(self).n@[m - 1]);
            let c: usize = self.n[i];
            self.n.set(i, c + 1);
            i += 1;
        }
        assert(self.n@ =~= old(self)@.counted(x));
    }

    /// The move that interior marker `i` is due.
    pub fn shift(&self, i: usize) -> (s: Shift)
        requires
            self@.wf(),
            1 <= i <= self@.len() - 2,
        ensures
            s == self@.due(i as int),
    {
        let m: usize = self.n.len();
        let total: usize = self.n[m - 1];
        let here: usize = self.n[i];
        let target: u64 = self.f[i];
        assert(self.n@[0] <= self.n@[m - 1]);
        assert(self.n@.last() == total);
        assert((total - 1) * target <= 0xFFFF_FFFF_FFFF_FFFF * 0xFFFF_FFFF_FFFF_FFFF)
            by (nonlinear_arith)
            requires
                0 <= total - 1 <= 0xFFFF_FFFF_FFFF_FFFF,
                0 <= target <= 0xFFFF_FFFF_FFFF_FFFF,
        ;
        assert(self.scale * here <= 0xFFFF_FFFF_FFFF_FFFF * 0xFFFF_FFFF_FFFF_FFFF)
            by (nonlinear_arith)
            requires
                0 <= here <= 0xFFFF_FFFF_FFFF_FFFF,
                0 <= self.scale <= 0xFFFF_FFFF_FFFF_FFFF,
        ;
        let wanted: u128 = ((total - 1) as u128) * (target as u128);
        let held: u128 = (self.scale as u128) * (here as u128);
        if wanted >= held && self.n[i + 1] - here > 1 {
            Shift::Up
        } else if held >= wanted && held - wanted >= 2 * (self.scale as u128) && here - self.n[i
            - 1] > 1 {
            Shift::Down
        } else {
            Shift::Stay
        }
    }

    /// Marker `i` with its neighbours.
    pub fn stencil(&self, i: usize) -> (s: Stencil)
        requires
            self@.wf(),
            1 <= i <= self@.len() - 2,
        ensures
            s.left_height == self@.heights[i - 1],
            s.height == self@.heights[i as int],
            s.right_height == self@.heights[i + 1],
            s.left_position == self@.positions[i - 1],
            s.position == self@.positions[i as int],
            s.right_position == self@.positions[i + 1],
    {
        let m: usize = self.q.len();
        assert(i + 1 < m);
        Stencil {
            left_height: self.q[i - 1],
            height: self.q[i],
            right_height: self.q[i + 1],
            left_position: self.n[i - 1],
            position: self.n[i],
            right_position: self.n[i + 1],
        }
    }

    /// Whether `c` lies strictly between the neighbours of marker `i`.
    pub fn admits(&self, i: usize, c: i64) -> (r: bool)
        requires
            self@.wf(),
            1 <= i <= self@.len() - 2,
        ensures
            r == self@.admits(i as int, c),
    {
        let m: usize = self.q.len();
        assert(i + 1 < m);
        self.q[i - 1] < c && c < self.q[i + 1]
    }

    /// Moves marker `i` one rank, up or down, and gives it the height `c`
    /// where `c` keeps the heights in order.
    pub fn relocate(&mut self, i: usize, up: bool, c: i64)
        requires
            old(self)@.wf(),
            old(self)@.ready(),
            1 <= i <= old(self)@.len() - 2,
            up ==> old(self)@.positions[i + 1] - old(self)@.positions[i as int] > 1,
            !up ==> old(self)@.positions[i as int] - old(self)@.positions[i - 1] > 1,
        ensures
            final(self)@ == old(self)@.moved(i as int, up, c),
            final(self)@.wf(),
            final(self)@.total() == old(self)@.total(),
    {
        let m: usize = self.q.len();
        assert(i + 1 < m);
        if self.q[i - 1] <= c && c <= self.q[i + 1] {
            self.q.set(i, c);
        } else {
            assert(self.q@ =~= self.q@.update(i as int, self.q@[i as int]));
        }
        let here: usize = self.n[i];
        if up {
            self.n.set(i, here + 1);
        } else {
            self.n.set(i, here - 1);
        }
    }
}

impl Markers {
    /// Adds the observation `x`: stores it while the set is not ready; once
    /// it is, takes it in and then moves each interior marker that is due,
    /// to the parabolic proposal where that lies strictly between the
    /// marker's neighbours, to the linear one otherwise.
    pub fn add<I: Interpolate>(&mut self, x: i64, ip: &I)
        requires
            old(self)@.wf(),
            old(self)@.rested(),
            old(self)@.ready() ==> old(self)@.total() < usize::MAX,
        ensures
            final(self)@.wf(),
            final(self)@.rested(),
            old(self)@.remaining > 1 ==> final(self)@ == old(self)@.stored(x),
            old(self)@.remaining == 1 ==> final(self)@.seeded(old(self)@, x),
            old(self)@.ready() ==> final(self)@.follows(old(self)@, x),
    {
        if self.cnt > 0 {
            self.store(x);
            return ;
        }
        let ghost before = self@;
        self.take(x);
        let ghost taken = self@;
        let m: usize = self.q.len();
        let mut i: usize = 1;
        while i < m - 1
            invariant
                1 <= i <= m - 1,
                m == taken.len(),
                self@.wf(),
                self@.ready(),
                self@.len() == m,
                self@.targets == taken.targets,
                self@.scale == taken.scale,
                self@.positions == swept(taken.positions, taken.targets, taken.scale, i as int),
                self@.heights[0] == taken.heights[0],
                forall|j: int| i <= j < m ==> self@.heights[j] == taken.heights[j],
                forall|j: int|
                    1 <= j < i && self@.positions[j] == taken.positions[j]
                        ==> self@.heights[j] == taken.heights[j],
                forall|j: int| i <= j < m ==> self@.positions[j] == taken.positions[j],
                self@.total() == taken.total(),
                taken == before.taken(x),
                taken.total() == before.total() + 1,
                before.wf(),
                before.ready(),
                before.rested(),
                before.len() == m,
                forall|j: int| 0 <= j < m ==> before.positions[j] <= self@.positions[j],
                forall|j: int|
                    1 <= j < i ==> !#[trigger] leads(self@.positions, self@.targets[j], self@.scale, j),
            decreases m - i,
        {
            proof {
                assert(before.positions[i as int] < before.positions[m - 1]);
                assert(self@.positions[i as int] == taken.positions[i as int]);
                assert(taken.positions[i as int] == before.counted(x)[i as int]);
                lemma_sweep_step(
                    before.positions,
                    self@.positions,
                    self@.targets[i as int],
                    self@.scale,
                    i as int,
                    before.bucket(x),
                );
            }
            let ghost prev = self@;
            let s: Shift = self.shift(i);
            match s {
                Shift::Stay => {},
                Shift::Up => {
                    let p: Proposal = self.propose(i, true, ip);
                    self.relocate(i, true, p.height());
                },
                Shift::Down => {
                    let p: Proposal = self.propose(i, false, ip);
                    self.relocate(i, false, p.height());
                },
            }
            assert forall|j: int| 1 <= j < i + 1 implies !#[trigger] leads(
                self@.positions,
                self@.targets[j],
                self@.scale,
                j,
            ) by {
                if j < i {
                    assert(!leads(prev.positions, prev.targets[j], prev.scale, j));
                }
            }
            i += 1;
        }
    }

    /// Asks for the heights proposed for marker `i`: the parabolic one, and
    /// the linear one exactly where the parabolic one does not lie strictly
    /// between the marker's neighbours.
    fn propose<I: Interpolate>(&self, i: usize, up: bool, ip: &I) -> (p: Proposal)
        requires
            self@.wf(),
            1 <= i <= self@.len() - 2,
        ensures
            p.linear is None <==> self@.admits(i as int, p.parabolic),
            self@.admits(i as int, p.parabolic) ==> p.chosen() == p.parabolic
                && self@.settled(i as int, p.chosen()) == p.parabolic,
    {
        let around: Stencil = self.stencil(i);
        let parabolic: i64 = ip.parabolic(&around, up);
        if self.admits(i, parabolic) {
            Proposal { parabolic, linear: None }
        } else {
            let linear: i64 = ip.linear(&around, up);
            Proposal { parabolic, linear: Some(linear) }
        }
    }

    /// The height of `marker`, counted from one.
    pub fn estimate(&self, marker: usize) -> (r: Result<Option<i64>, InvalidMarker>)
        requires
            self@.wf(),
        ensures
            r == self@.estimate(marker),
    {
        let m: usize = self.q.len();
        if marker < 1 || marker > m {
            Err(InvalidMarker { marker, markers: m })
        } else if self.cnt == 0 {
            Ok(Some(self.q[marker - 1]))
        } else {
            Ok(None)
        }
    }

    /// The number of observations at or below `marker`, counted from one.
    pub fn count(&self, marker: usize) -> (r: Result<usize, InvalidMarker>)
        requires
            self@.wf(),
        ensures
            r == self@.count(marker),
    {
        let m: usize = self.q.len();
        if marker < 1 || marker > m {
            Err(InvalidMarker { marker, markers: m })
        } else if self.cnt == 0 {
            Ok(self.n[marker - 1])
        } else {
            Ok(0)
        }
    }
}

/// Exchanging two elements of a sequence leaves its multiset as it was.
proof fn lemma_exchange(s: Seq<i64>, i: int, j: int)
    requires
        0 <= i < s.len(),
        0 <= j < s.len(),
        i != j,
    ensures
        s.update(i, s[j]).update(j, s[i]).to_multiset() == s.to_multiset(),
{
    broadcast use vstd::multiset::group_multiset_axioms;

    let once = s.update(i, s[j]);
    s.to_multiset_ensures();
    assert(s.contains(s[i]));
    assert(s.contains(s[j]));
    vstd::seq_lib::to_multiset_update(s, i, s[j]);
    vstd::seq_lib::to_multiset_update(once, j, s[i]);
    assert(s.to_multiset().insert(s[j]).remove(s[i]).insert(s[i]).remove(s[j]) =~= s.to_multiset());
}

/// Puts `q` in ascending order, by insertion.
fn sort_heights(q: &mut Vec<i64>)
    ensures
        ascending(final(q)@),
        final(q)@.to_multiset() == old(q)@.to_multiset(),
        final(q)@.len() == old(q)@.len(),
{
    let m: usize = q.len();
    let mut i: usize = 0;
    while i < m
        invariant
            i <= m,
            q@.len() == m,
            q@.to_multiset() == old(q)@.to_multiset(),
            forall|a: int, b: int| 0 <= a <= b < i ==> q@[a] <= q@[b],
        decreases m - i,
    {
        let mut j: usize = i;
        while j > 0 && q[j - 1] > q[j]
            invariant
                j <= i < m,
                q@.len() == m,
                q@.to_multiset() == old(q)@.to_multiset(),
                forall|a: int, b: int| 0 <= a <= b <= i && a != j && b != j ==> q@[a] <= q@[b],
                forall|b: int| j < b <= i ==> q@[j as int] <= q@[b],
            decreases j,
        {
            let low: i64 = q[j];
            let high: i64 = q[j - 1];
            proof {
                lemma_exchange(q@, j - 1, j as int);
            }
            q.set(j - 1, low);
            q.set(j, high);
            j -= 1;
        }
        i += 1;
    }
}

} // verus!
