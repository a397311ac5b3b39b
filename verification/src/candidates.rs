//! The timestamps at which the upstream feed is asked for a sample: the points
//! of its sampling grid that are not in the future and not older than the
//! maximum age, newest first.

use vstd::prelude::*;
use vstd::arithmetic::div_mod::{
    lemma_div_is_ordered, lemma_div_minus_one, lemma_div_pos_is_pos, lemma_remainder_lower,
};

verus! {

/// The most recent point of the grid that is not after `now`.
pub open spec fn grid_floor(now: int, resolution: int) -> int {
    (now / resolution) * resolution
}

/// Whether a sample taken at `t` is young enough to be handed out at `now`.
pub open spec fn fresh(now: int, max_age: int, t: int) -> bool {
    0 <= t <= now && now - t <= max_age
}

/// How many timestamps there are from zero up to `t`.
pub open spec fn timestamps_up_to(t: int) -> nat {
    if t < 0 {
        0
    } else {
        (t + 1) as nat
    }
}

/// The grid points from `t` downward that are still fresh, newest first.
pub open spec fn candidates_from(now: int, resolution: int, max_age: int, t: int) -> Seq<int>
    decreases timestamps_up_to(t),
{
    if resolution <= 0 || t < 0 || now - t > max_age {
        Seq::empty()
    } else {
        seq![t] + candidates_from(now, resolution, max_age, t - resolution)
    }
}

/// All the timestamps at which a lookup at `now` may ask the feed, in the
/// order in which it asks.
pub open spec fn candidates(now: int, resolution: int, max_age: int) -> Seq<int> {
    candidates_from(now, resolution, max_age, grid_floor(now, resolution))
}

/// `a` divided by a positive `b`, rounded up.
pub open spec fn ceil_div(a: int, b: int) -> int {
    (a + b - 1) / b
}

/// The most queries one lookup can make.
pub open spec fn query_bound(resolution: int, max_age: int) -> int {
    ceil_div(max_age, resolution) + 1
}

/// Every candidate is fresh, and they descend along the grid from the
/// starting point.
pub proof fn lemma_candidates_from_each(
    now: int,
    resolution: int,
    max_age: int,
    t: int,
    k: int,
)
    requires
        t <= now,
        0 <= k < candidates_from(now, resolution, max_age, t).len(),
    ensures
        candidates_from(now, resolution, max_age, t)[k] == t - k * resolution,
        fresh(now, max_age, candidates_from(now, resolution, max_age, t)[k]),
    decreases k,
{
    let all = candidates_from(now, resolution, max_age, t);
    let rest = candidates_from(now, resolution, max_age, t - resolution);
    assert(all =~= seq![t] + rest);
    if k == 0 {
        assert(0 * resolution == 0);
    } else {
        assert(all[k] == rest[k - 1]);
        lemma_candidates_from_each(now, resolution, max_age, t - resolution, k - 1);
        assert(t - resolution - (k - 1) * resolution == t - k * resolution) by (nonlinear_arith);
    }
}

/// From a fresh starting point `t` there are at most as many candidates as
/// grid steps fit in the age that is left, and one more.
pub proof fn lemma_candidates_from_count(now: int, resolution: int, max_age: int, t: int)
    requires
        0 < resolution,
        t <= now,
    ensures
        candidates_from(now, resolution, max_age, t).len() <= if fresh(now, max_age, t) {
            (max_age - (now - t)) / resolution + 1
        } else {
            0
        },
    decreases timestamps_up_to(t),
{
    if fresh(now, max_age, t) {
        let left = max_age - (now - t);
        let rest = candidates_from(now, resolution, max_age, t - resolution);
        assert(candidates_from(now, resolution, max_age, t) =~= seq![t] + rest);
        lemma_candidates_from_count(now, resolution, max_age, t - resolution);
        lemma_div_pos_is_pos(left, resolution);
        if fresh(now, max_age, t - resolution) {
            lemma_div_minus_one(left, resolution);
            assert(-resolution + left == max_age - (now - (t - resolution)));
        }
    }
}

/// The grid point at or before `now` is not after `now`.
pub proof fn lemma_grid_floor_bounds(now: int, resolution: int)
    requires
        0 <= now,
        0 < resolution,
    ensures
        0 <= grid_floor(now, resolution) <= now,
{
    lemma_remainder_lower(now, resolution);
    lemma_div_pos_is_pos(now, resolution);
    assert(0 <= (now / resolution) * resolution) by (nonlinear_arith)
        requires
            0 <= now / resolution,
            0 < resolution,
    ;
}

/// No candidate is older than the maximum age, and none is in the future.
pub proof fn lemma_candidates_are_fresh(now: int, resolution: int, max_age: int, k: int)
    requires
        0 <= now,
        0 <= k < candidates(now, resolution, max_age).len(),
    ensures
        fresh(now, max_age, candidates(now, resolution, max_age)[k]),
        candidates(now, resolution, max_age)[k] == grid_floor(now, resolution) - k * resolution,
{
    assert(0 < resolution);
    lemma_grid_floor_bounds(now, resolution);
    lemma_candidates_from_each(now, resolution, max_age, grid_floor(now, resolution), k);
}

/// A lookup never asks more often than the maximum age divided by the
/// resolution, rounded up, and once more.
pub proof fn lemma_candidates_are_few(now: int, resolution: int, max_age: int)
    requires
        0 <= now,
        0 < resolution,
        0 <= max_age,
    ensures
        candidates(now, resolution, max_age).len() <= max_age / resolution + 1,
        candidates(now, resolution, max_age).len() <= query_bound(resolution, max_age),
{
    let g = grid_floor(now, resolution);
    lemma_grid_floor_bounds(now, resolution);
    lemma_candidates_from_count(now, resolution, max_age, g);
    lemma_div_pos_is_pos(max_age, resolution);
    lemma_div_is_ordered(max_age - (now - g), max_age, resolution);
    lemma_div_is_ordered(max_age, max_age + resolution - 1, resolution);
}

/// The candidates of one lookup, handed out one at a time.
pub struct Candidates {
    now: u64,
    resolution: u32,
    max_age: u64,
    cursor: Option<u64>,
}

impl View for Candidates {
    type V = Seq<int>;

    /// The timestamps not handed out yet, newest first.
    closed spec fn view(&self) -> Seq<int> {
        match self.cursor {
            Some(t) => candidates_from(
                self.now as int,
                self.resolution as int,
                self.max_age as int,
                t as int,
            ),
            None => Seq::empty(),
        }
    }
}

impl Candidates {
    #[verifier::type_invariant]
    spec fn inv(self) -> bool {
        self.cursor matches Some(t) ==> t <= self.now && self.resolution > 0
    }

    /// The candidates of a lookup at `now`. A feed without a resolution has
    /// no grid, and so no candidates.
    pub fn new(now: u64, resolution: u32, max_age: u64) -> (c: Candidates)
        ensures
            c@ == candidates(now as int, resolution as int, max_age as int),
    {
        if resolution == 0 {
            Candidates { now, resolution, max_age, cursor: None }
        } else {
            proof {
                lemma_grid_floor_bounds(now as int, resolution as int);
            }
            let step: u64 = resolution as u64;
            let start: u64 = now / step * step;
            Candidates { now, resolution, max_age, cursor: Some(start) }
        }
    }

    /// Hands out the next candidate, or `None` once they are exhausted.
    pub fn next(&mut self) -> (t: Option<u64>)
        ensures
            match t {
                Some(x) => old(self)@.len() > 0 && x == old(self)@[0] && final(self)@ == old(
                    self,
                )@.skip(1),
                None => old(self)@.len() == 0 && final(self)@ == old(self)@,
            },
    {
        proof {
            use_type_invariant(&*self);
        }
        match self.cursor {
            None => None,
            Some(t) => {
                if self.now - t > self.max_age {
                    self.cursor = None;
                    None
                } else {
                    let step: u64 = self.resolution as u64;
                    let ghost rest = candidates_from(
                        self.now as int,
                        self.resolution as int,
                        self.max_age as int,
                        t - step,
                    );
                    assert(old(self)@ =~= seq![t as int] + rest);
                    assert(old(self)@.skip(1) =~= rest);
                    if t >= step {
                        self.cursor = Some(t - step);
                    } else {
                        self.cursor = None;
                    }
                    Some(t)
                }
            },
        }
    }
}

} // verus!
