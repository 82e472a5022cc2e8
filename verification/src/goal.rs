//! What the swarm searches for: the objective surfaces, the results they
//! give, and the policy that says which of two results is better.
use vstd::prelude::*;
use crate::kernel::{is_ackley, is_from_count, is_griewank, Kernel};
use crate::scalar::{Scalar, ONE_BITS, ZERO_BITS};
use crate::space::{Mapper, Vector};

verus! {

/// A score and the position that earned it.
#[derive(Clone, Copy, Debug)]
pub struct Performance {
    pub score: Scalar,
    pub position: Vector,
}

impl Performance {
    pub fn new(position: Vector, score: Scalar) -> (r: Performance)
        ensures
            r == (Performance { score, position }),
    {
        Self { position, score }
    }

    pub fn get_score(&self) -> (r: Scalar)
        ensures
            r == self.score,
    {
        self.score
    }

    pub fn get_position(&self) -> (r: Vector)
        ensures
            r == self.position,
    {
        self.position
    }
}

/// Whether the search looks for the largest or for the smallest score.
#[derive(Clone, Copy, Debug, PartialEq, Eq, Structural)]
pub enum Strategy {
    Maximize,
    Minimize,
}

impl Strategy {
    /// `left` is strictly better than `right`.
    pub open spec fn prefers(self, left: Scalar, right: Scalar) -> bool {
        match self {
            Strategy::Maximize => left.spec_gt(right),
            Strategy::Minimize => left.spec_lt(right),
        }
    }

    /// `left` is at least as good as `right`.
    pub open spec fn no_worse(self, left: Scalar, right: Scalar) -> bool {
        match self {
            Strategy::Maximize => left.spec_ge(right),
            Strategy::Minimize => left.spec_le(right),
        }
    }

    /// The better of two scores; the right one unless the left one is
    /// strictly better.
    pub open spec fn spec_pick_best(self, left: Scalar, right: Scalar) -> Scalar {
        if self.prefers(left, right) {
            left
        } else {
            right
        }
    }

    /// The result with the better score; the right one unless the left one
    /// is strictly better.
    pub open spec fn spec_pick_best_performance(
        self,
        left: Performance,
        right: Performance,
    ) -> Performance {
        if self.prefers(left.score, right.score) {
            left
        } else {
            right
        }
    }

    /// The best of a run of results that is not empty: the first one, set
    /// against each later one in turn. A later result takes over only where
    /// it is strictly better, so of equal scores the earliest stays.
    pub open spec fn best_of(self, results: Seq<Performance>) -> Performance
        recommends
            results.len() > 0,
        decreases results.len(),
    {
        if results.len() <= 1 {
            results[0]
        } else {
            self.spec_pick_best_performance(results.last(), self.best_of(results.drop_last()))
        }
    }

    /// Chooses the more desirable of two scores: the smaller when
    /// minimizing, the larger when maximizing, the right one on a tie.
    pub fn pick_best(&self, left: Scalar, right: Scalar) -> (r: Scalar)
        ensures
            r == self.spec_pick_best(left, right),
            r == left || r == right,
            left.spec_same(right) ==> r == right,
            !left.nan() && !right.nan() ==> self.no_worse(r, left) && self.no_worse(r, right),
    {
        match self {
            Self::Maximize => {
                if left.gt(&right) {
                    left
                } else {
                    right
                }
            },
            Self::Minimize => {
                if left.lt(&right) {
                    left
                } else {
                    right
                }
            },
        }
    }

    /// Chooses the result with the more desirable score, whole.
    pub fn pick_best_performance(&self, left: &Performance, right: &Performance) -> (r:
        Performance)
        ensures
            r == self.spec_pick_best_performance(*left, *right),
            r.score == self.spec_pick_best(left.score, right.score),
    {
        match self {
            Self::Maximize => {
                if left.get_score().gt(&right.get_score()) {
                    *left
                } else {
                    *right
                }
            },
            Self::Minimize => {
                if left.get_score().lt(&right.get_score()) {
                    *left
                } else {
                    *right
                }
            },
        }
    }
}

/// Of two numbers, minimizing picks the minimum and maximizing the maximum:
/// one of the two, and no worse than either. Numbers that compare equal give
/// the right one.
pub proof fn lemma_pick_best_is_extremum(strategy: Strategy, a: Scalar, b: Scalar)
    requires
        !a.nan(),
        !b.nan(),
    ensures
        strategy.spec_pick_best(a, b) == a || strategy.spec_pick_best(a, b) == b,
        strategy.no_worse(strategy.spec_pick_best(a, b), a),
        strategy.no_worse(strategy.spec_pick_best(a, b), b),
        strategy == Strategy::Minimize ==> strategy.spec_pick_best(a, b).spec_le(a)
            && strategy.spec_pick_best(a, b).spec_le(b),
        strategy == Strategy::Maximize ==> strategy.spec_pick_best(a, b).spec_ge(a)
            && strategy.spec_pick_best(a, b).spec_ge(b),
        a.spec_same(b) ==> strategy.spec_pick_best(a, b) == b,
{
}

/// A result set against a record never makes the record worse: what comes
/// out scores no worse than the record did, for a record whose score is a
/// number.
pub proof fn lemma_record_never_worsens(strategy: Strategy, current: Performance, record: Performance)
    requires
        !record.score.nan(),
    ensures
        strategy.no_worse(strategy.spec_pick_best_performance(current, record).score, record.score),
        !strategy.spec_pick_best_performance(current, record).score.nan(),
{
}

/// The objective the swarm works on.
#[derive(Clone, Copy, Debug, PartialEq, Eq, Structural)]
pub enum Goal {
    Ackley,
    Griewank,
}

impl Goal {
    /// `r` is the value of this objective at `(x, z)`.
    pub open spec fn is_value<K: Kernel>(self, x: Scalar, z: Scalar, r: Scalar) -> bool {
        match self {
            Goal::Ackley => is_ackley::<K>(x, z, r),
            Goal::Griewank => is_griewank::<K>(x, z, r),
        }
    }

    /// `r` is what a particle standing at `position` scores.
    pub open spec fn is_performance<K: Kernel>(self, position: Vector, r: Performance) -> bool {
        r.position == position && self.is_value::<K>(position.x, position.z, r.score)
    }

    /// The score of the point `(x, z)`.
    pub fn evaluate<K: Kernel>(&self, x: Scalar, z: Scalar) -> (r: Scalar)
        ensures
            self.is_value::<K>(x, z, r),
    {
        match self {
            Self::Ackley => self.ackley::<K>(x, z),
            Self::Griewank => self.griewank::<K>(x, z),
        }
    }

    fn griewank<K: Kernel>(&self, x: Scalar, z: Scalar) -> (r: Scalar)
        ensures
            is_griewank::<K>(x, z, r),
    {
        K::griewank(x, z)
    }

    fn ackley<K: Kernel>(&self, x: Scalar, z: Scalar) -> (r: Scalar)
        ensures
            is_ackley::<K>(x, z, r),
    {
        K::ackley(x, z)
    }
}

/// An objective over a square domain centred on the origin, addressed by
/// parameters that run over `[0, 1]`.
#[derive(Clone, Copy, Debug)]
pub struct GoalSurface {
    goal: Goal,
    parametric_mapper: Mapper,
}

impl GoalSurface {
    pub closed spec fn goal(self) -> Goal {
        self.goal
    }

    /// The map from `[0, 1]` onto one side of the domain.
    pub closed spec fn parametric_mapper(self) -> Mapper {
        self.parametric_mapper
    }

    /// `self` spans a domain of the given size: its parameters run from
    /// minus half the size, halved as a count, to plus that half.
    pub open spec fn is_spanning<K: Kernel>(self, domain_size: usize) -> bool {
        exists|half: Scalar|
            #![trigger is_from_count::<K>((domain_size / 2) as usize, half)]
            {
                &&& is_from_count::<K>((domain_size / 2) as usize, half)
                &&& self.parametric_mapper().is_between::<K>(
                    Scalar { bits: ZERO_BITS },
                    Scalar { bits: ONE_BITS },
                    half.spec_neg(),
                    half,
                )
            }
    }

    /// `r` is the surface point above the parameters `(u, v)`.
    pub open spec fn is_point<K: Kernel>(self, u: Scalar, v: Scalar, r: Vector) -> bool {
        &&& self.parametric_mapper().is_image::<K>(u, r.x)
        &&& self.parametric_mapper().is_image::<K>(v, r.z)
        &&& self.goal().is_value::<K>(r.x, r.z, r.y)
    }

    pub fn new<K: Kernel>(goal: Goal, domain_size: usize) -> (r: GoalSurface)
        ensures
            r.goal() == goal,
            r.is_spanning::<K>(domain_size),
    {
        let half_domain = Scalar::from_count::<K>(domain_size / 2);
        Self {
            goal,
            parametric_mapper: Mapper::new::<K>(
                Scalar::zero(),
                Scalar::one(),
                half_domain.neg(),
                half_domain,
            ),
        }
    }

    pub fn eval<K: Kernel>(&self, x: Scalar, z: Scalar) -> (r: Scalar)
        ensures
            self.goal().is_value::<K>(x, z, r),
    {
        self.goal.evaluate::<K>(x, z)
    }

    /// Evaluates the objective above parameters in the range `[0, 1]`.
    pub fn parametric_eval<K: Kernel>(&self, x: Scalar, z: Scalar) -> (r: Vector)
        ensures
            self.is_point::<K>(x, z, r),
    {
        let x = self.parametric_mapper.map::<K>(x);
        let z = self.parametric_mapper.map::<K>(z);
        let y = self.goal.evaluate::<K>(x, z);
        Vector::new(x, y, z)
    }
}

} // verus!
