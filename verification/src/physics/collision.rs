//! Collision detection along a ray.
use vstd::prelude::*;
use crate::kernel::{deterministic, is_from_count, is_quotient, is_to_count, Kernel};
use crate::scalar::Scalar;
use crate::space::vector::{lemma_magnitude_determined, lemma_vector_operations_determined};
use crate::space::Vector;
use crate::terrain::{lemma_height_determined, Terrain, TerrainError};

verus! {

/// Walks along a ray in steps of a fixed size and reports the first point at
/// which the terrain is at least as high as the ray.
#[derive(Clone, Copy, Debug)]
pub struct LinearDetector {
    /// How far ahead the detector looks.
    range: Scalar,
    /// The distance between two points that are checked.
    step_size: Scalar,
    step_count: usize,
}

impl LinearDetector {
    pub closed spec fn range(self) -> Scalar {
        self.range
    }

    pub closed spec fn step_size(self) -> Scalar {
        self.step_size
    }

    /// How many points of a ray are checked.
    pub closed spec fn step_count(self) -> usize {
        self.step_count
    }

    /// `self` looks `range` ahead in steps of `step_size`: it checks
    /// `range / step_size` points, cut down to a count.
    pub open spec fn is_made<K: Kernel>(self, range: Scalar, step_size: Scalar) -> bool {
        &&& self.range() == range
        &&& self.step_size() == step_size
        &&& exists|steps: Scalar|
            #![trigger is_quotient::<K>(range, step_size, steps)]
            is_quotient::<K>(range, step_size, steps) && is_to_count::<K>(
                steps,
                self.step_count(),
            )
    }

    /// `self` looks `range` ahead and checks `step_count` points, at steps
    /// of `range / step_count`.
    pub open spec fn is_made_from_count<K: Kernel>(self, range: Scalar, step_count: usize) -> bool {
        exists|count: Scalar, step_size: Scalar|
            #![trigger is_from_count::<K>(step_count, count), is_quotient::<K>(range, count, step_size)]
            {
                &&& is_from_count::<K>(step_count, count)
                &&& is_quotient::<K>(range, count, step_size)
                &&& self.is_made::<K>(range, step_size)
            }
    }

    /// The terrain `land` is at least as high as the point `p`, at height
    /// `height`.
    pub open spec fn is_collision<K: Kernel>(land: Terrain, p: Vector, height: Scalar) -> bool {
        land.is_height::<K>(p.x, p.z, Ok(height)) && height.spec_ge(p.y)
    }

    /// `points` are the points of a walk from `position` in steps of `step`,
    /// and `heights` witness that the walk met no collision before its last
    /// point: the terrain has a height under each earlier point, below that
    /// point.
    pub open spec fn is_walk<K: Kernel>(
        land: Terrain,
        position: Vector,
        step: Vector,
        points: Seq<Vector>,
        heights: Seq<Scalar>,
    ) -> bool {
        &&& points.len() == heights.len() + 1
        &&& points[0] == position
        &&& forall|i: int|
            0 <= i < heights.len() ==> (#[trigger] points[i]).is_sum::<K>(step, points[i + 1])
        &&& forall|i: int|
            0 <= i < heights.len() ==> land.is_height::<K>(
                points[i].x,
                points[i].z,
                Ok(#[trigger] heights[i]),
            ) && !heights[i].spec_ge(points[i].y)
    }

    /// `r` is how a walk ended that met no collision before its last point.
    /// `Ok(None)`: it used up the steps of the detector. `Ok(Some(hit))`:
    /// it had steps left, the terrain is at least as high as the last point,
    /// and `hit` is that point at the height of the terrain. `Err`: it had
    /// steps left, and the terrain has no height under the last point.
    pub open spec fn is_outcome<K: Kernel>(
        self,
        land: Terrain,
        points: Seq<Vector>,
        heights: Seq<Scalar>,
        r: Result<Option<Vector>, TerrainError>,
    ) -> bool {
        &&& heights.len() <= self.step_count()
        &&& match r {
            Ok(None) => heights.len() == self.step_count(),
            Ok(Some(hit)) => {
                &&& heights.len() < self.step_count()
                &&& hit.x == points.last().x
                &&& hit.z == points.last().z
                &&& Self::is_collision::<K>(land, points.last(), hit.y)
            },
            Err(e) => {
                &&& heights.len() < self.step_count()
                &&& land.is_height::<K>(points.last().x, points.last().z, Err(e))
            },
        }
    }

    /// `r` is what the detector finds from `position` towards `direction`.
    ///
    /// The ray advances by the unit vector of `direction` times the step
    /// size. `Ok(Some(hit))`: one of the first `step_count` points of the
    /// ray, with no collision before it, has the terrain at least as high as
    /// itself, and `hit` is that point at the height of the terrain.
    /// `Ok(None)`: none of the `step_count` points has. `Err`: the terrain
    /// has no height under one of them, with no collision before it.
    pub open spec fn is_detection<K: Kernel>(
        self,
        land: Terrain,
        position: Vector,
        direction: Vector,
        r: Result<Option<Vector>, TerrainError>,
    ) -> bool {
        exists|unit: Vector, step: Vector, points: Seq<Vector>, heights: Seq<Scalar>|
            {
                &&& #[trigger] direction.is_unit::<K>(unit)
                &&& unit.is_scaled::<K>(self.step_size(), step)
                &&& #[trigger] Self::is_walk::<K>(land, position, step, points, heights)
                &&& self.is_outcome::<K>(land, points, heights, r)
            }
    }

    /// `r` says whether the detector finds a collision from `position`
    /// towards `direction`.
    pub open spec fn is_alarm<K: Kernel>(
        self,
        land: Terrain,
        position: Vector,
        direction: Vector,
        r: Result<bool, TerrainError>,
    ) -> bool {
        match r {
            Ok(alarm) => exists|found: Option<Vector>|
                #![trigger self.is_detection::<K>(land, position, direction, Ok(found))]
                self.is_detection::<K>(land, position, direction, Ok(found)) && alarm
                    == found.is_some(),
            Err(e) => self.is_detection::<K>(land, position, direction, Err(e)),
        }
    }

    pub fn new<K: Kernel>(range: Scalar, step_size: Scalar) -> (r: LinearDetector)
        ensures
            r.is_made::<K>(range, step_size),
    {
        let steps = range.over::<K>(step_size);
        Self { range, step_size, step_count: steps.to_count::<K>() }
    }

    /// A detector that covers `range` with `step_count` checks.
    pub fn new_from_count<K: Kernel>(range: Scalar, step_count: usize) -> (r: LinearDetector)
        ensures
            r.is_made_from_count::<K>(range, step_count),
    {
        let count = Scalar::from_count::<K>(step_count);
        let step_size = range.over::<K>(count);
        Self::new::<K>(range, step_size)
    }

    pub fn get_range(&self) -> (r: Scalar)
        ensures
            r == self.range(),
    {
        self.range
    }

    pub fn get_step_size(&self) -> (r: Scalar)
        ensures
            r == self.step_size(),
    {
        self.step_size
    }

    pub fn get_step_count(&self) -> (r: usize)
        ensures
            r == self.step_count(),
    {
        self.step_count
    }

    /// The first collision on the ray from `position` towards `direction`,
    /// if there is one within range.
    pub fn get_collision<K: Kernel>(&self, position: Vector, direction: Vector, land: &Terrain) -> (r:
        Result<Option<Vector>, TerrainError>)
        requires
            land.well_formed(),
        ensures
            self.is_detection::<K>(*land, position, direction, r),
    {
        let unit = direction.unit::<K>();
        let step = unit.mult::<K>(self.step_size);
        let mut current = Vector::new(position.x, position.y, position.z);
        let ghost mut points: Seq<Vector> = seq![position];
        let ghost mut heights: Seq<Scalar> = Seq::empty();

        let mut i: usize = 0;
        while i < self.step_count
            invariant
                land.well_formed(),
                direction.is_unit::<K>(unit),
                unit.is_scaled::<K>(self.step_size(), step),
                i <= self.step_count,
                heights.len() == i,
                points.last() == current,
                Self::is_walk::<K>(*land, position, step, points, heights),
            decreases self.step_count - i,
        {
            match land.get_height::<K>(current.x, current.z) {
                Ok(y) => {
                    if y.ge(&current.y) {
                        return Ok(Some(Vector::new(current.x, y, current.z)));
                    }
                    let next = current.add::<K>(&step);
                    proof {
                        let ghost longer = points.push(next);
                        let ghost higher = heights.push(y);
                        assert forall|j: int| 0 <= j < higher.len() implies (#[trigger] longer[j]).is_sum::<
                            K,
                        >(step, longer[j + 1]) by {
                            if j < heights.len() {
                                assert(points[j].is_sum::<K>(step, points[j + 1]));
                            }
                        }
                        assert forall|j: int| 0 <= j < higher.len() implies land.is_height::<K>(
                            longer[j].x,
                            longer[j].z,
                            Ok(#[trigger] higher[j]),
                        ) && !higher[j].spec_ge(longer[j].y) by {
                            if j < heights.len() {
                                assert(heights[j] == higher[j]);
                            }
                        }
                        points = longer;
                        heights = higher;
                    }
                    current = next;
                },
                Err(e) => {
                    return Err(e);
                },
            }
            i += 1;
        }
        Ok(None)
    }

    pub fn has_collision<K: Kernel>(&self, position: Vector, direction: Vector, land: &Terrain) -> (r:
        Result<bool, TerrainError>)
        requires
            land.well_formed(),
        ensures
            self.is_alarm::<K>(*land, position, direction, r),
    {
        match self.get_collision::<K>(position, direction, land) {
            Ok(found) => Ok(found.is_some()),
            Err(e) => Err(e),
        }
    }
}

/// On a deterministic kernel two walks from the same point in the same
/// steps, over terrains that are alike, go through the same points, over
/// the same heights.
proof fn lemma_walks_agree<K: Kernel>(
    land1: Terrain,
    land2: Terrain,
    position: Vector,
    step: Vector,
    points1: Seq<Vector>,
    heights1: Seq<Scalar>,
    points2: Seq<Vector>,
    heights2: Seq<Scalar>,
    i: int,
)
    requires
        deterministic::<K>(),
        land1.same_as(land2),
        LinearDetector::is_walk::<K>(land1, position, step, points1, heights1),
        LinearDetector::is_walk::<K>(land2, position, step, points2, heights2),
        0 <= i <= heights1.len(),
        i <= heights2.len(),
    ensures
        points1[i] == points2[i],
        forall|j: int| 0 <= j < i ==> heights1[j] == heights2[j],
    decreases i,
{
    if i > 0 {
        lemma_walks_agree::<K>(
            land1,
            land2,
            position,
            step,
            points1,
            heights1,
            points2,
            heights2,
            i - 1,
        );
        let p = points1[i - 1];
        assert(p.is_sum::<K>(step, points1[i - 1 + 1]));
        assert(points2[i - 1].is_sum::<K>(step, points2[i - 1 + 1]));
        lemma_vector_operations_determined::<K>(p, step, step.x, points1[i], points2[i]);
        lemma_height_determined::<K>(
            land1,
            land2,
            p.x,
            p.z,
            Ok(heights1[i - 1]),
            Ok(heights2[i - 1]),
        );
    }
}

/// A walk that goes on past a point met no collision and no missing height
/// there.
proof fn lemma_walk_goes_on<K: Kernel>(
    detector: LinearDetector,
    land1: Terrain,
    land2: Terrain,
    position: Vector,
    step: Vector,
    points1: Seq<Vector>,
    heights1: Seq<Scalar>,
    points2: Seq<Vector>,
    heights2: Seq<Scalar>,
    r1: Result<Option<Vector>, TerrainError>,
)
    requires
        deterministic::<K>(),
        land1.same_as(land2),
        LinearDetector::is_walk::<K>(land1, position, step, points1, heights1),
        LinearDetector::is_walk::<K>(land2, position, step, points2, heights2),
        heights2.len() <= detector.step_count(),
        detector.is_outcome::<K>(land1, points1, heights1, r1),
    ensures
        heights1.len() >= heights2.len(),
{
    let n = heights1.len() as int;
    if n < heights2.len() {
        lemma_walks_agree::<K>(
            land1,
            land2,
            position,
            step,
            points1,
            heights1,
            points2,
            heights2,
            n,
        );
        let p = points1.last();
        let below: Result<Scalar, TerrainError> = Ok(heights2[n]);
        assert(land2.is_height::<K>(points2[n].x, points2[n].z, below));
        match r1 {
            Ok(None) => {},
            Ok(Some(hit)) => {
                lemma_height_determined::<K>(land1, land2, p.x, p.z, Ok(hit.y), below);
            },
            Err(e) => {
                lemma_height_determined::<K>(land1, land2, p.x, p.z, Err(e), below);
            },
        }
    }
}

/// On a deterministic kernel the detector finds one thing from a point
/// towards a direction, and the same over every terrain that is alike.
pub proof fn lemma_detection_determined<K: Kernel>(
    detector: LinearDetector,
    land1: Terrain,
    land2: Terrain,
    position: Vector,
    direction: Vector,
    r1: Result<Option<Vector>, TerrainError>,
    r2: Result<Option<Vector>, TerrainError>,
)
    requires
        deterministic::<K>(),
        land1.same_as(land2),
        detector.is_detection::<K>(land1, position, direction, r1),
        detector.is_detection::<K>(land2, position, direction, r2),
    ensures
        r1 == r2,
{
    let (unit1, step1, points1, heights1) = choose|
        unit: Vector,
        step: Vector,
        points: Seq<Vector>,
        heights: Seq<Scalar>,
    |
        {
            &&& #[trigger] direction.is_unit::<K>(unit)
            &&& unit.is_scaled::<K>(detector.step_size(), step)
            &&& #[trigger] LinearDetector::is_walk::<K>(land1, position, step, points, heights)
            &&& detector.is_outcome::<K>(land1, points, heights, r1)
        };
    let (unit2, step2, points2, heights2) = choose|
        unit: Vector,
        step: Vector,
        points: Seq<Vector>,
        heights: Seq<Scalar>,
    |
        {
            &&& #[trigger] direction.is_unit::<K>(unit)
            &&& unit.is_scaled::<K>(detector.step_size(), step)
            &&& #[trigger] LinearDetector::is_walk::<K>(land2, position, step, points, heights)
            &&& detector.is_outcome::<K>(land2, points, heights, r2)
        };
    lemma_magnitude_determined::<K>(direction, unit1.x, unit1.x, unit1, unit2);
    lemma_vector_operations_determined::<K>(unit1, unit1, detector.step_size(), step1, step2);
    lemma_walk_goes_on::<K>(
        detector,
        land1,
        land2,
        position,
        step1,
        points1,
        heights1,
        points2,
        heights2,
        r1,
    );
    lemma_walk_goes_on::<K>(
        detector,
        land2,
        land1,
        position,
        step1,
        points2,
        heights2,
        points1,
        heights1,
        r2,
    );
    let n = heights1.len() as int;
    lemma_walks_agree::<K>(
        land1,
        land2,
        position,
        step1,
        points1,
        heights1,
        points2,
        heights2,
        n,
    );
    let p = points1.last();
    match (r1, r2) {
        (Ok(Some(hit1)), Ok(Some(hit2))) => {
            lemma_height_determined::<K>(land1, land2, p.x, p.z, Ok(hit1.y), Ok(hit2.y));
        },
        (Ok(Some(hit1)), Err(e2)) => {
            lemma_height_determined::<K>(land1, land2, p.x, p.z, Ok(hit1.y), Err(e2));
        },
        (Err(e1), Ok(Some(hit2))) => {
            lemma_height_determined::<K>(land1, land2, p.x, p.z, Err(e1), Ok(hit2.y));
        },
        (Err(e1), Err(e2)) => {
            lemma_height_determined::<K>(land1, land2, p.x, p.z, Err(e1), Err(e2));
        },
        _ => {},
    }
}

/// On a deterministic kernel the detector raises the alarm, or does not,
/// and the same over every terrain that is alike.
pub proof fn lemma_alarm_determined<K: Kernel>(
    detector: LinearDetector,
    land1: Terrain,
    land2: Terrain,
    position: Vector,
    direction: Vector,
    r1: Result<bool, TerrainError>,
    r2: Result<bool, TerrainError>,
)
    requires
        deterministic::<K>(),
        land1.same_as(land2),
        detector.is_alarm::<K>(land1, position, direction, r1),
        detector.is_alarm::<K>(land2, position, direction, r2),
    ensures
        r1 == r2,
{
    let d1: Result<Option<Vector>, TerrainError> = match r1 {
        Ok(alarm) => Ok(
            choose|found: Option<Vector>|
                #[trigger] detector.is_detection::<K>(land1, position, direction, Ok(found))
                    && alarm == found.is_some(),
        ),
        Err(e) => Err(e),
    };
    let d2: Result<Option<Vector>, TerrainError> = match r2 {
        Ok(alarm) => Ok(
            choose|found: Option<Vector>|
                #[trigger] detector.is_detection::<K>(land2, position, direction, Ok(found))
                    && alarm == found.is_some(),
        ),
        Err(e) => Err(e),
    };
    lemma_detection_determined::<K>(detector, land1, land2, position, direction, d1, d2);
}

/// On a deterministic kernel a detector is determined by the range and the
/// step size it was made of.
pub proof fn lemma_detector_determined<K: Kernel>(
    first: LinearDetector,
    second: LinearDetector,
    range: Scalar,
    step_size: Scalar,
)
    requires
        deterministic::<K>(),
        first.is_made::<K>(range, step_size),
        second.is_made::<K>(range, step_size),
    ensures
        first == second,
{
    let steps1 = choose|steps: Scalar| #[trigger]
        is_quotient::<K>(range, step_size, steps) && is_to_count::<K>(steps, first.step_count());
    let steps2 = choose|steps: Scalar| #[trigger]
        is_quotient::<K>(range, step_size, steps) && is_to_count::<K>(steps, second.step_count());
    assert(steps1 == steps2);
}

} // verus!
