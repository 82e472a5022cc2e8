//! The collision sensor: a sweep of the field of view for a direction in
//! which the way is clear.
use vstd::prelude::*;
use crate::kernel::{deterministic, is_quotient, Kernel};
use crate::physics::collision::{lemma_alarm_determined, LinearDetector};
use crate::scalar::{Scalar, TWO_BITS};
use crate::space::vector::{lemma_magnitude_determined, lemma_vector_operations_determined};
use crate::space::Vector;
use crate::terrain::{Terrain, TerrainError};

verus! {

/// How many times the sweep may halve its sector. Halved that often, every
/// finite binary64 angle has reached zero, so on a sensor with a positive
/// angular step the sweep stops on its own before this limit.
pub const MAX_SWEEP_DEPTH: usize = 2100;

/// A sensor that looks for a way past the terrain ahead.
#[derive(Clone, Copy, Debug)]
pub struct CollisionSensor {
    /// The angle of the field of view.
    detection_angle: Scalar,
    /// The angle below which a sector is not divided further.
    angular_step_size: Scalar,
    detector: LinearDetector,
}

/// `to` is `from` after `turns` rotations in the horizontal plane, by
/// whatever angles.
pub open spec fn is_turned<K: Kernel>(from: Vector, to: Vector, turns: nat) -> bool
    decreases turns,
{
    if turns == 0 {
        to == from
    } else {
        exists|angle: Scalar, next: Vector|
            #![trigger from.is_rotation_xz::<K>(angle, next)]
            from.is_rotation_xz::<K>(angle, next) && is_turned::<K>(next, to, (turns - 1) as nat)
    }
}

impl CollisionSensor {
    pub closed spec fn detection_angle(self) -> Scalar {
        self.detection_angle
    }

    pub closed spec fn angular_step_size(self) -> Scalar {
        self.angular_step_size
    }

    pub closed spec fn detector(self) -> LinearDetector {
        self.detector
    }

    /// `r` is what the sweep of the sector of angle `angle` around
    /// `direction` finds, with `depth` halvings left to it.
    ///
    /// The direction itself is tried first: where the detector raises no
    /// alarm it is the clear direction. Otherwise the sector is split.
    pub open spec fn is_sweep<K: Kernel>(
        self,
        land: Terrain,
        pos: Vector,
        direction: Vector,
        angle: Scalar,
        depth: nat,
        r: Result<Option<Vector>, TerrainError>,
    ) -> bool
        decreases depth, 3nat,
    {
        exists|alarm: Result<bool, TerrainError>|
            #![trigger self.detector().is_alarm::<K>(land, pos, direction, alarm)]
            {
                &&& self.detector().is_alarm::<K>(land, pos, direction, alarm)
                &&& match alarm {
                    Err(e) => r == Err::<Option<Vector>, TerrainError>(e),
                    Ok(false) => r == Ok::<Option<Vector>, TerrainError>(Some(direction)),
                    Ok(true) => self.is_split::<K>(land, pos, direction, angle, depth, r),
                }
            }
    }

    /// `r` is what the two halves of the sector of angle `angle` around
    /// `direction` give: what the sectors of half that angle give, each
    /// around `direction` turned by a quarter of it.
    pub open spec fn is_split<K: Kernel>(
        self,
        land: Terrain,
        pos: Vector,
        direction: Vector,
        angle: Scalar,
        depth: nat,
        r: Result<Option<Vector>, TerrainError>,
    ) -> bool
        decreases depth, 2nat,
    {
        exists|half: Scalar, quarter: Scalar|
            {
                &&& #[trigger] is_quotient::<K>(angle, Scalar { bits: TWO_BITS }, half)
                &&& #[trigger] is_quotient::<K>(half, Scalar { bits: TWO_BITS }, quarter)
                &&& self.is_halved::<K>(land, pos, direction, half, quarter, depth, r)
            }
    }

    /// `r` is what the two sectors of angle `half` give that lie `quarter`
    /// to the left and to the right of `direction`.
    ///
    /// Sectors narrower than the angular step are not looked into, nor are
    /// any when no halving is left: the sweep finds nothing there. Otherwise
    /// the left sector comes first, around `direction` turned by minus
    /// `quarter`.
    pub open spec fn is_halved<K: Kernel>(
        self,
        land: Terrain,
        pos: Vector,
        direction: Vector,
        half: Scalar,
        quarter: Scalar,
        depth: nat,
        r: Result<Option<Vector>, TerrainError>,
    ) -> bool
        decreases depth, 1nat,
    {
        if depth == 0 || half.spec_lt(self.angular_step_size()) {
            r == Ok::<Option<Vector>, TerrainError>(None)
        } else {
            exists|left: Vector|
                #![trigger direction.is_rotation_xz::<K>(quarter.spec_neg(), left)]
                {
                    &&& direction.is_rotation_xz::<K>(quarter.spec_neg(), left)
                    &&& self.is_branched::<K>(land, pos, direction, left, half, quarter, depth, r)
                }
        }
    }

    /// `r` is what the sector around `left` gives or, where it finds
    /// nothing, what the sector to the right gives, around `direction`
    /// turned by plus `quarter`. What the left sector finds, and an error
    /// it meets, is final.
    pub open spec fn is_branched<K: Kernel>(
        self,
        land: Terrain,
        pos: Vector,
        direction: Vector,
        left: Vector,
        half: Scalar,
        quarter: Scalar,
        depth: nat,
        r: Result<Option<Vector>, TerrainError>,
    ) -> bool
        decreases depth, 0nat,
    {
        if depth == 0 {
            false
        } else {
            ||| {
                &&& r != Ok::<Option<Vector>, TerrainError>(None)
                &&& self.is_sweep::<K>(land, pos, left, half, (depth - 1) as nat, r)
            }
            ||| {
                &&& self.is_sweep::<K>(land, pos, left, half, (depth - 1) as nat, Ok(None))
                &&& exists|right: Vector|
                    #![trigger direction.is_rotation_xz::<K>(quarter, right)]
                    {
                        &&& direction.is_rotation_xz::<K>(quarter, right)
                        &&& self.is_sweep::<K>(land, pos, right, half, (depth - 1) as nat, r)
                    }
            }
        }
    }

    /// `r` is what the sensor makes of the outcome `swept` of its sweep
    /// around `unit`: the direction found, the error met or, where nothing
    /// was found, `unit` turned to the left edge of the field of view, by
    /// minus half the detection angle.
    pub open spec fn is_recommended<K: Kernel>(
        self,
        unit: Vector,
        swept: Result<Option<Vector>, TerrainError>,
        r: Result<Vector, TerrainError>,
    ) -> bool {
        match swept {
            Err(e) => r == Err::<Vector, TerrainError>(e),
            Ok(Some(clear)) => r == Ok::<Vector, TerrainError>(clear),
            Ok(None) => exists|edge: Scalar|
                {
                    &&& #[trigger] is_quotient::<K>(
                        self.detection_angle().spec_neg(),
                        Scalar { bits: TWO_BITS },
                        edge,
                    )
                    &&& r is Ok
                    &&& unit.is_rotation_xz::<K>(edge, r->Ok_0)
                },
        }
    }

    /// `r` is the direction the sensor recommends from `pos` when heading
    /// towards `direction`: what it makes of the sweep of the whole field of
    /// view around the unit vector of `direction`.
    pub open spec fn is_clear_direction<K: Kernel>(
        self,
        land: Terrain,
        pos: Vector,
        direction: Vector,
        r: Result<Vector, TerrainError>,
    ) -> bool {
        exists|unit: Vector, swept: Result<Option<Vector>, TerrainError>|
            {
                &&& #[trigger] direction.is_unit::<K>(unit)
                &&& #[trigger] self.is_sweep::<K>(
                    land,
                    pos,
                    unit,
                    self.detection_angle(),
                    MAX_SWEEP_DEPTH as nat,
                    swept,
                )
                &&& self.is_recommended::<K>(unit, swept, r)
            }
    }

    pub fn new(detection_angle: Scalar, angular_step_size: Scalar, detector: LinearDetector) -> (r:
        CollisionSensor)
        ensures
            r.detection_angle() == detection_angle,
            r.angular_step_size() == angular_step_size,
            r.detector() == detector,
    {
        Self { detection_angle, angular_step_size, detector }
    }

    /// A direction in the field of view in which the detector raises no
    /// alarm or, if the sweep finds none, the left edge of the field of
    /// view.
    pub fn find_clear_direction<K: Kernel>(&self, pos: Vector, direction: Vector, land: &Terrain) -> (r:
        Result<Vector, TerrainError>)
        requires
            land.well_formed(),
        ensures
            self.is_clear_direction::<K>(*land, pos, direction, r),
            r matches Ok(clear) ==> exists|unit: Vector, turns: nat|
                {
                    &&& #[trigger] direction.is_unit::<K>(unit)
                    &&& turns <= MAX_SWEEP_DEPTH
                    &&& #[trigger] is_turned::<K>(unit, clear, turns)
                },
    {
        let unit = direction.unit::<K>();
        let swept = self.bissect::<K>(pos, unit, self.detection_angle, land, MAX_SWEEP_DEPTH);
        proof {
            assert(self.is_sweep::<K>(
                *land,
                pos,
                unit,
                self.detection_angle(),
                MAX_SWEEP_DEPTH as nat,
                swept,
            ));
        }
        let r = match swept {
            Err(e) => Err(e),
            Ok(Some(clear)) => Ok(clear),
            Ok(None) => {
                let edge = self.detection_angle.neg().over::<K>(Scalar::two());
                let r = unit.rotate_xz::<K>(edge);
                proof {
                    assert(is_quotient::<K>(
                        self.detection_angle().spec_neg(),
                        Scalar { bits: TWO_BITS },
                        edge,
                    ));
                }
                Ok(r)
            },
        };
        proof {
            if let Ok(clear) = r {
                lemma_clear_direction_turns::<K>(*self, *land, pos, direction, clear);
            }
        }
        r
    }

    /// Sweeps the sector of angle `angle` around `direction`: tries the
    /// direction itself, then the left half of the sector, then the right
    /// half, until a direction is clear, the halves get narrower than the
    /// angular step, or `depth` halvings are used up.
    fn bissect<K: Kernel>(
        &self,
        pos: Vector,
        direction: Vector,
        angle: Scalar,
        land: &Terrain,
        depth: usize,
    ) -> (r: Result<Option<Vector>, TerrainError>)
        requires
            land.well_formed(),
        ensures
            self.is_sweep::<K>(*land, pos, direction, angle, depth as nat, r),
        decreases depth,
    {
        let alarm = self.detector.has_collision::<K>(pos, direction, land);
        assert(self.detector().is_alarm::<K>(*land, pos, direction, alarm));
        match alarm {
            Err(e) => {
                return Err(e);
            },
            Ok(false) => {
                return Ok(Some(direction));
            },
            Ok(true) => {},
        }
        let bissection = angle.over::<K>(Scalar::two());
        let rotation_angle = bissection.over::<K>(Scalar::two());
        proof {
            assert(is_quotient::<K>(angle, Scalar { bits: TWO_BITS }, bissection));
            assert(is_quotient::<K>(bissection, Scalar { bits: TWO_BITS }, rotation_angle));
        }
        if depth == 0 || bissection.lt(&self.angular_step_size) {
            assert(self.is_split::<K>(*land, pos, direction, angle, depth as nat, Ok(None)));
            return Ok(None);
        }
        let left = direction.rotate_xz::<K>(rotation_angle.neg());
        let left_clear = self.bissect::<K>(pos, left, bissection, land, depth - 1);
        match left_clear {
            Ok(None) => {},
            _ => {
                proof {
                    assert(self.is_branched::<K>(
                        *land,
                        pos,
                        direction,
                        left,
                        bissection,
                        rotation_angle,
                        depth as nat,
                        left_clear,
                    ));
                    assert(self.is_split::<K>(*land, pos, direction, angle, depth as nat, left_clear));
                }
                return left_clear;
            },
        }
        let right = direction.rotate_xz::<K>(rotation_angle);
        let r = self.bissect::<K>(pos, right, bissection, land, depth - 1);
        proof {
            assert(self.is_branched::<K>(
                *land,
                pos,
                direction,
                left,
                bissection,
                rotation_angle,
                depth as nat,
                r,
            ));
            assert(self.is_split::<K>(*land, pos, direction, angle, depth as nat, r));
        }
        r
    }
}

/// A direction that a sweep finds is the direction the sweep began with,
/// turned in the horizontal plane at most once for each halving.
pub proof fn lemma_sweep_turns<K: Kernel>(
    sensor: CollisionSensor,
    land: Terrain,
    pos: Vector,
    direction: Vector,
    angle: Scalar,
    depth: nat,
    clear: Vector,
)
    requires
        sensor.is_sweep::<K>(land, pos, direction, angle, depth, Ok(Some(clear))),
    ensures
        exists|turns: nat| turns <= depth && #[trigger] is_turned::<K>(direction, clear, turns),
    decreases depth,
{
    let r: Result<Option<Vector>, TerrainError> = Ok(Some(clear));
    let alarm = choose|alarm: Result<bool, TerrainError>|
        {
            &&& #[trigger] sensor.detector().is_alarm::<K>(land, pos, direction, alarm)
            &&& match alarm {
                Err(e) => r == Err::<Option<Vector>, TerrainError>(e),
                Ok(false) => r == Ok::<Option<Vector>, TerrainError>(Some(direction)),
                Ok(true) => sensor.is_split::<K>(land, pos, direction, angle, depth, r),
            }
        };
    match alarm {
        Ok(true) => {
            let (half, quarter) = choose|half: Scalar, quarter: Scalar|
                {
                    &&& #[trigger] is_quotient::<K>(angle, Scalar { bits: TWO_BITS }, half)
                    &&& #[trigger] is_quotient::<K>(half, Scalar { bits: TWO_BITS }, quarter)
                    &&& sensor.is_halved::<K>(land, pos, direction, half, quarter, depth, r)
                };
            let left = choose|left: Vector|
                {
                    &&& #[trigger] direction.is_rotation_xz::<K>(quarter.spec_neg(), left)
                    &&& sensor.is_branched::<K>(land, pos, direction, left, half, quarter, depth, r)
                };
            let rest = (depth - 1) as nat;
            let from = if sensor.is_sweep::<K>(land, pos, left, half, rest, r) {
                left
            } else {
                choose|right: Vector|
                    {
                        &&& #[trigger] direction.is_rotation_xz::<K>(quarter, right)
                        &&& sensor.is_sweep::<K>(land, pos, right, half, rest, r)
                    }
            };
            lemma_sweep_turns::<K>(sensor, land, pos, from, half, rest, clear);
            let turns = choose|turns: nat|
                turns <= rest && #[trigger] is_turned::<K>(from, clear, turns);
            assert(is_turned::<K>(direction, clear, turns + 1));
        },
        _ => {
            assert(is_turned::<K>(direction, clear, 0));
        },
    }
}

/// The direction the sensor recommends is the unit vector of the heading,
/// turned in the horizontal plane a bounded number of times.
pub proof fn lemma_clear_direction_turns<K: Kernel>(
    sensor: CollisionSensor,
    land: Terrain,
    pos: Vector,
    direction: Vector,
    clear: Vector,
)
    requires
        sensor.is_clear_direction::<K>(land, pos, direction, Ok(clear)),
    ensures
        exists|unit: Vector, turns: nat|
            {
                &&& #[trigger] direction.is_unit::<K>(unit)
                &&& turns <= MAX_SWEEP_DEPTH
                &&& #[trigger] is_turned::<K>(unit, clear, turns)
            },
{
    let r: Result<Vector, TerrainError> = Ok(clear);
    let (unit, swept) = choose|unit: Vector, swept: Result<Option<Vector>, TerrainError>|
        {
            &&& #[trigger] direction.is_unit::<K>(unit)
            &&& #[trigger] sensor.is_sweep::<K>(
                land,
                pos,
                unit,
                sensor.detection_angle(),
                MAX_SWEEP_DEPTH as nat,
                swept,
            )
            &&& sensor.is_recommended::<K>(unit, swept, r)
        };
    match swept {
        Ok(Some(found)) => {
            lemma_sweep_turns::<K>(
                sensor,
                land,
                pos,
                unit,
                sensor.detection_angle(),
                MAX_SWEEP_DEPTH as nat,
                clear,
            );
            let turns = choose|turns: nat|
                turns <= MAX_SWEEP_DEPTH && #[trigger] is_turned::<K>(unit, clear, turns);
            assert(is_turned::<K>(unit, clear, turns));
        },
        Ok(None) => {
            let edge = choose|edge: Scalar|
                {
                    &&& #[trigger] is_quotient::<K>(
                        sensor.detection_angle().spec_neg(),
                        Scalar { bits: TWO_BITS },
                        edge,
                    )
                    &&& unit.is_rotation_xz::<K>(edge, clear)
                };
            assert(is_turned::<K>(clear, clear, 0));
            assert(is_turned::<K>(unit, clear, 1));
        },
        Err(_) => {},
    }
}

/// On a deterministic kernel a sweep finds one thing, and the same over
/// every terrain that is alike.
pub proof fn lemma_sweep_determined<K: Kernel>(
    sensor: CollisionSensor,
    land1: Terrain,
    land2: Terrain,
    pos: Vector,
    direction: Vector,
    angle: Scalar,
    depth: nat,
    r1: Result<Option<Vector>, TerrainError>,
    r2: Result<Option<Vector>, TerrainError>,
)
    requires
        deterministic::<K>(),
        land1.same_as(land2),
        sensor.is_sweep::<K>(land1, pos, direction, angle, depth, r1),
        sensor.is_sweep::<K>(land2, pos, direction, angle, depth, r2),
    ensures
        r1 == r2,
    decreases depth,
{
    let alarm1 = choose|alarm: Result<bool, TerrainError>|
        {
            &&& #[trigger] sensor.detector().is_alarm::<K>(land1, pos, direction, alarm)
            &&& match alarm {
                Err(e) => r1 == Err::<Option<Vector>, TerrainError>(e),
                Ok(false) => r1 == Ok::<Option<Vector>, TerrainError>(Some(direction)),
                Ok(true) => sensor.is_split::<K>(land1, pos, direction, angle, depth, r1),
            }
        };
    let alarm2 = choose|alarm: Result<bool, TerrainError>|
        {
            &&& #[trigger] sensor.detector().is_alarm::<K>(land2, pos, direction, alarm)
            &&& match alarm {
                Err(e) => r2 == Err::<Option<Vector>, TerrainError>(e),
                Ok(false) => r2 == Ok::<Option<Vector>, TerrainError>(Some(direction)),
                Ok(true) => sensor.is_split::<K>(land2, pos, direction, angle, depth, r2),
            }
        };
    lemma_alarm_determined::<K>(sensor.detector(), land1, land2, pos, direction, alarm1, alarm2);
    if alarm1 == Ok::<bool, TerrainError>(true) {
        let (half1, quarter1) = choose|half: Scalar, quarter: Scalar|
            {
                &&& #[trigger] is_quotient::<K>(angle, Scalar { bits: TWO_BITS }, half)
                &&& #[trigger] is_quotient::<K>(half, Scalar { bits: TWO_BITS }, quarter)
                &&& sensor.is_halved::<K>(land1, pos, direction, half, quarter, depth, r1)
            };
        let (half2, quarter2) = choose|half: Scalar, quarter: Scalar|
            {
                &&& #[trigger] is_quotient::<K>(angle, Scalar { bits: TWO_BITS }, half)
                &&& #[trigger] is_quotient::<K>(half, Scalar { bits: TWO_BITS }, quarter)
                &&& sensor.is_halved::<K>(land2, pos, direction, half, quarter, depth, r2)
            };
        assert(half1 == half2);
        assert(quarter1 == quarter2);
        if !(depth == 0 || half1.spec_lt(sensor.angular_step_size())) {
            let rest = (depth - 1) as nat;
            let left1 = choose|left: Vector|
                {
                    &&& #[trigger] direction.is_rotation_xz::<K>(quarter1.spec_neg(), left)
                    &&& sensor.is_branched::<K>(
                        land1,
                        pos,
                        direction,
                        left,
                        half1,
                        quarter1,
                        depth,
                        r1,
                    )
                };
            let left2 = choose|left: Vector|
                {
                    &&& #[trigger] direction.is_rotation_xz::<K>(quarter1.spec_neg(), left)
                    &&& sensor.is_branched::<K>(
                        land2,
                        pos,
                        direction,
                        left,
                        half1,
                        quarter1,
                        depth,
                        r2,
                    )
                };
            lemma_vector_operations_determined::<K>(
                direction,
                direction,
                quarter1.spec_neg(),
                left1,
                left2,
            );
            let nothing: Result<Option<Vector>, TerrainError> = Ok(None);
            let final1 = r1 != nothing && sensor.is_sweep::<K>(land1, pos, left1, half1, rest, r1);
            let final2 = r2 != nothing && sensor.is_sweep::<K>(land2, pos, left1, half1, rest, r2);
            if final1 && final2 {
                lemma_sweep_determined::<K>(sensor, land1, land2, pos, left1, half1, rest, r1, r2);
            } else if final1 {
                lemma_sweep_determined::<K>(
                    sensor,
                    land1,
                    land2,
                    pos,
                    left1,
                    half1,
                    rest,
                    r1,
                    nothing,
                );
            } else if final2 {
                lemma_sweep_determined::<K>(
                    sensor,
                    land1,
                    land2,
                    pos,
                    left1,
                    half1,
                    rest,
                    nothing,
                    r2,
                );
            } else {
                let right1 = choose|right: Vector|
                    {
                        &&& #[trigger] direction.is_rotation_xz::<K>(quarter1, right)
                        &&& sensor.is_sweep::<K>(land1, pos, right, half1, rest, r1)
                    };
                let right2 = choose|right: Vector|
                    {
                        &&& #[trigger] direction.is_rotation_xz::<K>(quarter1, right)
                        &&& sensor.is_sweep::<K>(land2, pos, right, half1, rest, r2)
                    };
                lemma_vector_operations_determined::<K>(
                    direction,
                    direction,
                    quarter1,
                    right1,
                    right2,
                );
                lemma_sweep_determined::<K>(
                    sensor,
                    land1,
                    land2,
                    pos,
                    right1,
                    half1,
                    rest,
                    r1,
                    r2,
                );
            }
        }
    }
}

/// On a deterministic kernel the sensor recommends one direction, and the
/// same over every terrain that is alike.
pub proof fn lemma_clear_direction_determined<K: Kernel>(
    sensor: CollisionSensor,
    land1: Terrain,
    land2: Terrain,
    pos: Vector,
    direction: Vector,
    r1: Result<Vector, TerrainError>,
    r2: Result<Vector, TerrainError>,
)
    requires
        deterministic::<K>(),
        land1.same_as(land2),
        sensor.is_clear_direction::<K>(land1, pos, direction, r1),
        sensor.is_clear_direction::<K>(land2, pos, direction, r2),
    ensures
        r1 == r2,
{
    let (unit1, swept1) = choose|unit: Vector, swept: Result<Option<Vector>, TerrainError>|
        {
            &&& #[trigger] direction.is_unit::<K>(unit)
            &&& #[trigger] sensor.is_sweep::<K>(
                land1,
                pos,
                unit,
                sensor.detection_angle(),
                MAX_SWEEP_DEPTH as nat,
                swept,
            )
            &&& sensor.is_recommended::<K>(unit, swept, r1)
        };
    let (unit2, swept2) = choose|unit: Vector, swept: Result<Option<Vector>, TerrainError>|
        {
            &&& #[trigger] direction.is_unit::<K>(unit)
            &&& #[trigger] sensor.is_sweep::<K>(
                land2,
                pos,
                unit,
                sensor.detection_angle(),
                MAX_SWEEP_DEPTH as nat,
                swept,
            )
            &&& sensor.is_recommended::<K>(unit, swept, r2)
        };
    lemma_magnitude_determined::<K>(direction, unit1.x, unit1.x, unit1, unit2);
    lemma_sweep_determined::<K>(
        sensor,
        land1,
        land2,
        pos,
        unit1,
        sensor.detection_angle(),
        MAX_SWEEP_DEPTH as nat,
        swept1,
        swept2,
    );
    if swept1 == Ok::<Option<Vector>, TerrainError>(None) {
        let turn = sensor.detection_angle().spec_neg();
        let edge1 = choose|edge: Scalar|
            {
                &&& #[trigger] is_quotient::<K>(turn, Scalar { bits: TWO_BITS }, edge)
                &&& r1 is Ok
                &&& unit1.is_rotation_xz::<K>(edge, r1->Ok_0)
            };
        let edge2 = choose|edge: Scalar|
            {
                &&& #[trigger] is_quotient::<K>(turn, Scalar { bits: TWO_BITS }, edge)
                &&& r2 is Ok
                &&& unit1.is_rotation_xz::<K>(edge, r2->Ok_0)
            };
        assert(edge1 == edge2);
        lemma_vector_operations_determined::<K>(unit1, unit1, edge1, r1->Ok_0, r2->Ok_0);
    }
}

/// A sensor is determined by its angles and its detector.
pub proof fn lemma_sensor_determined(first: CollisionSensor, second: CollisionSensor)
    requires
        first.detection_angle() == second.detection_angle(),
        first.angular_step_size() == second.angular_step_size(),
        first.detector() == second.detector(),
    ensures
        first == second,
{
}

} // verus!
