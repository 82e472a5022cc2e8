//! A particle: what it knows, and the rule that moves it.
use vstd::prelude::*;
use circular_queue::CircularQueue;
use crate::goal::{Goal, Performance};
use crate::kernel::{
    deterministic, is_ackley, is_griewank, is_product, Kernel, RandomSource,
};
use crate::physics::collision::{lemma_detector_determined, LinearDetector};
use crate::pso::history::{
    lemma_pushed_vectors, pushed, queue_entries, queue_limit, queue_newest_first, queue_push,
    queue_with_capacity, vector_of, vectors_of, ENTRY_BYTES,
};
use crate::pso::sensor::{
    lemma_clear_direction_determined, lemma_sensor_determined, CollisionSensor,
};
use crate::pso::{ControllerConfig, Ctx, ParameterSet};
use crate::scalar::{Scalar, HALF_BITS, QUARTER_TURN_BITS};
use crate::space::vector::{lemma_magnitude_determined, lemma_vector_operations_determined};
use crate::space::{Boundary, Vector};
use crate::terrain::{lemma_height_determined, Terrain, TerrainError};

verus! {

/// One candidate solution on its way through the search space.
#[derive(Debug)]
pub struct ParticleState {
    /// The current position.
    p: Vector,
    /// The best result the particle has had.
    best_performance: Performance,
    /// The score of the current position.
    score: Scalar,
    /// The current velocity.
    v: Vector,
    positions: CircularQueue<(u64, u64, u64)>,
    collisions: usize,
}

impl ParticleState {
    pub closed spec fn position(self) -> Vector {
        self.p
    }

    pub closed spec fn velocity(self) -> Vector {
        self.v
    }

    pub closed spec fn score(self) -> Scalar {
        self.score
    }

    pub closed spec fn best_performance(self) -> Performance {
        self.best_performance
    }

    /// How many moves of this particle ended in the terrain.
    pub closed spec fn collisions(self) -> usize {
        self.collisions
    }

    /// The positions the particle remembers, from the oldest to the newest.
    pub closed spec fn history(self) -> Seq<Vector> {
        vectors_of(queue_entries(self.positions))
    }

    /// How many positions the particle can remember.
    pub closed spec fn history_limit(self) -> nat {
        queue_limit(self.positions)
    }

    /// The current position with its score.
    pub open spec fn performance(self) -> Performance {
        Performance { score: self.score(), position: self.position() }
    }

    /// `self` and `other` are alike in all that can be told of a particle.
    pub open spec fn same_as(self, other: ParticleState) -> bool {
        &&& self.position() == other.position()
        &&& self.velocity() == other.velocity()
        &&& self.score() == other.score()
        &&& self.best_performance() == other.best_performance()
        &&& self.collisions() == other.collisions()
        &&& self.history() == other.history()
        &&& self.history_limit() == other.history_limit()
    }

    /// The particle remembers no more positions than it can.
    pub open spec fn well_formed(self) -> bool {
        self.history().len() <= self.history_limit()
    }

    /// `self` is a particle that has just been put at `p0` with velocity
    /// `v0`: scored there, with that as its best result, no collision and
    /// nothing remembered yet.
    pub open spec fn is_fresh<K: Kernel>(
        self,
        p0: Vector,
        v0: Vector,
        history_amount: usize,
        controller: ParticleController,
    ) -> bool {
        &&& self.position() == p0
        &&& self.velocity() == v0
        &&& controller.ctx().goal.is_value::<K>(p0.x, p0.z, self.score())
        &&& self.best_performance() == self.performance()
        &&& self.collisions() == 0
        &&& self.history() == Seq::<Vector>::empty()
        &&& self.history_limit() == history_amount
    }

    /// Puts a particle at `p0` with velocity `v0`, able to remember
    /// `history_amount` positions. That many log entries must fit in
    /// `isize::MAX` bytes.
    pub fn new<K: Kernel>(
        p0: Vector,
        v0: Vector,
        history_amount: usize,
        controller: &ParticleController,
    ) -> (r: ParticleState)
        requires
            history_amount * ENTRY_BYTES <= isize::MAX,
        ensures
            r.is_fresh::<K>(p0, v0, history_amount, *controller),
            r.well_formed(),
    {
        let f_result = controller.ctx.goal.evaluate::<K>(p0.x, p0.z);
        let positions = queue_with_capacity(history_amount);
        let r = Self {
            p: p0,
            best_performance: Performance::new(p0, f_result),
            v: v0,
            score: f_result,
            positions,
            collisions: 0,
        };
        assert(r.history() =~= Seq::<Vector>::empty());
        r
    }

    pub fn get_best_performance(&self) -> (r: Performance)
        ensures
            r == self.best_performance(),
    {
        self.best_performance
    }

    /// The particle's current performance.
    pub fn get_performance(&self) -> (r: Performance)
        ensures
            r == self.performance(),
    {
        Performance::new(self.p, self.score)
    }

    pub fn get_position(&self) -> (r: Vector)
        ensures
            r == self.position(),
    {
        self.p
    }

    pub fn get_velocity(&self) -> (r: Vector)
        ensures
            r == self.velocity(),
    {
        self.v
    }

    pub fn get_collisions(&self) -> (r: usize)
        ensures
            r == self.collisions(),
    {
        self.collisions
    }

    /// The remembered positions, the most recent one first.
    pub fn get_particle_history(&self) -> (r: Vec<Vector>)
        ensures
            r@ == self.history().reverse(),
    {
        let entries = queue_newest_first(&self.positions);
        let mut r: Vec<Vector> = Vec::with_capacity(entries.len());
        let mut i: usize = 0;
        while i < entries.len()
            invariant
                i <= entries.len(),
                r.len() == i,
                forall|j: int| 0 <= j < i ==> r@[j] == vector_of(#[trigger] entries@[j]),
            decreases entries.len() - i,
        {
            let entry = entries[i];
            r.push(
                Vector::new(
                    Scalar::from_bits(entry.0),
                    Scalar::from_bits(entry.1),
                    Scalar::from_bits(entry.2),
                ),
            );
            i += 1;
        }
        assert(r@ =~= self.history().reverse()) by {
            let entries_oldest_first = queue_entries(self.positions);
            assert(r@.len() == entries_oldest_first.len());
            assert forall|j: int| 0 <= j < r@.len() implies r@[j] == self.history().reverse()[j] by {
                assert(entries@[j] == entries_oldest_first[entries_oldest_first.len() - 1 - j]);
            }
        }
        r
    }
}

/// Moves particles: one step of the swarm's kinematics, with the terrain in
/// the way.
#[derive(Clone, Copy, Debug)]
pub struct ParticleController {
    /// The problem the particle explores.
    ctx: Ctx,
    sensor: CollisionSensor,
}

/// `r` is `weight * (target - p)`: the pull of `target` on a particle at `p`.
pub open spec fn is_pull<K: Kernel>(weight: Scalar, target: Vector, p: Vector, r: Vector) -> bool {
    exists|offset: Vector|
        #![trigger target.is_difference::<K>(p, offset)]
        target.is_difference::<K>(p, offset) && offset.is_scaled::<K>(weight, r)
}

/// `raw` is the velocity that the weights `params` make of the current
/// velocity `v` and the three pulls on a particle at `p`:
/// `w v + (c1 r1)(p_best - p) + (c2 r2)(g_best - p) + c3 (avoid - p)`,
/// summed from the left.
pub open spec fn is_blend<K: Kernel>(
    params: ParameterSet,
    v: Vector,
    p: Vector,
    p_best: Vector,
    g_best: Vector,
    avoid: Vector,
    r1: Scalar,
    r2: Scalar,
    raw: Vector,
) -> bool {
    exists|
        inertia: Vector,
        k1: Scalar,
        own: Vector,
        k2: Scalar,
        social: Vector,
        dodge: Vector,
        first: Vector,
        second: Vector,
    |
        {
            &&& #[trigger] v.is_scaled::<K>(params.w, inertia)
            &&& is_product::<K>(params.c1, r1, k1)
            &&& #[trigger] is_pull::<K>(k1, p_best, p, own)
            &&& is_product::<K>(params.c2, r2, k2)
            &&& #[trigger] is_pull::<K>(k2, g_best, p, social)
            &&& #[trigger] is_pull::<K>(params.c3, avoid, p, dodge)
            &&& #[trigger] inertia.is_sum::<K>(own, first)
            &&& #[trigger] first.is_sum::<K>(social, second)
            &&& second.is_sum::<K>(dodge, raw)
        }
}

/// `r` is `v` held to the speed `max`: `v` itself unless its magnitude is
/// greater than `max`, and then the unit vector of `v` times `max`.
pub open spec fn is_limited<K: Kernel>(v: Vector, max: Scalar, r: Vector) -> bool {
    exists|speed: Scalar|
        #![trigger v.is_magnitude::<K>(speed)]
        {
            &&& v.is_magnitude::<K>(speed)
            &&& if speed.spec_gt(max) {
                exists|unit: Vector|
                    #![trigger v.is_unit::<K>(unit)]
                    v.is_unit::<K>(unit) && unit.is_scaled::<K>(max, r)
            } else {
                r == v
            }
        }
}

/// `r` is the velocity of a particle that went into the terrain with
/// velocity `v`: `v` turned a quarter turn in the horizontal plane, at half
/// the speed.
pub open spec fn is_deflected<K: Kernel>(v: Vector, r: Vector) -> bool {
    exists|turned: Vector|
        #![trigger v.is_rotation_xz::<K>(Scalar { bits: QUARTER_TURN_BITS }, turned)]
        {
            &&& v.is_rotation_xz::<K>(Scalar { bits: QUARTER_TURN_BITS }, turned)
            &&& turned.is_scaled::<K>(Scalar { bits: HALF_BITS }, r)
        }
}

/// `r` says whether a particle at `pos` is in the terrain: whether the
/// terrain there is at least as high as the particle.
pub open spec fn is_collision_check<K: Kernel>(
    land: Terrain,
    pos: Vector,
    r: Result<bool, TerrainError>,
) -> bool {
    match r {
        Ok(hit) => exists|height: Scalar|
            #![trigger land.is_height::<K>(pos.x, pos.z, Ok(height))]
            land.is_height::<K>(pos.x, pos.z, Ok(height)) && hit == height.spec_ge(pos.y),
        Err(e) => land.is_height::<K>(pos.x, pos.z, Err(e)),
    }
}

impl ParticleController {
    pub closed spec fn ctx(self) -> Ctx {
        self.ctx
    }

    pub closed spec fn sensor(self) -> CollisionSensor {
        self.sensor
    }

    /// `self` is the controller that `config` describes, for the problem
    /// `ctx`.
    pub open spec fn is_configured<K: Kernel>(self, ctx: Ctx, config: ControllerConfig) -> bool {
        &&& self.ctx() == ctx
        &&& self.sensor().detection_angle() == config.collision.fov_angle
        &&& self.sensor().angular_step_size() == config.collision.angular_step_size
        &&& self.sensor().detector().is_made::<K>(
            config.collision.range,
            config.collision.linear_step_size,
        )
    }

    /// `r` is where the direction `direction` takes a particle at `p` with
    /// velocity `v`: from `p`, as far as `v` is long, in that direction; or
    /// the error that came in place of a direction.
    pub open spec fn is_reached<K: Kernel>(
        p: Vector,
        v: Vector,
        direction: Result<Vector, TerrainError>,
        r: Result<Vector, TerrainError>,
    ) -> bool {
        match direction {
            Err(e) => r == Err::<Vector, TerrainError>(e),
            Ok(clear) => r is Ok && exists|speed: Scalar, reach: Vector|
                #![trigger v.is_magnitude::<K>(speed), clear.is_scaled::<K>(speed, reach)]
                {
                    &&& v.is_magnitude::<K>(speed)
                    &&& clear.is_scaled::<K>(speed, reach)
                    &&& p.is_sum::<K>(reach, r->Ok_0)
                },
        }
    }

    /// `r` is where a particle at `p` with velocity `v` would go to keep
    /// clear of the terrain: from `p`, as far as `v` is long, in the
    /// direction the sensor recommends.
    pub open spec fn is_avoidance_position<K: Kernel>(
        self,
        p: Vector,
        v: Vector,
        land: Terrain,
        r: Result<Vector, TerrainError>,
    ) -> bool {
        exists|direction: Result<Vector, TerrainError>|
            #![trigger self.sensor().is_clear_direction::<K>(land, p, v, direction)]
            {
                &&& self.sensor().is_clear_direction::<K>(land, p, v, direction)
                &&& Self::is_reached::<K>(p, v, direction, r)
            }
    }

    /// `r` is the blend of the velocity `v` and the pulls on a particle at
    /// `p`, held to the maximum speed; or the error that came in place of an
    /// avoidance position.
    pub open spec fn is_held<K: Kernel>(
        params: ParameterSet,
        v: Vector,
        p: Vector,
        p_best: Vector,
        g_best: Vector,
        avoid: Result<Vector, TerrainError>,
        r1: Scalar,
        r2: Scalar,
        r: Result<Vector, TerrainError>,
    ) -> bool {
        match avoid {
            Err(e) => r == Err::<Vector, TerrainError>(e),
            Ok(target) => r is Ok && exists|raw: Vector|
                #![trigger is_blend::<K>(params, v, p, p_best, g_best, target, r1, r2, raw)]
                {
                    &&& is_blend::<K>(params, v, p, p_best, g_best, target, r1, r2, raw)
                    &&& is_limited::<K>(raw, params.max_velocity, r->Ok_0)
                },
        }
    }

    /// `r` is the velocity a particle takes next when the random weights
    /// are `r1` and `r2`: the blend of its velocity and the pulls of its own
    /// best position, of the swarm's best position `g_best` and of the
    /// avoidance position, held to the maximum speed.
    pub open spec fn is_new_velocity_drawn<K: Kernel>(
        self,
        state: ParticleState,
        g_best: Vector,
        params: ParameterSet,
        land: Terrain,
        r1: Scalar,
        r2: Scalar,
        r: Result<Vector, TerrainError>,
    ) -> bool {
        exists|avoid: Result<Vector, TerrainError>|
            #![trigger self.is_avoidance_position::<K>(state.position(), state.velocity(), land, avoid)]
            {
                &&& self.is_avoidance_position::<K>(
                    state.position(),
                    state.velocity(),
                    land,
                    avoid,
                )
                &&& Self::is_held::<K>(
                    params,
                    state.velocity(),
                    state.position(),
                    state.best_performance().position,
                    g_best,
                    avoid,
                    r1,
                    r2,
                    r,
                )
            }
    }

    /// `r` is the velocity a particle takes next, for some random weights.
    pub open spec fn is_new_velocity<K: Kernel>(
        self,
        state: ParticleState,
        g_best: Vector,
        params: ParameterSet,
        land: Terrain,
        r: Result<Vector, TerrainError>,
    ) -> bool {
        exists|r1: Scalar, r2: Scalar|
            #![trigger self.is_new_velocity_drawn::<K>(state, g_best, params, land, r1, r2, r)]
            self.is_new_velocity_drawn::<K>(state, g_best, params, land, r1, r2, r)
    }

    /// `after` is the particle `before` once its move with velocity
    /// `velocity` to `target` has been judged: `hit` says that `target` lies
    /// in the terrain.
    ///
    /// A particle that hits stays where it was, is deflected, and counts one
    /// more collision; any other takes the velocity and the position. Either
    /// way it is scored where it now stands, keeps the better of its best
    /// result and the new one (the new one if they tie), and logs its
    /// position.
    pub open spec fn is_settled<K: Kernel>(
        self,
        before: ParticleState,
        velocity: Vector,
        target: Vector,
        hit: bool,
        after: ParticleState,
    ) -> bool {
        &&& after.position() == if hit { before.position() } else { target }
        &&& if hit {
            is_deflected::<K>(velocity, after.velocity())
        } else {
            after.velocity() == velocity
        }
        &&& after.collisions() == before.collisions() + if hit { 1int } else { 0int }
        &&& self.ctx().goal.is_value::<K>(after.position().x, after.position().z, after.score())
        &&& after.best_performance() == self.ctx().strategy.spec_pick_best_performance(
            before.best_performance(),
            after.performance(),
        )
        &&& after.history_limit() == before.history_limit()
        &&& after.history() == pushed(before.history(), before.history_limit(), after.position())
    }

    /// `after` and `r` are what becomes of the particle `before` once the
    /// check `check` of the position `target` is in: a particle whose target
    /// has no height stays as it was, and the step fails; any other settles.
    pub open spec fn is_judged<K: Kernel>(
        self,
        before: ParticleState,
        velocity: Vector,
        target: Vector,
        check: Result<bool, TerrainError>,
        after: ParticleState,
        r: Result<(), TerrainError>,
    ) -> bool {
        match check {
            Err(e) => r == Err::<(), TerrainError>(e) && after == before,
            Ok(hit) => r == Ok::<(), TerrainError>(()) && self.is_settled::<K>(
                before,
                velocity,
                target,
                hit,
                after,
            ),
        }
    }

    /// `after` and `r` are what becomes of the particle `before` once its new
    /// velocity is known: a particle without one stays as it was, and the
    /// step fails; any other tries the position that the velocity leads to,
    /// clipped to `boundary`.
    pub open spec fn is_moved<K: Kernel>(
        self,
        before: ParticleState,
        velocity: Result<Vector, TerrainError>,
        boundary: Boundary,
        land: Terrain,
        after: ParticleState,
        r: Result<(), TerrainError>,
    ) -> bool {
        match velocity {
            Err(e) => r == Err::<(), TerrainError>(e) && after == before,
            Ok(v_new) => exists|moved: Vector, check: Result<bool, TerrainError>|
                {
                    &&& #[trigger] before.position().is_sum::<K>(v_new, moved)
                    &&& #[trigger] is_collision_check::<K>(land, boundary.spec_clip(moved), check)
                    &&& self.is_judged::<K>(
                        before,
                        v_new,
                        boundary.spec_clip(moved),
                        check,
                        after,
                        r,
                    )
                },
        }
    }

    /// `after` and `r` are what one step makes of the particle `before` when
    /// the random weights are `r1` and `r2`.
    ///
    /// The step fails, and leaves the particle as it was, where the terrain
    /// has no height at a point the sensor probes or at the point the
    /// particle would move to. Otherwise the particle takes its new
    /// velocity, tries the position that velocity leads to, and settles.
    pub open spec fn is_step_drawn<K: Kernel>(
        self,
        before: ParticleState,
        g_best: Vector,
        params: ParameterSet,
        boundary: Boundary,
        land: Terrain,
        r1: Scalar,
        r2: Scalar,
        after: ParticleState,
        r: Result<(), TerrainError>,
    ) -> bool {
        exists|velocity: Result<Vector, TerrainError>|
            #![trigger self.is_new_velocity_drawn::<K>(before, g_best, params, land, r1, r2, velocity)]
            {
                &&& self.is_new_velocity_drawn::<K>(before, g_best, params, land, r1, r2, velocity)
                &&& self.is_moved::<K>(before, velocity, boundary, land, after, r)
            }
    }

    /// `after` and `r` are what one step makes of the particle `before`, for
    /// some random weights.
    pub open spec fn is_step<K: Kernel>(
        self,
        before: ParticleState,
        g_best: Vector,
        params: ParameterSet,
        boundary: Boundary,
        land: Terrain,
        after: ParticleState,
        r: Result<(), TerrainError>,
    ) -> bool {
        exists|r1: Scalar, r2: Scalar|
            #![trigger self.is_step_drawn::<K>(before, g_best, params, boundary, land, r1, r2, after, r)]
            self.is_step_drawn::<K>(before, g_best, params, boundary, land, r1, r2, after, r)
    }

    pub fn new(ctx: Ctx, sensor: CollisionSensor) -> (r: ParticleController)
        ensures
            r.ctx() == ctx,
            r.sensor() == sensor,
    {
        Self { ctx, sensor }
    }

    pub fn new_from_config<K: Kernel>(ctx: Ctx, config: ControllerConfig) -> (r:
        ParticleController)
        ensures
            r.is_configured::<K>(ctx, config),
    {
        let linear_detector = LinearDetector::new::<K>(
            config.collision.range,
            config.collision.linear_step_size,
        );
        let sensor = CollisionSensor::new(
            config.collision.fov_angle,
            config.collision.angular_step_size,
            linear_detector,
        );
        Self::new(ctx, sensor)
    }

    pub fn get_ctx(&self) -> (r: Ctx)
        ensures
            r == self.ctx(),
    {
        self.ctx
    }

    /// Moves the particle one step on, by the kinematics of the swarm.
    pub fn update<K: Kernel, R: RandomSource>(
        &mut self,
        state: &mut ParticleState,
        g_best: Vector,
        params: &ParameterSet,
        boundary: &Boundary,
        terrain: &Terrain,
        random: &mut R,
    ) -> (r: Result<(), TerrainError>)
        requires
            terrain.well_formed(),
            old(state).collisions() < usize::MAX,
        ensures
            *final(self) == *old(self),
            old(self).is_step::<K>(*old(state), g_best, *params, *boundary, *terrain, *final(state), r),
            old(state).well_formed() ==> final(state).well_formed(),
            r is Ok ==> exists|raw: Vector, held: Vector|
                {
                    &&& #[trigger] is_limited::<K>(raw, params.max_velocity, held)
                    &&& final(state).velocity() == held || is_deflected::<K>(
                        held,
                        final(state).velocity(),
                    )
                },
    {
        let velocity = self.calc_new_velocity::<K, R>(g_best, params, state, terrain, random);
        let ghost (r1, r2) = choose|r1: Scalar, r2: Scalar| #[trigger]
            self.is_new_velocity_drawn::<K>(*old(state), g_best, *params, *terrain, r1, r2, velocity);
        let mut v_prime = match velocity {
            Ok(v) => v,
            Err(e) => {
                proof {
                    assert(self.is_step_drawn::<K>(
                        *old(state),
                        g_best,
                        *params,
                        *boundary,
                        *terrain,
                        r1,
                        r2,
                        *state,
                        Err(e),
                    ));
                }
                return Err(e);
            },
        };
        let moved = state.p.add::<K>(&v_prime);
        let mut p_prime = boundary.clip(&moved);
        let target = p_prime;
        let proposed = v_prime;

        let check = self.check_collision::<K>(p_prime, terrain);
        let hit = match check {
            Ok(hit) => hit,
            Err(e) => {
                proof {
                    assert(is_collision_check::<K>(*terrain, boundary.spec_clip(moved), check));
                    assert(self.is_moved::<K>(
                        *old(state),
                        velocity,
                        *boundary,
                        *terrain,
                        *state,
                        Err(e),
                    ));
                    assert(self.is_step_drawn::<K>(
                        *old(state),
                        g_best,
                        *params,
                        *boundary,
                        *terrain,
                        r1,
                        r2,
                        *state,
                        Err(e),
                    ));
                }
                return Err(e);
            },
        };
        if hit {
            let turned = v_prime.rotate_xz::<K>(Scalar::from_bits(QUARTER_TURN_BITS));
            v_prime = turned.mult::<K>(Scalar::half());
            proof {
                assert(proposed.is_rotation_xz::<K>(Scalar { bits: QUARTER_TURN_BITS }, turned));
                assert(turned.is_scaled::<K>(Scalar { bits: HALF_BITS }, v_prime));
                assert(is_deflected::<K>(proposed, v_prime));
            }
            state.collisions += 1;
            p_prime = state.p;
        }
        let score = self.ctx.goal.evaluate::<K>(p_prime.x, p_prime.z);
        let current_performance = Performance::new(p_prime, score);

        state.p = p_prime;
        state.v = v_prime;
        state.score = score;
        state.best_performance = self.ctx.get_strategy().pick_best_performance(
            &state.best_performance,
            &current_performance,
        );
        queue_push(&mut state.positions, (p_prime.x.bits, p_prime.y.bits, p_prime.z.bits));
        proof {
            let before = *old(state);
            lemma_pushed_vectors(
                queue_entries(before.positions),
                queue_limit(before.positions),
                p_prime,
            );
            assert(is_collision_check::<K>(*terrain, boundary.spec_clip(moved), check));
            assert(self.is_settled::<K>(before, proposed, target, hit, *state));
            assert(self.is_moved::<K>(before, velocity, *boundary, *terrain, *state, Ok(())));
            assert(self.is_step_drawn::<K>(
                before,
                g_best,
                *params,
                *boundary,
                *terrain,
                r1,
                r2,
                *state,
                Ok(()),
            ));
            lemma_step_limits_speed::<K>(
                *self,
                before,
                g_best,
                *params,
                *boundary,
                *terrain,
                r1,
                r2,
                *state,
            );
        }
        Ok(())
    }

    fn check_collision<K: Kernel>(&self, pos: Vector, terrain: &Terrain) -> (r: Result<
        bool,
        TerrainError,
    >)
        requires
            terrain.well_formed(),
        ensures
            is_collision_check::<K>(*terrain, pos, r),
    {
        match terrain.get_height::<K>(pos.x, pos.z) {
            Ok(y) => Ok(y.ge(&pos.y)),
            Err(e) => Err(e),
        }
    }

    /// Where the particle would go to keep clear of the terrain: as far as
    /// its velocity is long, in the direction the sensor recommends.
    fn get_optimal_collision_position<K: Kernel>(&self, state: &ParticleState, terrain: &Terrain) -> (r:
        Result<Vector, TerrainError>)
        requires
            terrain.well_formed(),
        ensures
            self.is_avoidance_position::<K>(state.position(), state.velocity(), *terrain, r),
    {
        let direction = self.sensor.find_clear_direction::<K>(state.p, state.v, terrain);
        assert(self.sensor().is_clear_direction::<K>(*terrain, state.p, state.v, direction));
        match direction {
            Ok(clear) => {
                let speed = state.v.magnitude::<K>();
                let reach = clear.mult::<K>(speed);
                Ok(state.p.add::<K>(&reach))
            },
            Err(e) => Err(e),
        }
    }

    fn pull<K: Kernel>(weight: Scalar, target: Vector, p: Vector) -> (r: Vector)
        ensures
            is_pull::<K>(weight, target, p, r),
    {
        let offset = target.sub::<K>(&p);
        offset.mult::<K>(weight)
    }

    fn limit_speed<K: Kernel>(v: Vector, max: Scalar) -> (r: Vector)
        ensures
            is_limited::<K>(v, max, r),
    {
        let speed = v.magnitude::<K>();
        if speed.gt(&max) {
            let unit = v.unit::<K>();
            unit.mult::<K>(max)
        } else {
            v
        }
    }

    fn calc_new_velocity<K: Kernel, R: RandomSource>(
        &self,
        g_best: Vector,
        params: &ParameterSet,
        state: &ParticleState,
        terrain: &Terrain,
        random: &mut R,
    ) -> (r: Result<Vector, TerrainError>)
        requires
            terrain.well_formed(),
        ensures
            self.is_new_velocity::<K>(*state, g_best, *params, *terrain, r),
    {
        let r1 = random.next();
        let r2 = random.next();
        let _r3 = random.next();
        let v = state.v;
        let p = state.p;
        let p_best = state.best_performance.position;
        let avoid = self.get_optimal_collision_position::<K>(state, terrain);
        let optimal_collision_pos = match avoid {
            Ok(target) => target,
            Err(e) => {
                assert(self.is_new_velocity_drawn::<K>(
                    *state,
                    g_best,
                    *params,
                    *terrain,
                    r1,
                    r2,
                    Err(e),
                ));
                return Err(e);
            },
        };

        let inertia = v.mult::<K>(params.w);
        let k1 = params.c1.times::<K>(r1);
        let own = Self::pull::<K>(k1, p_best, p);
        let k2 = params.c2.times::<K>(r2);
        let social = Self::pull::<K>(k2, g_best, p);
        let dodge = Self::pull::<K>(params.c3, optimal_collision_pos, p);
        let first = inertia.add::<K>(&own);
        let second = first.add::<K>(&social);
        let raw = second.add::<K>(&dodge);
        let r = Ok(Self::limit_speed::<K>(raw, params.max_velocity));
        proof {
            assert(is_blend::<K>(
                *params,
                state.velocity(),
                state.position(),
                state.best_performance().position,
                g_best,
                optimal_collision_pos,
                r1,
                r2,
                raw,
            ));
            assert(self.is_new_velocity_drawn::<K>(*state, g_best, *params, *terrain, r1, r2, r));
        }
        r
    }
}

proof fn lemma_pull_determined<K: Kernel>(
    weight: Scalar,
    target: Vector,
    p: Vector,
    r1: Vector,
    r2: Vector,
)
    requires
        deterministic::<K>(),
        is_pull::<K>(weight, target, p, r1),
        is_pull::<K>(weight, target, p, r2),
    ensures
        r1 == r2,
{
    let offset1 = choose|offset: Vector| #[trigger]
        target.is_difference::<K>(p, offset) && offset.is_scaled::<K>(weight, r1);
    let offset2 = choose|offset: Vector| #[trigger]
        target.is_difference::<K>(p, offset) && offset.is_scaled::<K>(weight, r2);
    lemma_vector_operations_determined::<K>(target, p, weight, offset1, offset2);
    lemma_vector_operations_determined::<K>(offset1, p, weight, r1, r2);
}

proof fn lemma_blend_determined<K: Kernel>(
    params: ParameterSet,
    v: Vector,
    p: Vector,
    p_best: Vector,
    g_best: Vector,
    avoid: Vector,
    r1: Scalar,
    r2: Scalar,
    raw1: Vector,
    raw2: Vector,
)
    requires
        deterministic::<K>(),
        is_blend::<K>(params, v, p, p_best, g_best, avoid, r1, r2, raw1),
        is_blend::<K>(params, v, p, p_best, g_best, avoid, r1, r2, raw2),
    ensures
        raw1 == raw2,
{
    let (inertia1, k11, own1, k21, social1, dodge1, first1, second1) = choose|
        inertia: Vector,
        k1: Scalar,
        own: Vector,
        k2: Scalar,
        social: Vector,
        dodge: Vector,
        first: Vector,
        second: Vector,
    |
        {
            &&& #[trigger] v.is_scaled::<K>(params.w, inertia)
            &&& is_product::<K>(params.c1, r1, k1)
            &&& #[trigger] is_pull::<K>(k1, p_best, p, own)
            &&& is_product::<K>(params.c2, r2, k2)
            &&& #[trigger] is_pull::<K>(k2, g_best, p, social)
            &&& #[trigger] is_pull::<K>(params.c3, avoid, p, dodge)
            &&& #[trigger] inertia.is_sum::<K>(own, first)
            &&& #[trigger] first.is_sum::<K>(social, second)
            &&& second.is_sum::<K>(dodge, raw1)
        };
    let (inertia2, k12, own2, k22, social2, dodge2, first2, second2) = choose|
        inertia: Vector,
        k1: Scalar,
        own: Vector,
        k2: Scalar,
        social: Vector,
        dodge: Vector,
        first: Vector,
        second: Vector,
    |
        {
            &&& #[trigger] v.is_scaled::<K>(params.w, inertia)
            &&& is_product::<K>(params.c1, r1, k1)
            &&& #[trigger] is_pull::<K>(k1, p_best, p, own)
            &&& is_product::<K>(params.c2, r2, k2)
            &&& #[trigger] is_pull::<K>(k2, g_best, p, social)
            &&& #[trigger] is_pull::<K>(params.c3, avoid, p, dodge)
            &&& #[trigger] inertia.is_sum::<K>(own, first)
            &&& #[trigger] first.is_sum::<K>(social, second)
            &&& second.is_sum::<K>(dodge, raw2)
        };
    lemma_vector_operations_determined::<K>(v, v, params.w, inertia1, inertia2);
    assert(k11 == k12);
    assert(k21 == k22);
    lemma_pull_determined::<K>(k11, p_best, p, own1, own2);
    lemma_pull_determined::<K>(k21, g_best, p, social1, social2);
    lemma_pull_determined::<K>(params.c3, avoid, p, dodge1, dodge2);
    lemma_vector_operations_determined::<K>(inertia1, own1, params.w, first1, first2);
    lemma_vector_operations_determined::<K>(first1, social1, params.w, second1, second2);
    lemma_vector_operations_determined::<K>(second1, dodge1, params.w, raw1, raw2);
}

proof fn lemma_limited_determined<K: Kernel>(v: Vector, max: Scalar, r1: Vector, r2: Vector)
    requires
        deterministic::<K>(),
        is_limited::<K>(v, max, r1),
        is_limited::<K>(v, max, r2),
    ensures
        r1 == r2,
{
    let speed1 = choose|speed: Scalar|
        {
            &&& #[trigger] v.is_magnitude::<K>(speed)
            &&& if speed.spec_gt(max) {
                exists|unit: Vector|
                    #![trigger v.is_unit::<K>(unit)]
                    v.is_unit::<K>(unit) && unit.is_scaled::<K>(max, r1)
            } else {
                r1 == v
            }
        };
    let speed2 = choose|speed: Scalar|
        {
            &&& #[trigger] v.is_magnitude::<K>(speed)
            &&& if speed.spec_gt(max) {
                exists|unit: Vector|
                    #![trigger v.is_unit::<K>(unit)]
                    v.is_unit::<K>(unit) && unit.is_scaled::<K>(max, r2)
            } else {
                r2 == v
            }
        };
    lemma_magnitude_determined::<K>(v, speed1, speed2, v, v);
    if speed1.spec_gt(max) {
        let unit1 = choose|unit: Vector| #[trigger]
            v.is_unit::<K>(unit) && unit.is_scaled::<K>(max, r1);
        let unit2 = choose|unit: Vector| #[trigger]
            v.is_unit::<K>(unit) && unit.is_scaled::<K>(max, r2);
        lemma_magnitude_determined::<K>(v, speed1, speed1, unit1, unit2);
        lemma_vector_operations_determined::<K>(unit1, unit1, max, r1, r2);
    }
}

proof fn lemma_deflected_determined<K: Kernel>(v: Vector, r1: Vector, r2: Vector)
    requires
        deterministic::<K>(),
        is_deflected::<K>(v, r1),
        is_deflected::<K>(v, r2),
    ensures
        r1 == r2,
{
    let quarter = Scalar { bits: QUARTER_TURN_BITS };
    let half = Scalar { bits: HALF_BITS };
    let turned1 = choose|turned: Vector| #[trigger]
        v.is_rotation_xz::<K>(quarter, turned) && turned.is_scaled::<K>(half, r1);
    let turned2 = choose|turned: Vector| #[trigger]
        v.is_rotation_xz::<K>(quarter, turned) && turned.is_scaled::<K>(half, r2);
    lemma_vector_operations_determined::<K>(v, v, quarter, turned1, turned2);
    lemma_vector_operations_determined::<K>(turned1, v, half, r1, r2);
}

proof fn lemma_collision_check_determined<K: Kernel>(
    land1: Terrain,
    land2: Terrain,
    pos: Vector,
    r1: Result<bool, TerrainError>,
    r2: Result<bool, TerrainError>,
)
    requires
        deterministic::<K>(),
        land1.same_as(land2),
        is_collision_check::<K>(land1, pos, r1),
        is_collision_check::<K>(land2, pos, r2),
    ensures
        r1 == r2,
{
    let h1: Result<Scalar, TerrainError> = match r1 {
        Ok(hit) => Ok(
            choose|height: Scalar| #[trigger]
                land1.is_height::<K>(pos.x, pos.z, Ok(height)) && hit == height.spec_ge(pos.y),
        ),
        Err(e) => Err(e),
    };
    let h2: Result<Scalar, TerrainError> = match r2 {
        Ok(hit) => Ok(
            choose|height: Scalar| #[trigger]
                land2.is_height::<K>(pos.x, pos.z, Ok(height)) && hit == height.spec_ge(pos.y),
        ),
        Err(e) => Err(e),
    };
    lemma_height_determined::<K>(land1, land2, pos.x, pos.z, h1, h2);
}

proof fn lemma_avoidance_determined<K: Kernel>(
    controller: ParticleController,
    p: Vector,
    v: Vector,
    land1: Terrain,
    land2: Terrain,
    r1: Result<Vector, TerrainError>,
    r2: Result<Vector, TerrainError>,
)
    requires
        deterministic::<K>(),
        land1.same_as(land2),
        controller.is_avoidance_position::<K>(p, v, land1, r1),
        controller.is_avoidance_position::<K>(p, v, land2, r2),
    ensures
        r1 == r2,
{
    let d1 = choose|direction: Result<Vector, TerrainError>|
        {
            &&& #[trigger] controller.sensor().is_clear_direction::<K>(land1, p, v, direction)
            &&& ParticleController::is_reached::<K>(p, v, direction, r1)
        };
    let d2 = choose|direction: Result<Vector, TerrainError>|
        {
            &&& #[trigger] controller.sensor().is_clear_direction::<K>(land2, p, v, direction)
            &&& ParticleController::is_reached::<K>(p, v, direction, r2)
        };
    lemma_clear_direction_determined::<K>(controller.sensor(), land1, land2, p, v, d1, d2);
    match d1 {
        Ok(clear) => {
            let (speed1, reach1) = choose|speed: Scalar, reach: Vector|
                {
                    &&& #[trigger] v.is_magnitude::<K>(speed)
                    &&& #[trigger] clear.is_scaled::<K>(speed, reach)
                    &&& p.is_sum::<K>(reach, r1->Ok_0)
                };
            let (speed2, reach2) = choose|speed: Scalar, reach: Vector|
                {
                    &&& #[trigger] v.is_magnitude::<K>(speed)
                    &&& #[trigger] clear.is_scaled::<K>(speed, reach)
                    &&& p.is_sum::<K>(reach, r2->Ok_0)
                };
            lemma_magnitude_determined::<K>(v, speed1, speed2, v, v);
            lemma_vector_operations_determined::<K>(clear, clear, speed1, reach1, reach2);
            lemma_vector_operations_determined::<K>(p, reach1, speed1, r1->Ok_0, r2->Ok_0);
        },
        Err(_) => {},
    }
}

/// On a deterministic kernel the random weights determine the velocity a
/// particle takes next.
pub proof fn lemma_new_velocity_determined<K: Kernel>(
    controller: ParticleController,
    state1: ParticleState,
    state2: ParticleState,
    g_best: Vector,
    params: ParameterSet,
    land1: Terrain,
    land2: Terrain,
    r1: Scalar,
    r2: Scalar,
    v1: Result<Vector, TerrainError>,
    v2: Result<Vector, TerrainError>,
)
    requires
        deterministic::<K>(),
        state1.same_as(state2),
        land1.same_as(land2),
        controller.is_new_velocity_drawn::<K>(state1, g_best, params, land1, r1, r2, v1),
        controller.is_new_velocity_drawn::<K>(state2, g_best, params, land2, r1, r2, v2),
    ensures
        v1 == v2,
{
    let p = state1.position();
    let v = state1.velocity();
    let p_best = state1.best_performance().position;
    let avoid1 = choose|avoid: Result<Vector, TerrainError>|
        {
            &&& #[trigger] controller.is_avoidance_position::<K>(p, v, land1, avoid)
            &&& ParticleController::is_held::<K>(params, v, p, p_best, g_best, avoid, r1, r2, v1)
        };
    let avoid2 = choose|avoid: Result<Vector, TerrainError>|
        {
            &&& #[trigger] controller.is_avoidance_position::<K>(p, v, land2, avoid)
            &&& ParticleController::is_held::<K>(params, v, p, p_best, g_best, avoid, r1, r2, v2)
        };
    lemma_avoidance_determined::<K>(controller, p, v, land1, land2, avoid1, avoid2);
    match avoid1 {
        Ok(target) => {
            let raw1 = choose|raw: Vector|
                {
                    &&& #[trigger] is_blend::<K>(params, v, p, p_best, g_best, target, r1, r2, raw)
                    &&& is_limited::<K>(raw, params.max_velocity, v1->Ok_0)
                };
            let raw2 = choose|raw: Vector|
                {
                    &&& #[trigger] is_blend::<K>(params, v, p, p_best, g_best, target, r1, r2, raw)
                    &&& is_limited::<K>(raw, params.max_velocity, v2->Ok_0)
                };
            lemma_blend_determined::<K>(params, v, p, p_best, g_best, target, r1, r2, raw1, raw2);
            lemma_limited_determined::<K>(raw1, params.max_velocity, v1->Ok_0, v2->Ok_0);
        },
        Err(_) => {},
    }
}

proof fn lemma_settled_determined<K: Kernel>(
    controller: ParticleController,
    before1: ParticleState,
    before2: ParticleState,
    velocity: Vector,
    target: Vector,
    hit: bool,
    after1: ParticleState,
    after2: ParticleState,
)
    requires
        deterministic::<K>(),
        before1.same_as(before2),
        controller.is_settled::<K>(before1, velocity, target, hit, after1),
        controller.is_settled::<K>(before2, velocity, target, hit, after2),
    ensures
        after1.same_as(after2),
{
    if hit {
        lemma_deflected_determined::<K>(velocity, after1.velocity(), after2.velocity());
    }
    let at = after1.position();
    match controller.ctx().goal {
        Goal::Ackley => {
            assert(is_ackley::<K>(at.x, at.z, after1.score()));
            assert(is_ackley::<K>(at.x, at.z, after2.score()));
        },
        Goal::Griewank => {
            assert(is_griewank::<K>(at.x, at.z, after1.score()));
            assert(is_griewank::<K>(at.x, at.z, after2.score()));
        },
    }
}

/// On a deterministic kernel a step is determined by the particle, its
/// surroundings and the random weights: two steps of particles that are
/// alike, over terrains that are alike, with the same weights, end alike.
pub proof fn lemma_step_determined<K: Kernel>(
    controller: ParticleController,
    before1: ParticleState,
    before2: ParticleState,
    g_best: Vector,
    params: ParameterSet,
    boundary: Boundary,
    land1: Terrain,
    land2: Terrain,
    r1: Scalar,
    r2: Scalar,
    after1: ParticleState,
    after2: ParticleState,
    end1: Result<(), TerrainError>,
    end2: Result<(), TerrainError>,
)
    requires
        deterministic::<K>(),
        before1.same_as(before2),
        land1.same_as(land2),
        controller.is_step_drawn::<K>(
            before1,
            g_best,
            params,
            boundary,
            land1,
            r1,
            r2,
            after1,
            end1,
        ),
        controller.is_step_drawn::<K>(
            before2,
            g_best,
            params,
            boundary,
            land2,
            r1,
            r2,
            after2,
            end2,
        ),
    ensures
        end1 == end2,
        after1.same_as(after2),
{
    let v1 = choose|velocity: Result<Vector, TerrainError>|
        {
            &&& #[trigger] controller.is_new_velocity_drawn::<K>(
                before1,
                g_best,
                params,
                land1,
                r1,
                r2,
                velocity,
            )
            &&& controller.is_moved::<K>(before1, velocity, boundary, land1, after1, end1)
        };
    let v2 = choose|velocity: Result<Vector, TerrainError>|
        {
            &&& #[trigger] controller.is_new_velocity_drawn::<K>(
                before2,
                g_best,
                params,
                land2,
                r1,
                r2,
                velocity,
            )
            &&& controller.is_moved::<K>(before2, velocity, boundary, land2, after2, end2)
        };
    lemma_new_velocity_determined::<K>(
        controller,
        before1,
        before2,
        g_best,
        params,
        land1,
        land2,
        r1,
        r2,
        v1,
        v2,
    );
    match v1 {
        Ok(v_new) => {
            let at = before1.position();
            let (moved1, check1) = choose|moved: Vector, check: Result<bool, TerrainError>|
                {
                    &&& #[trigger] at.is_sum::<K>(v_new, moved)
                    &&& #[trigger] is_collision_check::<K>(land1, boundary.spec_clip(moved), check)
                    &&& controller.is_judged::<K>(
                        before1,
                        v_new,
                        boundary.spec_clip(moved),
                        check,
                        after1,
                        end1,
                    )
                };
            let (moved2, check2) = choose|moved: Vector, check: Result<bool, TerrainError>|
                {
                    &&& #[trigger] at.is_sum::<K>(v_new, moved)
                    &&& #[trigger] is_collision_check::<K>(land2, boundary.spec_clip(moved), check)
                    &&& controller.is_judged::<K>(
                        before2,
                        v_new,
                        boundary.spec_clip(moved),
                        check,
                        after2,
                        end2,
                    )
                };
            lemma_vector_operations_determined::<K>(at, v_new, r1, moved1, moved2);
            let target = boundary.spec_clip(moved1);
            lemma_collision_check_determined::<K>(land1, land2, target, check1, check2);
            match check1 {
                Ok(hit) => {
                    lemma_settled_determined::<K>(
                        controller,
                        before1,
                        before2,
                        v_new,
                        target,
                        hit,
                        after1,
                        after2,
                    );
                },
                Err(_) => {},
            }
        },
        Err(_) => {},
    }
}

/// On a deterministic kernel a controller is determined by its
/// configuration.
pub proof fn lemma_controller_determined<K: Kernel>(
    first: ParticleController,
    second: ParticleController,
    ctx: Ctx,
    config: ControllerConfig,
)
    requires
        deterministic::<K>(),
        first.is_configured::<K>(ctx, config),
        second.is_configured::<K>(ctx, config),
    ensures
        first == second,
{
    lemma_detector_determined::<K>(
        first.sensor().detector(),
        second.sensor().detector(),
        config.collision.range,
        config.collision.linear_step_size,
    );
    lemma_sensor_determined(first.sensor(), second.sensor());
}

/// Every velocity a particle takes has been held to the maximum speed:
/// after a step the velocity of the particle is a velocity held to
/// `params.max_velocity`, or such a velocity deflected, which halves it.
pub proof fn lemma_step_limits_speed<K: Kernel>(
    controller: ParticleController,
    before: ParticleState,
    g_best: Vector,
    params: ParameterSet,
    boundary: Boundary,
    land: Terrain,
    r1: Scalar,
    r2: Scalar,
    after: ParticleState,
)
    requires
        controller.is_step_drawn::<K>(
            before,
            g_best,
            params,
            boundary,
            land,
            r1,
            r2,
            after,
            Ok(()),
        ),
    ensures
        exists|raw: Vector, held: Vector|
            {
                &&& #[trigger] is_limited::<K>(raw, params.max_velocity, held)
                &&& after.velocity() == held || is_deflected::<K>(held, after.velocity())
            },
{
    let end: Result<(), TerrainError> = Ok(());
    let p = before.position();
    let v = before.velocity();
    let p_best = before.best_performance().position;
    let velocity = choose|velocity: Result<Vector, TerrainError>|
        {
            &&& #[trigger] controller.is_new_velocity_drawn::<K>(
                before,
                g_best,
                params,
                land,
                r1,
                r2,
                velocity,
            )
            &&& controller.is_moved::<K>(before, velocity, boundary, land, after, end)
        };
    let held = velocity->Ok_0;
    let avoid = choose|avoid: Result<Vector, TerrainError>|
        {
            &&& #[trigger] controller.is_avoidance_position::<K>(p, v, land, avoid)
            &&& ParticleController::is_held::<K>(
                params,
                v,
                p,
                p_best,
                g_best,
                avoid,
                r1,
                r2,
                velocity,
            )
        };
    let raw = choose|raw: Vector|
        {
            &&& #[trigger] is_blend::<K>(params, v, p, p_best, g_best, avoid->Ok_0, r1, r2, raw)
            &&& is_limited::<K>(raw, params.max_velocity, held)
        };
    let (moved, check) = choose|moved: Vector, check: Result<bool, TerrainError>|
        {
            &&& #[trigger] p.is_sum::<K>(held, moved)
            &&& #[trigger] is_collision_check::<K>(land, boundary.spec_clip(moved), check)
            &&& controller.is_judged::<K>(
                before,
                held,
                boundary.spec_clip(moved),
                check,
                after,
                end,
            )
        };
    assert(is_limited::<K>(raw, params.max_velocity, held));
}

} // verus!
