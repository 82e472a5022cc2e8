//! The swarm: the particles, the best result among them, and the best
//! result there has ever been.
use vstd::prelude::*;
use crate::goal::{lemma_record_never_worsens, Goal, Performance};
use crate::kernel::{deterministic, is_ackley, is_griewank, is_product, Kernel, RandomSource};
use crate::pso::history::ENTRY_BYTES;
use crate::pso::particle::{lemma_step_determined, ParticleController, ParticleState};
use crate::pso::{Ctx, ParameterSet, ParticleConfig, SwarmConfig};
use crate::scalar::{Scalar, FULL_TURN_BITS, ONE_BITS, ZERO_BITS};
use crate::space::vector::lemma_vector_operations_determined;
use crate::space::{Boundary, Vector};
use crate::terrain::{Terrain, TerrainError};

verus! {

#[derive(Debug)]
pub struct Swarm {
    ctx: Ctx,
    params: ParameterSet,
    controller: ParticleController,
    population: Vec<ParticleState>,
    best: Performance,
    historic_best: Performance,
    positions: Vec<Vector>,
    iteration: u64,
    space_boundary: Boundary,
}

/// The current results of a population, particle by particle.
pub open spec fn performances(population: Seq<ParticleState>) -> Seq<Performance> {
    Seq::new(population.len(), |i: int| population[i].performance())
}

/// `particle` was deployed as `config` says with the random weights `turn`
/// and `stretch`: put at the deploy position plus `stretch` times the spread
/// radius in the direction of the x axis turned by `turn` full turns, with
/// the initial speed in that same direction.
pub open spec fn is_deployed_drawn<K: Kernel>(
    config: SwarmConfig,
    particle_config: ParticleConfig,
    controller: ParticleController,
    turn: Scalar,
    stretch: Scalar,
    particle: ParticleState,
) -> bool {
    exists|angle: Scalar, radius: Scalar, heading: Vector, spread: Vector|
        {
            &&& #[trigger] is_product::<K>(Scalar { bits: FULL_TURN_BITS }, turn, angle)
            &&& #[trigger] is_product::<K>(config.deploy_spread_radius, stretch, radius)
            &&& (Vector {
                x: Scalar { bits: ONE_BITS },
                y: Scalar { bits: ZERO_BITS },
                z: Scalar { bits: ZERO_BITS },
            }).is_rotation_xz::<K>(angle, heading)
            &&& #[trigger] heading.is_scaled::<K>(radius, spread)
            &&& heading.is_scaled::<K>(config.initial_swarm_velocity, particle.velocity())
            &&& config.deploy_position.is_sum::<K>(spread, particle.position())
            &&& particle.is_fresh::<K>(
                particle.position(),
                particle.velocity(),
                particle_config.position_log_size,
                controller,
            )
        }
}

/// `particle` was deployed as `config` says, with some random weights.
pub open spec fn is_deployed<K: Kernel>(
    config: SwarmConfig,
    particle_config: ParticleConfig,
    controller: ParticleController,
    particle: ParticleState,
) -> bool {
    exists|turn: Scalar, stretch: Scalar|
        #![trigger is_deployed_drawn::<K>(config, particle_config, controller, turn, stretch, particle)]
        is_deployed_drawn::<K>(config, particle_config, controller, turn, stretch, particle)
}

impl Swarm {
    pub closed spec fn ctx(self) -> Ctx {
        self.ctx
    }

    pub closed spec fn params(self) -> ParameterSet {
        self.params
    }

    pub closed spec fn controller(self) -> ParticleController {
        self.controller
    }

    /// The particles, in the order they were deployed.
    pub closed spec fn population(self) -> Seq<ParticleState> {
        self.population@
    }

    /// The best result of the population as it stood after the last
    /// completed iteration.
    pub closed spec fn best(self) -> Performance {
        self.best
    }

    /// The best result that any completed iteration has seen.
    pub closed spec fn historic_best(self) -> Performance {
        self.historic_best
    }

    /// The positions of the particles, kept beside the population.
    pub closed spec fn positions(self) -> Seq<Vector> {
        self.positions@
    }

    /// How many iterations have been completed.
    pub closed spec fn iteration(self) -> u64 {
        self.iteration
    }

    /// The rectangle the particles are kept in.
    pub closed spec fn space_boundary(self) -> Boundary {
        self.space_boundary
    }

    /// There is at least one particle, and the kept positions are those of
    /// the particles.
    pub open spec fn well_formed(self) -> bool {
        &&& self.population().len() > 0
        &&& self.positions().len() == self.population().len()
        &&& forall|i: int|
            0 <= i < self.population().len() ==> #[trigger] self.positions()[i]
                == self.population()[i].position()
    }

    /// No particle has used up its collision counter, and the iteration
    /// counter has room for one more.
    pub open spec fn can_step(self) -> bool {
        &&& self.iteration() < u64::MAX
        &&& forall|i: int|
            0 <= i < self.population().len() ==> (#[trigger] self.population()[i]).collisions()
                < usize::MAX
    }

    /// `self` and `after` are the same swarm, apart from the particles,
    /// their positions, the bests and the iteration count.
    pub open spec fn same_setup(self, after: Swarm) -> bool {
        &&& after.ctx() == self.ctx()
        &&& after.params() == self.params()
        &&& after.controller() == self.controller()
        &&& after.space_boundary() == self.space_boundary()
        &&& after.population().len() == self.population().len()
    }

    /// `self` and `other` are alike in all that can be told of a swarm.
    pub open spec fn same_as(self, other: Swarm) -> bool {
        &&& self.same_setup(other)
        &&& forall|i: int|
            0 <= i < self.population().len() ==> (#[trigger] self.population()[i]).same_as(
                other.population()[i],
            )
        &&& self.positions() == other.positions()
        &&& self.best() == other.best()
        &&& self.historic_best() == other.historic_best()
        &&& self.iteration() == other.iteration()
    }

    /// `self` is the swarm that was deployed over `land` as `config` says,
    /// particle `i` with the random weights `draws[i]`, and has taken stock:
    /// its best is the best of its population, and its historic best is
    /// that best set against the result of its first particle.
    pub open spec fn is_deployment_drawn<K: Kernel>(
        self,
        ctx: Ctx,
        params: ParameterSet,
        config: SwarmConfig,
        controller: ParticleController,
        particle_config: ParticleConfig,
        land: Terrain,
        draws: Seq<(Scalar, Scalar)>,
    ) -> bool {
        &&& self.is_set_up(ctx, params, config, controller, land)
        &&& draws.len() == config.size
        &&& forall|i: int|
            0 <= i < config.size ==> is_deployed_drawn::<K>(
                config,
                particle_config,
                controller,
                draws[i].0,
                draws[i].1,
                #[trigger] self.population()[i],
            )
    }

    /// `self` is the swarm that was deployed over `land` as `config` says,
    /// with some random weights, and has taken stock.
    pub open spec fn is_deployment<K: Kernel>(
        self,
        ctx: Ctx,
        params: ParameterSet,
        config: SwarmConfig,
        controller: ParticleController,
        particle_config: ParticleConfig,
        land: Terrain,
    ) -> bool {
        &&& self.is_set_up(ctx, params, config, controller, land)
        &&& forall|i: int|
            0 <= i < config.size ==> is_deployed::<K>(
                config,
                particle_config,
                controller,
                #[trigger] self.population()[i],
            )
    }

    /// `self` is a swarm of `config.size` particles for the problem `ctx`,
    /// kept within the boundary of `land`, before its first iteration, that
    /// has taken stock of its population.
    pub open spec fn is_set_up(
        self,
        ctx: Ctx,
        params: ParameterSet,
        config: SwarmConfig,
        controller: ParticleController,
        land: Terrain,
    ) -> bool {
        &&& self.well_formed()
        &&& self.ctx() == ctx
        &&& self.params() == params
        &&& self.controller() == controller
        &&& self.space_boundary() == land.boundary()
        &&& self.population().len() == config.size
        &&& self.best() == ctx.strategy.best_of(performances(self.population()))
        &&& self.historic_best() == ctx.strategy.spec_pick_best_performance(
            self.best(),
            self.population()[0].performance(),
        )
        &&& self.iteration() == 0
    }

    /// `after` has taken stock of an iteration that began at `self`: its
    /// best is the best of its population, its historic best is that best
    /// set against the historic best so far, and one more iteration is
    /// counted.
    pub open spec fn is_stock_taken(self, after: Swarm) -> bool {
        &&& after.best() == self.ctx().strategy.best_of(performances(after.population()))
        &&& after.historic_best() == self.ctx().strategy.spec_pick_best_performance(
            after.best(),
            self.historic_best(),
        )
        &&& after.iteration() == self.iteration() + 1
    }

    /// Particle `i` of `after` is particle `i` of `self` one step on, with
    /// the random weights `weights`.
    pub open spec fn is_particle_step_drawn<K: Kernel>(
        self,
        land: Terrain,
        weights: (Scalar, Scalar),
        after: Swarm,
        i: int,
        r: Result<(), TerrainError>,
    ) -> bool {
        self.controller().is_step_drawn::<K>(
            self.population()[i],
            self.best().position,
            self.params(),
            self.space_boundary(),
            land,
            weights.0,
            weights.1,
            after.population()[i],
            r,
        )
    }

    /// `after` is `self` one completed iteration on, in which particle `i`
    /// had the random weights `draws[i]`.
    pub open spec fn is_iteration_drawn<K: Kernel>(
        self,
        land: Terrain,
        draws: Seq<(Scalar, Scalar)>,
        after: Swarm,
    ) -> bool {
        &&& self.same_setup(after)
        &&& draws.len() == self.population().len()
        &&& forall|i: int|
            0 <= i < self.population().len() ==> #[trigger] self.is_particle_step_drawn::<K>(
                land,
                draws[i],
                after,
                i,
                Ok(()),
            )
        &&& self.is_stock_taken(after)
    }

    /// `after` is `self` after the iterations whose random weights are
    /// `rounds`, one round for each iteration, all of them completed.
    pub open spec fn is_run_drawn<K: Kernel>(
        self,
        land: Terrain,
        rounds: Seq<Seq<(Scalar, Scalar)>>,
        after: Swarm,
    ) -> bool
        decreases rounds.len(),
    {
        if rounds.len() == 0 {
            after == self
        } else {
            exists|between: Swarm|
                #![trigger between.is_iteration_drawn::<K>(land, rounds.last(), after)]
                {
                    &&& self.is_run_drawn::<K>(land, rounds.drop_last(), between)
                    &&& between.well_formed()
                    &&& between.is_iteration_drawn::<K>(land, rounds.last(), after)
                }
        }
    }

    /// Particle `i` of `after` is particle `i` of `self` one step on, a step
    /// that ended as `r` says. Every particle of an iteration is steered by
    /// the best position that the swarm held when the iteration began.
    pub open spec fn is_particle_step<K: Kernel>(
        self,
        land: Terrain,
        after: Swarm,
        i: int,
        r: Result<(), TerrainError>,
    ) -> bool {
        self.controller().is_step::<K>(
            self.population()[i],
            self.best().position,
            self.params(),
            self.space_boundary(),
            land,
            after.population()[i],
            r,
        )
    }

    /// `after` is `self` one completed iteration on: every particle has made
    /// its step, the best is the best of the population as it now stands,
    /// the historic best is that best set against the historic best so far,
    /// and one more iteration is counted.
    pub open spec fn is_iteration<K: Kernel>(self, land: Terrain, after: Swarm) -> bool {
        &&& self.same_setup(after)
        &&& forall|i: int|
            0 <= i < self.population().len() ==> #[trigger] self.is_particle_step::<K>(
                land,
                after,
                i,
                Ok(()),
            )
        &&& self.is_stock_taken(after)
    }

    /// `after` is `self` after an iteration that broke off with the error
    /// `e` at particle `k`: the particles before it have made their step,
    /// particle `k` and those behind it are as they were, and so are the
    /// bests and the iteration count.
    pub open spec fn is_broken_iteration<K: Kernel>(
        self,
        land: Terrain,
        after: Swarm,
        k: int,
        e: TerrainError,
    ) -> bool {
        &&& self.same_setup(after)
        &&& 0 <= k < self.population().len()
        &&& forall|i: int|
            0 <= i < k ==> #[trigger] self.is_particle_step::<K>(land, after, i, Ok(()))
        &&& self.is_particle_step::<K>(land, after, k, Err(e))
        &&& forall|i: int|
            k <= i < self.population().len() ==> #[trigger] after.population()[i]
                == self.population()[i]
        &&& after.best() == self.best()
        &&& after.historic_best() == self.historic_best()
        &&& after.iteration() == self.iteration()
    }

    /// Deploys a swarm of `config.size` particles around the deploy
    /// position and takes stock of it. There must be at least one particle,
    /// and the position log of a particle must fit in `isize::MAX` bytes.
    pub fn new<K: Kernel, R: RandomSource>(
        ctx: Ctx,
        params: ParameterSet,
        config: SwarmConfig,
        controller: ParticleController,
        particle_config: ParticleConfig,
        terrain: &Terrain,
        random: &mut R,
    ) -> (r: Swarm)
        requires
            config.size > 0,
            particle_config.position_log_size * ENTRY_BYTES <= isize::MAX,
        ensures
            r.is_deployment::<K>(ctx, params, config, controller, particle_config, *terrain),
            r.can_step(),
    {
        let size = config.size;
        let unit = Vector::unit_x();

        let mut population: Vec<ParticleState> = Vec::new();
        let mut positions: Vec<Vector> = Vec::new();

        let mut i: usize = 0;
        while i < size
            invariant
                i <= size,
                size == config.size,
                particle_config.position_log_size * ENTRY_BYTES <= isize::MAX,
                unit == (Vector {
                    x: Scalar { bits: ONE_BITS },
                    y: Scalar { bits: ZERO_BITS },
                    z: Scalar { bits: ZERO_BITS },
                }),
                population.len() == i,
                forall|j: int|
                    0 <= j < i ==> is_deployed::<K>(
                        config,
                        particle_config,
                        controller,
                        #[trigger] population@[j],
                    ) && population@[j].collisions() == 0,
            decreases size - i,
        {
            let turn = random.next();
            let rotation_angle = Scalar::from_bits(FULL_TURN_BITS).times::<K>(turn);
            let stretch = random.next();
            let magnitude = config.deploy_spread_radius.times::<K>(stretch);

            let rotation_vec = unit.rotate_xz::<K>(rotation_angle);
            let spread = rotation_vec.mult::<K>(magnitude);
            let start_position = config.deploy_position.add::<K>(&spread);

            let v0 = rotation_vec.mult::<K>(config.initial_swarm_velocity);

            let particle = ParticleState::new::<K>(
                start_position,
                v0,
                particle_config.position_log_size,
                &controller,
            );
            proof {
                assert(is_product::<K>(Scalar { bits: FULL_TURN_BITS }, turn, rotation_angle));
                assert(is_product::<K>(config.deploy_spread_radius, stretch, magnitude));
                assert(rotation_vec.is_scaled::<K>(magnitude, spread));
                assert(is_deployed_drawn::<K>(
                    config,
                    particle_config,
                    controller,
                    turn,
                    stretch,
                    particle,
                ));
            }
            population.push(particle);
            i += 1;
        }

        let mut i: usize = 0;
        while i < size
            invariant
                i <= size,
                positions.len() == i,
            decreases size - i,
        {
            positions.push(Vector::new(Scalar::zero(), Scalar::zero(), Scalar::zero()));
            i += 1;
        }
        let initial_perf = population[0].get_performance();

        let mut swarm = Self {
            params,
            population,
            controller,
            positions,
            historic_best: initial_perf,
            best: initial_perf,
            ctx,
            iteration: 0,
            space_boundary: terrain.get_boundary(),
        };

        swarm.update_positions();
        swarm.update_bests();
        swarm
    }

    /// Moves every particle one step on, then takes stock: the positions,
    /// the best of the population, the historic best and the iteration
    /// count.
    ///
    /// Where the terrain has no height for a particle, the iteration breaks
    /// off there with the error.
    pub fn update<K: Kernel, R: RandomSource>(&mut self, terrain: &Terrain, random: &mut R) -> (r:
        Result<(), TerrainError>)
        requires
            old(self).well_formed(),
            old(self).can_step(),
            terrain.well_formed(),
        ensures
            final(self).well_formed(),
            match r {
                Ok(()) => old(self).is_iteration::<K>(*terrain, *final(self)),
                Err(e) => exists|k: int|
                    #![trigger old(self).is_particle_step::<K>(*terrain, *final(self), k, Err(e))]
                    old(self).is_broken_iteration::<K>(*terrain, *final(self), k, e),
            },
            !old(self).historic_best().score.nan() ==> old(self).ctx().strategy.no_worse(
                final(self).historic_best().score,
                old(self).historic_best().score,
            ) && !final(self).historic_best().score.nan(),
    {
        let g_best = self.best.position;
        let mut i: usize = 0;
        while i < self.population.len()
            invariant
                terrain.well_formed(),
                old(self).well_formed(),
                old(self).can_step(),
                g_best == old(self).best().position,
                i <= self.population.len(),
                old(self).same_setup(*self),
                self.positions == old(self).positions,
                self.best == old(self).best,
                self.historic_best == old(self).historic_best,
                self.iteration == old(self).iteration,
                forall|j: int|
                    0 <= j < i ==> #[trigger] old(self).is_particle_step::<K>(
                        *terrain,
                        *self,
                        j,
                        Ok(()),
                    ),
                forall|j: int|
                    i <= j < self.population.len() ==> #[trigger] self.population()[j] == old(
                        self,
                    ).population()[j],
            decreases self.population.len() - i,
        {
            let ghost before = *self;
            let step = self.controller.update::<K, R>(
                &mut self.population[i],
                g_best,
                &self.params,
                &self.space_boundary,
                terrain,
                random,
            );
            proof {
                assert(before.population()[i as int] == old(self).population()[i as int]);
                assert(old(self).is_particle_step::<K>(*terrain, *self, i as int, step));
                assert forall|j: int| 0 <= j < i implies #[trigger] old(self).is_particle_step::<K>(
                    *terrain,
                    *self,
                    j,
                    Ok(()),
                ) by {
                    assert(old(self).is_particle_step::<K>(*terrain, before, j, Ok(())));
                    assert(self.population()[j] == before.population()[j]);
                }
            }
            match step {
                Ok(()) => {},
                Err(e) => {
                    let ghost stepped = *self;
                    self.update_positions();
                    proof {
                        assert forall|j: int| 0 <= j < i implies #[trigger] old(self).is_particle_step::<
                            K,
                        >(*terrain, *self, j, Ok(())) by {
                            assert(old(self).is_particle_step::<K>(*terrain, stepped, j, Ok(())));
                        }
                        assert(old(self).is_particle_step::<K>(*terrain, stepped, i as int, Err(e)));
                        assert forall|j: int|
                            i <= j < self.population.len() implies #[trigger] self.population()[j]
                            == old(self).population()[j] by {
                            if j > i {
                                assert(before.population()[j] == old(self).population()[j]);
                            }
                        }
                        assert(old(self).is_broken_iteration::<K>(*terrain, *self, i as int, e));
                    }
                    return Err(e);
                },
            }
            i += 1;
        }
        let ghost stepped = *self;
        self.update_positions();
        self.update_bests();
        self.iteration += 1;
        proof {
            assert forall|j: int| 0 <= j < old(self).population().len() implies #[trigger] old(
                self,
            ).is_particle_step::<K>(*terrain, *self, j, Ok(())) by {
                assert(old(self).is_particle_step::<K>(*terrain, stepped, j, Ok(())));
            }
        }
        Ok(())
    }

    /// Brings the kept positions in line with the particles.
    fn update_positions(&mut self)
        requires
            old(self).positions().len() == old(self).population().len(),
        ensures
            final(self).positions().len() == final(self).population().len(),
            forall|i: int|
                0 <= i < final(self).population().len() ==> #[trigger] final(self).positions()[i]
                    == final(self).population()[i].position(),
            final(self).population == old(self).population,
            final(self).ctx == old(self).ctx,
            final(self).params == old(self).params,
            final(self).controller == old(self).controller,
            final(self).best == old(self).best,
            final(self).historic_best == old(self).historic_best,
            final(self).iteration == old(self).iteration,
            final(self).space_boundary == old(self).space_boundary,
    {
        let mut i: usize = 0;
        while i < self.population.len()
            invariant
                i <= self.population.len(),
                self.positions.len() == self.population.len(),
                forall|j: int|
                    0 <= j < i ==> #[trigger] self.positions@[j] == self.population@[j].position(),
                self.population == old(self).population,
                self.ctx == old(self).ctx,
                self.params == old(self).params,
                self.controller == old(self).controller,
                self.best == old(self).best,
                self.historic_best == old(self).historic_best,
                self.iteration == old(self).iteration,
                self.space_boundary == old(self).space_boundary,
            decreases self.population.len() - i,
        {
            let position = self.population[i].get_position();
            self.positions.set(i, position);
            i += 1;
        }
    }

    /// Finds the best result of the population as it stands, makes it the
    /// best, and sets it against the historic best.
    fn update_bests(&mut self)
        requires
            old(self).population().len() > 0,
        ensures
            final(self).best() == old(self).ctx().strategy.best_of(
                performances(old(self).population()),
            ),
            final(self).historic_best() == old(self).ctx().strategy.spec_pick_best_performance(
                final(self).best(),
                old(self).historic_best(),
            ),
            final(self).population == old(self).population,
            final(self).positions == old(self).positions,
            final(self).ctx == old(self).ctx,
            final(self).params == old(self).params,
            final(self).controller == old(self).controller,
            final(self).iteration == old(self).iteration,
            final(self).space_boundary == old(self).space_boundary,
    {
        self.best = self.find_best();

        let historic_best = self.ctx.get_strategy().pick_best_performance(
            &self.best,
            &self.historic_best,
        );
        self.historic_best = historic_best;
    }

    /// The result of the particle that does best at present. Of particles
    /// that tie, the first one is the best.
    fn find_best(&self) -> (r: Performance)
        requires
            self.population().len() > 0,
        ensures
            r == self.ctx().strategy.best_of(performances(self.population())),
    {
        let mut best = self.population[0].get_performance();
        let ghost all = performances(self.population());
        assert(all.subrange(0, 1).len() == 1);
        assert(all.subrange(0, 1)[0] == all[0]);

        let mut i: usize = 1;
        while i < self.population.len()
            invariant
                1 <= i <= self.population.len(),
                all == performances(self.population()),
                best == self.ctx().strategy.best_of(all.subrange(0, i as int)),
            decreases self.population.len() - i,
        {
            let performance = self.population[i].get_performance();
            proof {
                let seen = all.subrange(0, i + 1);
                assert(seen.drop_last() =~= all.subrange(0, i as int));
                assert(seen.last() == performance);
            }
            best = self.ctx.get_strategy().pick_best_performance(&performance, &best);
            i += 1;
        }
        assert(all.subrange(0, i as int) =~= all);
        best
    }

    pub fn set_params(&mut self, params: ParameterSet)
        ensures
            final(self).params() == params,
            final(self).ctx() == old(self).ctx(),
            final(self).controller() == old(self).controller(),
            final(self).population() == old(self).population(),
            final(self).positions() == old(self).positions(),
            final(self).best() == old(self).best(),
            final(self).historic_best() == old(self).historic_best(),
            final(self).iteration() == old(self).iteration(),
            final(self).space_boundary() == old(self).space_boundary(),
    {
        self.params = params
    }

    pub fn get_best(&self) -> (r: Performance)
        ensures
            r == self.best(),
    {
        self.best
    }

    pub fn get_historic_best(&self) -> (r: Performance)
        ensures
            r == self.historic_best(),
    {
        self.historic_best
    }

    pub fn get_population_size(&self) -> (r: usize)
        ensures
            r == self.positions().len(),
    {
        self.positions.len()
    }

    pub fn get_iteration(&self) -> (r: u64)
        ensures
            r == self.iteration(),
    {
        self.iteration
    }

    /// Whether another iteration may be asked for: see `can_step`.
    pub fn is_ready(&self) -> (r: bool)
        ensures
            r == self.can_step(),
    {
        if self.iteration == u64::MAX {
            return false;
        }
        let mut i: usize = 0;
        while i < self.population.len()
            invariant
                i <= self.population.len(),
                forall|j: int|
                    0 <= j < i ==> (#[trigger] self.population()[j]).collisions() < usize::MAX,
            decreases self.population.len() - i,
        {
            if self.population[i].get_collisions() == usize::MAX {
                assert(!(self.population()[i as int].collisions() < usize::MAX));
                return false;
            }
            i += 1;
        }
        true
    }

    /// The position of particle `idx`, which must be one of the swarm.
    pub fn get_position_by_idx(&self, idx: usize) -> (r: Vector)
        requires
            idx < self.positions().len(),
        ensures
            r == self.positions()[idx as int],
    {
        self.positions[idx]
    }

    /// Particle `idx`, which must be one of the swarm.
    pub fn get_particle(&self, idx: usize) -> (r: &ParticleState)
        requires
            idx < self.population().len(),
        ensures
            *r == self.population()[idx as int],
    {
        &self.population[idx]
    }

    pub fn get_positions(&self) -> (r: &Vec<Vector>)
        ensures
            r@ == self.positions(),
    {
        &self.positions
    }
}

/// Particles that are alike have the same results.
proof fn lemma_performances_alike(first: Seq<ParticleState>, second: Seq<ParticleState>)
    requires
        first.len() == second.len(),
        forall|i: int| 0 <= i < first.len() ==> (#[trigger] first[i]).same_as(second[i]),
    ensures
        performances(first) == performances(second),
{
    assert(performances(first) =~= performances(second));
}

/// On a deterministic kernel the random weights determine how a particle is
/// deployed.
pub proof fn lemma_deployed_determined<K: Kernel>(
    config: SwarmConfig,
    particle_config: ParticleConfig,
    controller: ParticleController,
    turn: Scalar,
    stretch: Scalar,
    first: ParticleState,
    second: ParticleState,
)
    requires
        deterministic::<K>(),
        is_deployed_drawn::<K>(config, particle_config, controller, turn, stretch, first),
        is_deployed_drawn::<K>(config, particle_config, controller, turn, stretch, second),
    ensures
        first.same_as(second),
{
    let full_turn = Scalar { bits: FULL_TURN_BITS };
    let unit = Vector {
        x: Scalar { bits: ONE_BITS },
        y: Scalar { bits: ZERO_BITS },
        z: Scalar { bits: ZERO_BITS },
    };
    let (angle1, radius1, heading1, spread1) = choose|
        angle: Scalar,
        radius: Scalar,
        heading: Vector,
        spread: Vector,
    |
        {
            &&& #[trigger] is_product::<K>(full_turn, turn, angle)
            &&& #[trigger] is_product::<K>(config.deploy_spread_radius, stretch, radius)
            &&& unit.is_rotation_xz::<K>(angle, heading)
            &&& #[trigger] heading.is_scaled::<K>(radius, spread)
            &&& heading.is_scaled::<K>(config.initial_swarm_velocity, first.velocity())
            &&& config.deploy_position.is_sum::<K>(spread, first.position())
            &&& first.is_fresh::<K>(
                first.position(),
                first.velocity(),
                particle_config.position_log_size,
                controller,
            )
        };
    let (angle2, radius2, heading2, spread2) = choose|
        angle: Scalar,
        radius: Scalar,
        heading: Vector,
        spread: Vector,
    |
        {
            &&& #[trigger] is_product::<K>(full_turn, turn, angle)
            &&& #[trigger] is_product::<K>(config.deploy_spread_radius, stretch, radius)
            &&& unit.is_rotation_xz::<K>(angle, heading)
            &&& #[trigger] heading.is_scaled::<K>(radius, spread)
            &&& heading.is_scaled::<K>(config.initial_swarm_velocity, second.velocity())
            &&& config.deploy_position.is_sum::<K>(spread, second.position())
            &&& second.is_fresh::<K>(
                second.position(),
                second.velocity(),
                particle_config.position_log_size,
                controller,
            )
        };
    assert(angle1 == angle2);
    assert(radius1 == radius2);
    lemma_vector_operations_determined::<K>(unit, unit, angle1, heading1, heading2);
    lemma_vector_operations_determined::<K>(heading1, unit, radius1, spread1, spread2);
    lemma_vector_operations_determined::<K>(
        heading1,
        unit,
        config.initial_swarm_velocity,
        first.velocity(),
        second.velocity(),
    );
    lemma_vector_operations_determined::<K>(
        config.deploy_position,
        spread1,
        radius1,
        first.position(),
        second.position(),
    );
    let at = first.position();
    match controller.ctx().goal {
        Goal::Ackley => {
            assert(is_ackley::<K>(at.x, at.z, first.score()));
            assert(is_ackley::<K>(at.x, at.z, second.score()));
        },
        Goal::Griewank => {
            assert(is_griewank::<K>(at.x, at.z, first.score()));
            assert(is_griewank::<K>(at.x, at.z, second.score()));
        },
    }
}

/// An iteration has its random weights: what `is_iteration` says of some
/// weights, `is_iteration_drawn` says of a sequence of them.
pub proof fn lemma_iteration_has_draws<K: Kernel>(before: Swarm, land: Terrain, after: Swarm)
    requires
        before.is_iteration::<K>(land, after),
    ensures
        exists|draws: Seq<(Scalar, Scalar)>| #[trigger]
            before.is_iteration_drawn::<K>(land, draws, after),
{
    let draws = Seq::new(
        before.population().len(),
        |i: int|
            choose|r1: Scalar, r2: Scalar| #[trigger]
                before.controller().is_step_drawn::<K>(
                    before.population()[i],
                    before.best().position,
                    before.params(),
                    before.space_boundary(),
                    land,
                    r1,
                    r2,
                    after.population()[i],
                    Ok(()),
                ),
    );
    assert forall|i: int| 0 <= i < before.population().len() implies #[trigger]
        before.is_particle_step_drawn::<K>(land, draws[i], after, i, Ok(())) by {
        assert(before.is_particle_step::<K>(land, after, i, Ok(())));
    }
    assert(before.is_iteration_drawn::<K>(land, draws, after));
}

/// On a deterministic kernel an iteration is determined by the swarm, the
/// terrain and the random weights: from swarms that are alike, over terrains
/// that are alike, iterations with the same weights lead to swarms that are
/// alike.
pub proof fn lemma_iteration_determined<K: Kernel>(
    before1: Swarm,
    before2: Swarm,
    land1: Terrain,
    land2: Terrain,
    draws: Seq<(Scalar, Scalar)>,
    after1: Swarm,
    after2: Swarm,
)
    requires
        deterministic::<K>(),
        before1.same_as(before2),
        land1.same_as(land2),
        before1.is_iteration_drawn::<K>(land1, draws, after1),
        before2.is_iteration_drawn::<K>(land2, draws, after2),
        after1.well_formed(),
        after2.well_formed(),
    ensures
        after1.same_as(after2),
{
    assert forall|i: int| 0 <= i < after1.population().len() implies (#[trigger]
        after1.population()[i]).same_as(after2.population()[i]) by {
        assert(before1.is_particle_step_drawn::<K>(land1, draws[i], after1, i, Ok(())));
        assert(before2.is_particle_step_drawn::<K>(land2, draws[i], after2, i, Ok(())));
        assert(before1.population()[i].same_as(before2.population()[i]));
        lemma_step_determined::<K>(
            before1.controller(),
            before1.population()[i],
            before2.population()[i],
            before1.best().position,
            before1.params(),
            before1.space_boundary(),
            land1,
            land2,
            draws[i].0,
            draws[i].1,
            after1.population()[i],
            after2.population()[i],
            Ok(()),
            Ok(()),
        );
    }
    lemma_performances_alike(after1.population(), after2.population());
    assert(after1.positions() =~= after2.positions()) by {
        assert forall|i: int| 0 <= i < after1.positions().len() implies after1.positions()[i]
            == after2.positions()[i] by {
            assert(after1.population()[i].same_as(after2.population()[i]));
        }
    }
}

/// On a deterministic kernel a run is determined by the swarm it starts
/// from, the terrain and the random weights: from swarms that are alike,
/// over terrains that are alike, runs with the same weights end in swarms
/// that are alike.
pub proof fn lemma_run_determined<K: Kernel>(
    before1: Swarm,
    before2: Swarm,
    land1: Terrain,
    land2: Terrain,
    rounds: Seq<Seq<(Scalar, Scalar)>>,
    after1: Swarm,
    after2: Swarm,
)
    requires
        deterministic::<K>(),
        before1.same_as(before2),
        land1.same_as(land2),
        before1.is_run_drawn::<K>(land1, rounds, after1),
        before2.is_run_drawn::<K>(land2, rounds, after2),
        after1.well_formed(),
        after2.well_formed(),
    ensures
        after1.same_as(after2),
    decreases rounds.len(),
{
    if rounds.len() > 0 {
        let between1 = choose|between: Swarm|
            {
                &&& before1.is_run_drawn::<K>(land1, rounds.drop_last(), between)
                &&& between.well_formed()
                &&& #[trigger] between.is_iteration_drawn::<K>(land1, rounds.last(), after1)
            };
        let between2 = choose|between: Swarm|
            {
                &&& before2.is_run_drawn::<K>(land2, rounds.drop_last(), between)
                &&& between.well_formed()
                &&& #[trigger] between.is_iteration_drawn::<K>(land2, rounds.last(), after2)
            };
        lemma_run_determined::<K>(
            before1,
            before2,
            land1,
            land2,
            rounds.drop_last(),
            between1,
            between2,
        );
        lemma_iteration_determined::<K>(
            between1,
            between2,
            land1,
            land2,
            rounds.last(),
            after1,
            after2,
        );
    }
}

/// A deployment has its random weights: what `is_deployment` says of some
/// weights, `is_deployment_drawn` says of a sequence of them.
pub proof fn lemma_deployment_has_draws<K: Kernel>(
    swarm: Swarm,
    ctx: Ctx,
    params: ParameterSet,
    config: SwarmConfig,
    controller: ParticleController,
    particle_config: ParticleConfig,
    land: Terrain,
)
    requires
        swarm.is_deployment::<K>(ctx, params, config, controller, particle_config, land),
    ensures
        exists|draws: Seq<(Scalar, Scalar)>| #[trigger]
            swarm.is_deployment_drawn::<K>(
                ctx,
                params,
                config,
                controller,
                particle_config,
                land,
                draws,
            ),
{
    let draws = Seq::new(
        config.size as nat,
        |i: int|
            choose|turn: Scalar, stretch: Scalar| #[trigger]
                is_deployed_drawn::<K>(
                    config,
                    particle_config,
                    controller,
                    turn,
                    stretch,
                    swarm.population()[i],
                ),
    );
    assert forall|i: int| 0 <= i < config.size implies is_deployed_drawn::<K>(
        config,
        particle_config,
        controller,
        draws[i].0,
        draws[i].1,
        #[trigger] swarm.population()[i],
    ) by {
        assert(is_deployed::<K>(config, particle_config, controller, swarm.population()[i]));
    }
    assert(swarm.is_deployment_drawn::<K>(
        ctx,
        params,
        config,
        controller,
        particle_config,
        land,
        draws,
    ));
}

/// On a deterministic kernel a deployment is determined by the
/// configuration and the random weights: swarms deployed from the same
/// configuration with the same weights, over terrains that are alike, are
/// alike.
pub proof fn lemma_deployment_determined<K: Kernel>(
    first: Swarm,
    second: Swarm,
    ctx: Ctx,
    params: ParameterSet,
    config: SwarmConfig,
    controller: ParticleController,
    particle_config: ParticleConfig,
    land1: Terrain,
    land2: Terrain,
    draws: Seq<(Scalar, Scalar)>,
)
    requires
        deterministic::<K>(),
        land1.same_as(land2),
        first.is_deployment_drawn::<K>(
            ctx,
            params,
            config,
            controller,
            particle_config,
            land1,
            draws,
        ),
        second.is_deployment_drawn::<K>(
            ctx,
            params,
            config,
            controller,
            particle_config,
            land2,
            draws,
        ),
    ensures
        first.same_as(second),
{
    assert forall|i: int| 0 <= i < first.population().len() implies (#[trigger]
        first.population()[i]).same_as(second.population()[i]) by {
        assert(is_deployed_drawn::<K>(
            config,
            particle_config,
            controller,
            draws[i].0,
            draws[i].1,
            second.population()[i],
        ));
        lemma_deployed_determined::<K>(
            config,
            particle_config,
            controller,
            draws[i].0,
            draws[i].1,
            first.population()[i],
            second.population()[i],
        );
    }
    lemma_performances_alike(first.population(), second.population());
    assert(first.population()[0].same_as(second.population()[0]));
    assert(first.positions() =~= second.positions()) by {
        assert forall|i: int| 0 <= i < first.positions().len() implies first.positions()[i]
            == second.positions()[i] by {
            assert(first.population()[i].same_as(second.population()[i]));
        }
    }
}

/// Across the iterations of a run the historic best never gets worse: when
/// minimizing its score never rises, when maximizing it never falls. This
/// holds of a historic best whose score is a number.
pub proof fn lemma_historic_best_never_worsens<K: Kernel>(
    before: Swarm,
    land: Terrain,
    rounds: Seq<Seq<(Scalar, Scalar)>>,
    after: Swarm,
)
    requires
        before.is_run_drawn::<K>(land, rounds, after),
        !before.historic_best().score.nan(),
    ensures
        after.ctx() == before.ctx(),
        !after.historic_best().score.nan(),
        before.ctx().strategy.no_worse(
            after.historic_best().score,
            before.historic_best().score,
        ),
    decreases rounds.len(),
{
    if rounds.len() > 0 {
        let between = choose|between: Swarm|
            {
                &&& before.is_run_drawn::<K>(land, rounds.drop_last(), between)
                &&& between.well_formed()
                &&& #[trigger] between.is_iteration_drawn::<K>(land, rounds.last(), after)
            };
        lemma_historic_best_never_worsens::<K>(before, land, rounds.drop_last(), between);
        lemma_record_never_worsens(between.ctx().strategy, after.best(), between.historic_best());
    }
}

} // verus!
