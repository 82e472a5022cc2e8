//! A particle-swarm search over a two-dimensional objective, run by agents
//! that steer clear of a procedurally generated terrain.
//!
//! Every number the engine handles is a binary64 value carried as its bit
//! pattern (see [`scalar::Scalar`]). Comparisons are decided here, on the
//! bits; arithmetic, noise and the objective surfaces are supplied by the
//! embedding program through [`kernel::Kernel`], and the contracts say which
//! kernel operations produced each result.
//!
//! Nothing is assumed of a kernel. What holds only of a kernel whose
//! operations are functions is stated apart, in the proof functions named
//! `lemma_.._determined`: there the random weights decide everything.
use vstd::prelude::*;
use crate::goal::{Goal, GoalSurface};
use crate::kernel::{deterministic, Kernel, RandomSource};
use crate::pso::history::ENTRY_BYTES;
use crate::pso::particle::{lemma_controller_determined, ParticleController};
use crate::pso::swarm::{lemma_deployment_determined, lemma_run_determined};
use crate::scalar::Scalar;
use crate::terrain::{lemma_terrain_determined, TerrainError};

pub mod goal;
pub mod kernel;
pub mod physics;
pub mod pso;
pub mod scalar;
pub mod space;
pub mod terrain;
pub mod utils;

verus! {

/// Everything a simulation is set up from.
#[derive(Clone, Copy, Debug)]
pub struct SimConfig {
    pub params: pso::ParameterSet,
    pub terrain: terrain::Config,
    pub controller: pso::ControllerConfig,
    pub swarm: pso::SwarmConfig,
    pub ctx: pso::Ctx,
    pub particle: pso::ParticleConfig,
}

impl SimConfig {
    /// A simulation can be set up from this configuration: the swarm has at
    /// least one particle, and the position log of a particle fits in
    /// `isize::MAX` bytes.
    pub open spec fn runnable(self) -> bool {
        self.swarm.size > 0 && self.particle.position_log_size * ENTRY_BYTES <= isize::MAX
    }

    pub fn new(
        params: pso::ParameterSet,
        terrain: terrain::Config,
        controller: pso::ControllerConfig,
        swarm: pso::SwarmConfig,
        ctx: pso::Ctx,
        particle: pso::ParticleConfig,
    ) -> (r: SimConfig)
        ensures
            r == (SimConfig { params, terrain, controller, swarm, ctx, particle }),
    {
        Self { params, terrain, controller, swarm, ctx, particle }
    }

    pub fn is_runnable(&self) -> (r: bool)
        ensures
            r == self.runnable(),
    {
        self.swarm.size > 0 && self.particle.position_log_size <= isize::MAX as usize
            / ENTRY_BYTES
    }
}

/// A terrain and a swarm that searches over it.
#[derive(Debug)]
pub struct Simulator {
    swarm: pso::Swarm,
    terrain: terrain::Terrain,
    config: SimConfig,
    goal: Goal,
}

impl Simulator {
    pub closed spec fn swarm(self) -> pso::Swarm {
        self.swarm
    }

    pub closed spec fn terrain(self) -> terrain::Terrain {
        self.terrain
    }

    /// The configuration the next reset will use.
    pub closed spec fn config(self) -> SimConfig {
        self.config
    }

    /// The objective of the running swarm.
    pub closed spec fn goal(self) -> Goal {
        self.goal
    }

    pub open spec fn well_formed(self) -> bool {
        self.swarm().well_formed() && self.terrain().well_formed()
    }

    /// `self` has just been set up from `config`: the terrain is built, and
    /// the swarm is deployed over it and has taken stock.
    pub open spec fn is_set_up<K: Kernel>(self, config: SimConfig) -> bool {
        &&& self.config() == config
        &&& self.goal() == config.ctx.goal
        &&& self.terrain().is_built::<K>(config.terrain)
        &&& self.swarm().can_step()
        &&& self.swarm().controller().is_configured::<K>(config.ctx, config.controller)
        &&& self.swarm().is_deployment::<K>(
            config.ctx,
            config.params,
            config.swarm,
            self.swarm().controller(),
            config.particle,
            self.terrain(),
        )
    }

    /// `self` has just been set up from `config`, and particle `i` of the
    /// swarm was deployed with the random weights `draws[i]`.
    pub open spec fn is_set_up_drawn<K: Kernel>(
        self,
        config: SimConfig,
        draws: Seq<(Scalar, Scalar)>,
    ) -> bool {
        &&& self.config() == config
        &&& self.goal() == config.ctx.goal
        &&& self.terrain().is_built::<K>(config.terrain)
        &&& self.swarm().controller().is_configured::<K>(config.ctx, config.controller)
        &&& self.swarm().is_deployment_drawn::<K>(
            config.ctx,
            config.params,
            config.swarm,
            self.swarm().controller(),
            config.particle,
            self.terrain(),
            draws,
        )
    }

    /// Builds the terrain and deploys the swarm that `config` describes.
    pub fn new<K: Kernel, R: RandomSource>(config: SimConfig, random: &mut R) -> (r: Simulator)
        requires
            config.runnable(),
        ensures
            r.well_formed(),
            r.is_set_up::<K>(config),
    {
        let terrain = terrain::Terrain::new::<K>(config.terrain);
        let controller = ParticleController::new_from_config::<K>(config.ctx, config.controller);
        let swarm = pso::Swarm::new::<K, R>(
            config.ctx,
            config.params,
            config.swarm,
            controller,
            config.particle,
            &terrain,
            random,
        );

        Self { swarm, terrain, config, goal: config.ctx.goal }
    }

    /// Puts new weights into the configuration. The running swarm keeps its
    /// own until the next reset.
    pub fn update_pso_params(&mut self, params: pso::ParameterSet)
        ensures
            final(self).config() == (SimConfig { params, ..old(self).config() }),
            final(self).swarm() == old(self).swarm(),
            final(self).terrain() == old(self).terrain(),
            final(self).goal() == old(self).goal(),
    {
        self.config.params = params;
    }

    /// Builds the terrain and the swarm anew from the current
    /// configuration.
    pub fn reset<K: Kernel, R: RandomSource>(&mut self, random: &mut R)
        requires
            old(self).config().runnable(),
        ensures
            final(self).well_formed(),
            final(self).is_set_up::<K>(old(self).config()),
    {
        let config = self.config;

        let terrain = terrain::Terrain::new::<K>(config.terrain);
        let controller = ParticleController::new_from_config::<K>(config.ctx, config.controller);
        let swarm = pso::Swarm::new::<K, R>(
            config.ctx,
            config.params,
            config.swarm,
            controller,
            config.particle,
            &terrain,
            random,
        );
        self.swarm = swarm;
        self.terrain = terrain;
        self.goal = config.ctx.goal;
    }

    /// Advances the swarm by one iteration.
    pub fn step<K: Kernel, R: RandomSource>(&mut self, random: &mut R) -> (r: Result<
        (),
        TerrainError,
    >)
        requires
            old(self).well_formed(),
            old(self).swarm().can_step(),
        ensures
            final(self).well_formed(),
            final(self).terrain() == old(self).terrain(),
            final(self).config() == old(self).config(),
            final(self).goal() == old(self).goal(),
            match r {
                Ok(()) => old(self).swarm().is_iteration::<K>(old(self).terrain(), final(self).swarm()),
                Err(e) => exists|k: int| #[trigger]
                    old(self).swarm().is_broken_iteration::<K>(
                        old(self).terrain(),
                        final(self).swarm(),
                        k,
                        e,
                    ),
            },
            !old(self).swarm().historic_best().score.nan() ==> old(
                self,
            ).swarm().ctx().strategy.no_worse(
                final(self).swarm().historic_best().score,
                old(self).swarm().historic_best().score,
            ),
    {
        self.swarm.update::<K, R>(&self.terrain, random)
    }

    /// Whether `step` may be called: the counters of the swarm have room.
    pub fn can_step(&self) -> (r: bool)
        ensures
            r == self.swarm().can_step(),
    {
        self.swarm.is_ready()
    }

    pub fn get_goal(&self) -> (r: Goal)
        ensures
            r == self.goal(),
    {
        self.goal
    }

    pub fn get_goal_surface<K: Kernel>(&self) -> (r: GoalSurface)
        ensures
            r.goal() == self.goal(),
            r.is_spanning::<K>(self.config().terrain.size),
    {
        GoalSurface::new::<K>(self.goal, self.config.terrain.size)
    }

    pub fn get_config(&self) -> (r: SimConfig)
        ensures
            r == self.config(),
    {
        self.config
    }

    /// The point of the terrain above the parameters `(u, v)`.
    pub fn parametric_terrain_eval<K: Kernel>(&self, u: Scalar, v: Scalar) -> (r: Result<
        space::Vector,
        TerrainError,
    >)
        requires
            self.well_formed(),
        ensures
            self.terrain().is_surface_point::<K>(u, v, r),
    {
        self.terrain.get_point_from_parametric::<K>(u, v)
    }

    /// The number of particles the configuration asks for.
    pub fn get_swarm_size(&self) -> (r: usize)
        ensures
            r == self.config().swarm.size,
    {
        self.config.swarm.size
    }

    /// The position of particle `id`, which must be one of the swarm.
    pub fn get_particle_position_by_idx(&self, id: usize) -> (r: space::Vector)
        requires
            id < self.swarm().positions().len(),
        ensures
            r == self.swarm().positions()[id as int],
    {
        self.swarm.get_position_by_idx(id)
    }

    /// Replaces the configuration. The running terrain and swarm stay until
    /// the next reset.
    pub fn set_config(&mut self, config: SimConfig)
        ensures
            final(self).config() == config,
            final(self).swarm() == old(self).swarm(),
            final(self).terrain() == old(self).terrain(),
            final(self).goal() == old(self).goal(),
    {
        self.config = config;
    }

    pub fn get_swarm(&self) -> (r: &pso::Swarm)
        ensures
            *r == self.swarm(),
    {
        &self.swarm
    }

    pub fn get_terrain(&self) -> (r: &terrain::Terrain)
        ensures
            *r == self.terrain(),
    {
        &self.terrain
    }
}

/// With a deterministic kernel and a fixed sequence of random weights, two
/// runs from the same configuration go the same way: the terrains are
/// alike, the swarms are alike when deployed, and they are alike after any
/// number of completed iterations.
pub proof fn lemma_simulation_determined<K: Kernel>(
    first: Simulator,
    second: Simulator,
    config: SimConfig,
    draws: Seq<(Scalar, Scalar)>,
    rounds: Seq<Seq<(Scalar, Scalar)>>,
    after1: pso::Swarm,
    after2: pso::Swarm,
)
    requires
        deterministic::<K>(),
        first.is_set_up_drawn::<K>(config, draws),
        second.is_set_up_drawn::<K>(config, draws),
        first.swarm().is_run_drawn::<K>(first.terrain(), rounds, after1),
        second.swarm().is_run_drawn::<K>(second.terrain(), rounds, after2),
        after1.well_formed(),
        after2.well_formed(),
    ensures
        first.terrain().same_as(second.terrain()),
        first.swarm().same_as(second.swarm()),
        after1.same_as(after2),
{
    lemma_terrain_determined::<K>(first.terrain(), second.terrain(), config.terrain);
    lemma_controller_determined::<K>(
        first.swarm().controller(),
        second.swarm().controller(),
        config.ctx,
        config.controller,
    );
    lemma_deployment_determined::<K>(
        first.swarm(),
        second.swarm(),
        config.ctx,
        config.params,
        config.swarm,
        first.swarm().controller(),
        config.particle,
        first.terrain(),
        second.terrain(),
        draws,
    );
    lemma_run_determined::<K>(
        first.swarm(),
        second.swarm(),
        first.terrain(),
        second.terrain(),
        rounds,
        after1,
        after2,
    );
}

} // verus!
