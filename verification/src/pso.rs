//! The particle-swarm optimizer: its configuration records, the particles,
//! their collision sensor and the swarm.
use vstd::prelude::*;
use crate::goal::{Goal, Strategy};
use crate::scalar::Scalar;
use crate::space::Vector;

pub mod history;
pub mod particle;
pub mod sensor;
pub mod swarm;

pub use swarm::Swarm;

verus! {

/// The problem a run works on: the objective and the direction of the
/// search. It does not change during a run.
#[derive(Clone, Copy, Debug)]
pub struct Ctx {
    pub goal: Goal,
    pub strategy: Strategy,
}

impl Ctx {
    pub fn new(goal: Goal, strategy: Strategy) -> (r: Ctx)
        ensures
            r == (Ctx { goal, strategy }),
    {
        Self { goal, strategy }
    }

    pub fn get_goal(&self) -> (r: Goal)
        ensures
            r == self.goal,
    {
        self.goal
    }

    pub fn get_strategy(&self) -> (r: Strategy)
        ensures
            r == self.strategy,
    {
        self.strategy
    }
}

/// The weights of the velocity update.
#[derive(Clone, Copy, Debug)]
pub struct ParameterSet {
    /// Inertia: the weight of the current velocity.
    pub w: Scalar,
    /// The pull of the particle's own best position.
    pub c1: Scalar,
    /// The pull of the swarm's best position.
    pub c2: Scalar,
    /// The pull of the collision-avoidance position.
    pub c3: Scalar,
    /// The largest speed a particle may take.
    pub max_velocity: Scalar,
}

impl ParameterSet {
    pub fn new(w: Scalar, c1: Scalar, c2: Scalar, c3: Scalar, max_velocity: Scalar) -> (r:
        ParameterSet)
        ensures
            r == (ParameterSet { w, c1, c2, c3, max_velocity }),
    {
        Self { w, c1, c2, c3, max_velocity }
    }
}

/// The parameters of the collision sensor.
#[derive(Clone, Copy, Debug)]
pub struct SensorConfig {
    /// How far ahead the sensor looks.
    pub range: Scalar,
    /// The distance between two points the sensor checks along a ray.
    pub linear_step_size: Scalar,
    /// The angle of the sector the sensor sweeps.
    pub fov_angle: Scalar,
    /// The angle below which the sweep stops dividing the sector.
    pub angular_step_size: Scalar,
}

impl SensorConfig {
    pub fn new(
        range: Scalar,
        linear_step_size: Scalar,
        fov_angle: Scalar,
        angular_step_size: Scalar,
    ) -> (r: SensorConfig)
        ensures
            r == (SensorConfig { range, linear_step_size, fov_angle, angular_step_size }),
    {
        Self { range, linear_step_size, fov_angle, angular_step_size }
    }
}

#[derive(Clone, Copy, Debug)]
pub struct ControllerConfig {
    pub collision: SensorConfig,
}

impl ControllerConfig {
    pub fn new(sensor: SensorConfig) -> (r: ControllerConfig)
        ensures
            r == (ControllerConfig { collision: sensor }),
    {
        Self { collision: sensor }
    }
}

#[derive(Clone, Copy, Debug)]
pub struct SwarmConfig {
    /// The number of particles.
    pub size: usize,
    /// The point the particles are deployed around.
    pub deploy_position: Vector,
    /// How far from that point a particle may start.
    pub deploy_spread_radius: Scalar,
    /// The speed every particle starts with.
    pub initial_swarm_velocity: Scalar,
}

impl SwarmConfig {
    pub fn new(
        size: usize,
        deploy_position: Vector,
        deploy_spread_radius: Scalar,
        initial_swarm_velocity: Scalar,
    ) -> (r: SwarmConfig)
        ensures
            r == (SwarmConfig {
                size,
                deploy_position,
                deploy_spread_radius,
                initial_swarm_velocity,
            }),
    {
        Self { size, deploy_position, deploy_spread_radius, initial_swarm_velocity }
    }
}

#[derive(Clone, Copy, Debug)]
pub struct ParticleConfig {
    /// How many past positions a particle keeps.
    pub position_log_size: usize,
}

impl ParticleConfig {
    pub fn new(position_log_size: usize) -> (r: ParticleConfig)
        ensures
            r == (ParticleConfig { position_log_size }),
    {
        Self { position_log_size }
    }
}

} // verus!
