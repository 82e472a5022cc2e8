use ka::SingleObjective;
use rdpso_sim::goal::{Goal, Strategy};
use rdpso_sim::kernel::{Kernel, RandomSource};
use rdpso_sim::pso::particle::ParticleController;
use rdpso_sim::pso::{
    ControllerConfig, Ctx, ParameterSet, ParticleConfig, SensorConfig, Swarm, SwarmConfig,
};
use rdpso_sim::scalar::Scalar;
use rdpso_sim::space::Vector;
use rdpso_sim::terrain::{Config, Terrain, TerrainError};
use rdpso_sim::utils::{gen_random, gen_random_range};
use rdpso_sim::{SimConfig, Simulator};
use std::f64::consts::{PI, TAU};

fn s(x: f64) -> Scalar {
    Scalar::from_bits(x.to_bits())
}

fn f(x: Scalar) -> f64 {
    f64::from_bits(x.to_bits())
}

fn v(x: f64, y: f64, z: f64) -> Vector {
    Vector::new(s(x), s(y), s(z))
}

fn bits(a: Vector) -> (u64, u64, u64) {
    (a.x.to_bits(), a.y.to_bits(), a.z.to_bits())
}

fn same(a: Vector, x: f64, y: f64, z: f64) -> bool {
    bits(a) == (x.to_bits(), y.to_bits(), z.to_bits())
}

fn add(a: Scalar, b: Scalar) -> Scalar {
    s(f(a) + f(b))
}

fn sub(a: Scalar, b: Scalar) -> Scalar {
    s(f(a) - f(b))
}

fn mul(a: Scalar, b: Scalar) -> Scalar {
    s(f(a) * f(b))
}

fn div(a: Scalar, b: Scalar) -> Scalar {
    s(f(a) / f(b))
}

fn sqrt(a: Scalar) -> Scalar {
    s(f(a).sqrt())
}

fn sin(a: Scalar) -> Scalar {
    s(f(a).sin())
}

fn cos(a: Scalar) -> Scalar {
    s(f(a).cos())
}

fn count_to_scalar(n: usize) -> Scalar {
    s(n as f64)
}

fn scalar_to_count(a: Scalar) -> usize {
    f(a) as usize
}

fn real_ackley(x: Scalar, z: Scalar) -> Scalar {
    s(ka::single::Ackley::f(vec![f(x), f(z)]))
}

fn real_griewank(x: Scalar, z: Scalar) -> Scalar {
    s(ka::single::Griewank::f(vec![f(x), f(z)]))
}

/// A world whose noise is the same number everywhere.
struct Level<const NOISE: u64>;

impl<const NOISE: u64> Kernel for Level<NOISE> {
    fn sum(a: Scalar, b: Scalar) -> Scalar {
        add(a, b)
    }

    fn difference(a: Scalar, b: Scalar) -> Scalar {
        sub(a, b)
    }

    fn product(a: Scalar, b: Scalar) -> Scalar {
        mul(a, b)
    }

    fn quotient(a: Scalar, b: Scalar) -> Scalar {
        div(a, b)
    }

    fn square_root(a: Scalar) -> Scalar {
        sqrt(a)
    }

    fn sine(a: Scalar) -> Scalar {
        sin(a)
    }

    fn cosine(a: Scalar) -> Scalar {
        cos(a)
    }

    fn from_count(n: usize) -> Scalar {
        count_to_scalar(n)
    }

    fn to_count(a: Scalar) -> usize {
        scalar_to_count(a)
    }

    fn noise3(x: Scalar, y: Scalar, z: Scalar) -> Scalar {
        let _ = (x, y, z);
        Scalar::from_bits(NOISE)
    }

    fn ackley(x: Scalar, z: Scalar) -> Scalar {
        real_ackley(x, z)
    }

    fn griewank(x: Scalar, z: Scalar) -> Scalar {
        real_griewank(x, z)
    }
}

/// A flat world on which every point scores the same.
struct Even;

impl Kernel for Even {
    fn sum(a: Scalar, b: Scalar) -> Scalar {
        add(a, b)
    }

    fn difference(a: Scalar, b: Scalar) -> Scalar {
        sub(a, b)
    }

    fn product(a: Scalar, b: Scalar) -> Scalar {
        mul(a, b)
    }

    fn quotient(a: Scalar, b: Scalar) -> Scalar {
        div(a, b)
    }

    fn square_root(a: Scalar) -> Scalar {
        sqrt(a)
    }

    fn sine(a: Scalar) -> Scalar {
        sin(a)
    }

    fn cosine(a: Scalar) -> Scalar {
        cos(a)
    }

    fn from_count(n: usize) -> Scalar {
        count_to_scalar(n)
    }

    fn to_count(a: Scalar) -> usize {
        scalar_to_count(a)
    }

    fn noise3(x: Scalar, y: Scalar, z: Scalar) -> Scalar {
        let _ = (x, y, z);
        s(0.1)
    }

    fn ackley(x: Scalar, z: Scalar) -> Scalar {
        let _ = (x, z);
        s(1.0)
    }

    fn griewank(x: Scalar, z: Scalar) -> Scalar {
        let _ = (x, z);
        s(1.0)
    }
}

/// A random source that repeats a list of numbers.
struct Fixed {
    values: Vec<f64>,
    drawn: usize,
}

impl Fixed {
    fn new(values: Vec<f64>) -> Self {
        Fixed { values, drawn: 0 }
    }
}

impl RandomSource for Fixed {
    fn next(&mut self) -> Scalar {
        let x = self.values[self.drawn % self.values.len()];
        self.drawn += 1;
        s(x)
    }
}

/// A random source that is the same for the same seed.
struct Seeded {
    state: u64,
}

impl RandomSource for Seeded {
    fn next(&mut self) -> Scalar {
        self.state = self.state.wrapping_mul(6364136223846793005).wrapping_add(1442695040888963407);
        s((self.state >> 11) as f64 / (1u64 << 53) as f64)
    }
}

const TENTH: u64 = 0x3fb9_9999_9999_999a;
const ONE: u64 = 0x3ff0_0000_0000_0000;
const ONE_AND_A_HALF: u64 = 0x3ff8_0000_0000_0000;

type Plain = Level<TENTH>;
type Peak = Level<ONE>;
type Broken = Level<ONE_AND_A_HALF>;

fn turned(d: Vector, angle: f64) -> Vector {
    let (sin, cos) = (angle.sin(), angle.cos());
    v(f(d.x) * cos + f(d.z) * sin, f(d.y), (-f(d.x) * sin) + f(d.z) * cos)
}

fn ackley(x: f64, z: f64) -> f64 {
    ka::single::Ackley::f(vec![x, z])
}

fn griewank(x: f64, z: f64) -> f64 {
    ka::single::Griewank::f(vec![x, z])
}

fn sensor_config() -> SensorConfig {
    SensorConfig::new(s(10.0), s(1.0), s(PI / 6.0), s(PI / 180.0))
}

fn params(w: f64, c1: f64, c2: f64, c3: f64, max_velocity: f64) -> ParameterSet {
    ParameterSet::new(s(w), s(c1), s(c2), s(c3), s(max_velocity))
}

fn sim_config(goal: Goal, strategy: Strategy, size: usize) -> SimConfig {
    SimConfig::new(
        params(0.7, 1.5, 1.5, 0.5, 2.0),
        Config::new(1000, 4, s(0.1), s(0.01)),
        ControllerConfig::new(sensor_config()),
        SwarmConfig::new(size, v(10.0, 10.0, 10.0), s(10.0), s(0.5)),
        Ctx::new(goal, strategy),
        ParticleConfig::new(10),
    )
}

fn swarm<K: Kernel, R: RandomSource>(config: &SimConfig, random: &mut R) -> (Swarm, Terrain) {
    let terrain = Terrain::new::<K>(config.terrain);
    let controller = ParticleController::new_from_config::<K>(config.ctx, config.controller);
    let swarm = Swarm::new::<K, R>(
        config.ctx,
        config.params,
        config.swarm,
        controller,
        config.particle,
        &terrain,
        random,
    );
    (swarm, terrain)
}

fn positions(swarm: &Swarm) -> Vec<(u64, u64, u64)> {
    swarm.get_positions().iter().map(|p| bits(*p)).collect()
}

fn speed(a: Vector) -> f64 {
    (f(a.x) * f(a.x) + f(a.y) * f(a.y) + f(a.z) * f(a.z)).sqrt()
}

#[test]
fn configuration_records_keep_their_fields() {
    let c = sim_config(Goal::Ackley, Strategy::Maximize, 5);
    assert_eq!(f(c.params.w), 0.7);
    assert_eq!(f(c.params.c1), 1.5);
    assert_eq!(f(c.params.c2), 1.5);
    assert_eq!(f(c.params.c3), 0.5);
    assert_eq!(f(c.params.max_velocity), 2.0);
    assert_eq!(c.terrain.size, 1000);
    assert_eq!(f(c.controller.collision.range), 10.0);
    assert_eq!(f(c.controller.collision.linear_step_size), 1.0);
    assert_eq!(f(c.controller.collision.fov_angle), PI / 6.0);
    assert_eq!(f(c.controller.collision.angular_step_size), PI / 180.0);
    assert_eq!(c.swarm.size, 5);
    assert!(same(c.swarm.deploy_position, 10.0, 10.0, 10.0));
    assert_eq!(f(c.swarm.deploy_spread_radius), 10.0);
    assert_eq!(f(c.swarm.initial_swarm_velocity), 0.5);
    assert_eq!(c.ctx.goal, Goal::Ackley);
    assert_eq!(c.ctx.strategy, Strategy::Maximize);
    assert_eq!(c.particle.position_log_size, 10);
}

#[test]
fn a_configuration_needs_a_particle_and_a_log_that_fits() {
    assert!(sim_config(Goal::Ackley, Strategy::Minimize, 1).is_runnable());
    assert!(!sim_config(Goal::Ackley, Strategy::Minimize, 0).is_runnable());
    let mut huge = sim_config(Goal::Ackley, Strategy::Minimize, 1);
    huge.particle = ParticleConfig::new(usize::MAX);
    assert!(!huge.is_runnable());
    huge.particle = ParticleConfig::new(isize::MAX as usize / 24 + 1);
    assert!(!huge.is_runnable());
    huge.particle = ParticleConfig::new(isize::MAX as usize / 24);
    assert!(huge.is_runnable());
}

#[test]
fn particles_are_deployed_around_the_deploy_position() {
    let config = sim_config(Goal::Griewank, Strategy::Minimize, 3);
    let draws = vec![0.0, 0.5, 0.25, 1.0, 0.6, 0.3];
    let mut random = Fixed::new(draws.clone());
    let (swarm, _) = swarm::<Plain, Fixed>(&config, &mut random);
    assert_eq!(random.drawn, 6);
    assert_eq!(swarm.get_population_size(), 3);
    assert_eq!(swarm.get_iteration(), 0);
    for i in 0..3 {
        let heading = turned(v(1.0, 0.0, 0.0), TAU * draws[2 * i]);
        let radius = 10.0 * draws[2 * i + 1];
        let expected = v(
            10.0 + radius * f(heading.x),
            10.0 + radius * f(heading.y),
            10.0 + radius * f(heading.z),
        );
        let particle = swarm.get_particle(i);
        assert_eq!(bits(particle.get_position()), bits(expected));
        assert_eq!(bits(swarm.get_position_by_idx(i)), bits(expected));
        assert!(same(
            particle.get_velocity(),
            0.5 * f(heading.x),
            0.5 * f(heading.y),
            0.5 * f(heading.z)
        ));
        assert_eq!(
            particle.get_performance().score.to_bits(),
            griewank(f(expected.x), f(expected.z)).to_bits()
        );
        assert_eq!(particle.get_collisions(), 0);
        assert_eq!(particle.get_particle_history().len(), 0);
    }
    assert!(same(swarm.get_position_by_idx(0), 15.0, 10.0, 10.0));
}

#[test]
fn a_swarm_without_spread_starts_on_the_deploy_position() {
    let mut config = sim_config(Goal::Griewank, Strategy::Minimize, 4);
    config.swarm = SwarmConfig::new(4, v(1.0, 20.0, -2.0), s(0.0), s(0.0));
    let (swarm, _) = swarm::<Plain, Seeded>(&config, &mut Seeded { state: 3 });
    for i in 0..4 {
        assert!(same(swarm.get_position_by_idx(i), 1.0, 20.0, -2.0));
        assert_eq!(speed(swarm.get_particle(i).get_velocity()), 0.0);
    }
}

#[test]
fn the_best_is_the_best_of_the_population() {
    for strategy in [Strategy::Minimize, Strategy::Maximize] {
        let config = sim_config(Goal::Griewank, strategy, 6);
        let (swarm, _) = swarm::<Plain, Seeded>(&config, &mut Seeded { state: 11 });
        let mut best = swarm.get_particle(0).get_performance();
        for i in 1..6 {
            let candidate = swarm.get_particle(i).get_performance();
            let better = match strategy {
                Strategy::Minimize => f(candidate.score) < f(best.score),
                Strategy::Maximize => f(candidate.score) > f(best.score),
            };
            if better {
                best = candidate;
            }
        }
        assert_eq!(swarm.get_best().score.to_bits(), best.score.to_bits());
        assert_eq!(bits(swarm.get_best().position), bits(best.position));
        assert_eq!(swarm.get_historic_best().score.to_bits(), best.score.to_bits());
        assert_eq!(bits(swarm.get_historic_best().position), bits(best.position));
    }
}

#[test]
fn of_particles_that_tie_the_first_is_the_best() {
    let config = sim_config(Goal::Ackley, Strategy::Minimize, 5);
    let (mut swarm, terrain) = swarm::<Even, Seeded>(&config, &mut Seeded { state: 5 });
    assert_eq!(bits(swarm.get_best().position), bits(swarm.get_position_by_idx(0)));
    assert_ne!(bits(swarm.get_position_by_idx(0)), bits(swarm.get_position_by_idx(1)));
    let first = swarm.get_historic_best();
    assert_eq!(bits(first.position), bits(swarm.get_position_by_idx(0)));
    assert_eq!(swarm.update::<Even, Seeded>(&terrain, &mut Seeded { state: 6 }), Ok(()));
    assert_eq!(bits(swarm.get_best().position), bits(swarm.get_position_by_idx(0)));
    assert_eq!(bits(swarm.get_historic_best().position), bits(first.position));
}

#[test]
fn an_iteration_moves_every_particle_and_takes_stock() {
    let config = sim_config(Goal::Ackley, Strategy::Minimize, 4);
    let mut random = Seeded { state: 21 };
    let (mut swarm, terrain) = swarm::<Plain, Seeded>(&config, &mut random);
    let before = positions(&swarm);
    let record = swarm.get_historic_best();
    assert!(swarm.is_ready());
    assert_eq!(swarm.update::<Plain, Seeded>(&terrain, &mut random), Ok(()));
    assert_eq!(swarm.get_iteration(), 1);
    assert_eq!(swarm.get_population_size(), 4);
    let after = positions(&swarm);
    assert_ne!(before, after);
    let mut best = swarm.get_particle(0).get_performance();
    for i in 0..4 {
        let particle = swarm.get_particle(i);
        assert_eq!(bits(particle.get_position()), after[i]);
        assert_eq!(
            particle.get_performance().score.to_bits(),
            ackley(f(particle.get_position().x), f(particle.get_position().z)).to_bits()
        );
        assert_eq!(particle.get_particle_history().len(), 1);
        if f(particle.get_performance().score) < f(best.score) {
            best = particle.get_performance();
        }
    }
    assert_eq!(swarm.get_best().score.to_bits(), best.score.to_bits());
    assert_eq!(bits(swarm.get_best().position), bits(best.position));
    let expected = if f(best.score) < f(record.score) { best } else { record };
    assert_eq!(swarm.get_historic_best().score.to_bits(), expected.score.to_bits());
    assert_eq!(bits(swarm.get_historic_best().position), bits(expected.position));
}

#[test]
fn every_particle_is_steered_by_the_best_of_the_iteration_before() {
    let mut config = sim_config(Goal::Griewank, Strategy::Minimize, 2);
    config.params = params(0.0, 0.0, 1.0, 0.0, 100.0);
    config.swarm = SwarmConfig::new(2, v(4.0, 10.0, 0.0), s(2.0), s(0.0));
    let mut random = Fixed::new(vec![0.0, 1.0, 0.5, 1.0, 0.5]);
    let (mut swarm, terrain) = swarm::<Plain, Fixed>(&config, &mut random);
    assert!(same(swarm.get_position_by_idx(0), 6.0, 10.0, 0.0));
    assert!((f(swarm.get_position_by_idx(1).x) - 2.0).abs() < 1.0e-12);
    let start = (swarm.get_position_by_idx(0), swarm.get_position_by_idx(1));
    let g_best = swarm.get_best().position;
    assert!(griewank(f(start.0.x), f(start.0.z)) < griewank(f(start.1.x), f(start.1.z)));
    assert_eq!(bits(g_best), bits(start.0));
    let mut steps = Fixed::new(vec![0.5]);
    assert_eq!(swarm.update::<Plain, Fixed>(&terrain, &mut steps), Ok(()));
    for (i, from) in [start.0, start.1].into_iter().enumerate() {
        let pull = |target: f64, at: f64| (1.0 * 0.5) * (target - at);
        let velocity = |vel: f64, at: f64, target: f64| {
            0.0 * vel + (0.0 * 0.5) * (at - at) + pull(target, at) + 0.0 * (at - at)
        };
        let expected = v(
            f(from.x) + velocity(0.0, f(from.x), f(g_best.x)),
            f(from.y) + velocity(0.0, f(from.y), f(g_best.y)),
            f(from.z) + velocity(0.0, f(from.z), f(g_best.z)),
        );
        assert_eq!(bits(swarm.get_position_by_idx(i)), bits(expected));
    }
    assert!(same(swarm.get_position_by_idx(0), 6.0, 10.0, 0.0));
    assert!((f(swarm.get_position_by_idx(1).x) - 4.0).abs() < 1.0e-12);
}

#[test]
fn the_historic_best_never_gets_worse() {
    for (strategy, goal) in [
        (Strategy::Minimize, Goal::Ackley),
        (Strategy::Maximize, Goal::Ackley),
        (Strategy::Minimize, Goal::Griewank),
        (Strategy::Maximize, Goal::Griewank),
    ] {
        let config = sim_config(goal, strategy, 8);
        let mut random = Seeded { state: 99 };
        let (mut swarm, terrain) = swarm::<Plain, Seeded>(&config, &mut random);
        let mut record = f(swarm.get_historic_best().score);
        let mut improved = false;
        for step in 1..=40 {
            assert_eq!(swarm.update::<Plain, Seeded>(&terrain, &mut random), Ok(()));
            assert_eq!(swarm.get_iteration(), step);
            let now = f(swarm.get_historic_best().score);
            match strategy {
                Strategy::Minimize => assert!(now <= record),
                Strategy::Maximize => assert!(now >= record),
            }
            improved = improved || now != record;
            record = now;
        }
        assert!(improved);
    }
}

#[test]
fn no_particle_is_faster_than_the_limit() {
    let config = sim_config(Goal::Ackley, Strategy::Minimize, 8);
    let mut random = Seeded { state: 1234 };
    let (mut swarm, terrain) = swarm::<Plain, Seeded>(&config, &mut random);
    let mut limited = false;
    for _ in 0..40 {
        assert_eq!(swarm.update::<Plain, Seeded>(&terrain, &mut random), Ok(()));
        for i in 0..8 {
            let fast = speed(swarm.get_particle(i).get_velocity());
            assert!(fast <= 2.0 + 1.0e-9);
            limited = limited || fast > 2.0 - 1.0e-9;
        }
    }
    assert!(limited);
}

#[test]
fn runs_from_the_same_seed_are_the_same() {
    let config = sim_config(Goal::Ackley, Strategy::Minimize, 6);
    let mut first_source = Seeded { state: 42 };
    let mut second_source = Seeded { state: 42 };
    let (mut first, terrain) = swarm::<Plain, Seeded>(&config, &mut first_source);
    let (mut second, _) = swarm::<Plain, Seeded>(&config, &mut second_source);
    assert_eq!(positions(&first), positions(&second));
    for _ in 0..25 {
        assert_eq!(first.update::<Plain, Seeded>(&terrain, &mut first_source), Ok(()));
        assert_eq!(second.update::<Plain, Seeded>(&terrain, &mut second_source), Ok(()));
        assert_eq!(positions(&first), positions(&second));
        assert_eq!(first.get_best().score.to_bits(), second.get_best().score.to_bits());
        assert_eq!(
            first.get_historic_best().score.to_bits(),
            second.get_historic_best().score.to_bits()
        );
    }
    let (other, _) = swarm::<Plain, Seeded>(&config, &mut Seeded { state: 43 });
    assert_ne!(positions(&other), positions(&swarm::<Plain, Seeded>(&config, &mut Seeded { state: 42 }).0));
}

#[test]
fn a_lone_particle_at_rest_with_no_pull_stays_for_good() {
    let mut config = sim_config(Goal::Ackley, Strategy::Minimize, 1);
    config.params = params(0.0, 0.0, 0.0, 0.0, 10.0);
    config.swarm = SwarmConfig::new(1, v(3.0, 50.0, -7.0), s(0.0), s(0.0));
    let mut random = Seeded { state: 8 };
    let (mut swarm, terrain) = swarm::<Plain, Seeded>(&config, &mut random);
    for step in 1..=20 {
        assert_eq!(swarm.update::<Plain, Seeded>(&terrain, &mut random), Ok(()));
        assert!(same(swarm.get_position_by_idx(0), 3.0, 50.0, -7.0));
        assert!(same(swarm.get_particle(0).get_velocity(), 0.0, 0.0, 0.0));
        assert_eq!(swarm.get_particle(0).get_collisions(), 0);
        assert_eq!(swarm.get_iteration(), step);
        assert_eq!(swarm.get_best().score.to_bits(), ackley(3.0, -7.0).to_bits());
        assert_eq!(swarm.get_historic_best().score.to_bits(), ackley(3.0, -7.0).to_bits());
    }
}

#[test]
fn particles_under_the_terrain_collide_and_stay() {
    let config = sim_config(Goal::Ackley, Strategy::Minimize, 3);
    let mut random = Seeded { state: 17 };
    let (mut swarm, terrain) = swarm::<Peak, Seeded>(&config, &mut random);
    let start = positions(&swarm);
    for step in 1..=3 {
        assert_eq!(swarm.update::<Peak, Seeded>(&terrain, &mut random), Ok(()));
        assert_eq!(positions(&swarm), start);
        for i in 0..3 {
            assert_eq!(swarm.get_particle(i).get_collisions(), step);
        }
    }
}

#[test]
fn new_weights_apply_from_the_next_iteration() {
    let config = sim_config(Goal::Ackley, Strategy::Minimize, 3);
    let mut random = Seeded { state: 17 };
    let (mut swarm, terrain) = swarm::<Plain, Seeded>(&config, &mut random);
    assert_eq!(swarm.update::<Plain, Seeded>(&terrain, &mut random), Ok(()));
    swarm.set_params(params(0.0, 0.0, 0.0, 0.0, 10.0));
    let before = positions(&swarm);
    assert_eq!(swarm.update::<Plain, Seeded>(&terrain, &mut random), Ok(()));
    for i in 0..3 {
        assert_eq!(speed(swarm.get_particle(i).get_velocity()), 0.0);
        let at = swarm.get_position_by_idx(i);
        let was = before[i];
        assert_eq!(f(at.x), f64::from_bits(was.0));
        assert_eq!(f(at.z), f64::from_bits(was.2));
    }
}

#[test]
fn an_iteration_without_height_breaks_off() {
    let config = sim_config(Goal::Ackley, Strategy::Minimize, 3);
    let mut random = Seeded { state: 17 };
    let (mut swarm, terrain) = swarm::<Broken, Seeded>(&config, &mut random);
    let before = positions(&swarm);
    let best = swarm.get_best();
    assert_eq!(
        swarm.update::<Broken, Seeded>(&terrain, &mut random),
        Err(TerrainError::OutOfProfile)
    );
    assert_eq!(swarm.get_iteration(), 0);
    assert_eq!(positions(&swarm), before);
    assert_eq!(swarm.get_best().score.to_bits(), best.score.to_bits());
    assert_eq!(swarm.get_particle(0).get_particle_history().len(), 0);
}

#[test]
fn the_simulator_sets_up_and_steps() {
    let config = sim_config(Goal::Ackley, Strategy::Minimize, 5);
    let mut random = Seeded { state: 77 };
    let mut sim = Simulator::new::<Plain, Seeded>(config, &mut random);
    let mut reference_source = Seeded { state: 77 };
    let (mut reference, terrain) = swarm::<Plain, Seeded>(&config, &mut reference_source);
    assert_eq!(sim.get_swarm_size(), 5);
    assert_eq!(sim.get_swarm().get_population_size(), 5);
    assert_eq!(sim.get_goal(), Goal::Ackley);
    assert_eq!(sim.get_config().swarm.size, 5);
    assert_eq!(sim.get_terrain().get_size(), 1000);
    assert_eq!(positions(sim.get_swarm()), positions(&reference));
    for _ in 0..10 {
        assert!(sim.can_step());
        assert_eq!(sim.step::<Plain, Seeded>(&mut random), Ok(()));
        assert_eq!(reference.update::<Plain, Seeded>(&terrain, &mut reference_source), Ok(()));
        assert_eq!(positions(sim.get_swarm()), positions(&reference));
        for i in 0..5 {
            assert_eq!(
                bits(sim.get_particle_position_by_idx(i)),
                bits(reference.get_position_by_idx(i))
            );
        }
    }
    assert_eq!(sim.get_swarm().get_iteration(), 10);
}

#[test]
fn a_reset_builds_the_swarm_anew() {
    let config = sim_config(Goal::Ackley, Strategy::Minimize, 5);
    let mut sim = Simulator::new::<Plain, Seeded>(config, &mut Seeded { state: 77 });
    let start = positions(sim.get_swarm());
    let mut random = Seeded { state: 1 };
    for _ in 0..5 {
        assert_eq!(sim.step::<Plain, Seeded>(&mut random), Ok(()));
    }
    assert_ne!(positions(sim.get_swarm()), start);
    sim.reset::<Plain, Seeded>(&mut Seeded { state: 77 });
    assert_eq!(positions(sim.get_swarm()), start);
    assert_eq!(sim.get_swarm().get_iteration(), 0);
}

#[test]
fn new_weights_wait_for_the_reset() {
    let mut config = sim_config(Goal::Ackley, Strategy::Minimize, 2);
    config.params = params(0.0, 0.0, 0.0, 0.0, 10.0);
    config.swarm = SwarmConfig::new(2, v(3.0, 50.0, -7.0), s(0.0), s(1.0));
    let mut random = Seeded { state: 5 };
    let mut sim = Simulator::new::<Plain, Seeded>(config, &mut random);
    sim.update_pso_params(params(1.0, 0.0, 0.0, 0.0, 10.0));
    assert_eq!(f(sim.get_config().params.w), 1.0);
    assert_eq!(sim.step::<Plain, Seeded>(&mut random), Ok(()));
    assert!(same(sim.get_particle_position_by_idx(0), 3.0, 50.0, -7.0));
    sim.reset::<Plain, Seeded>(&mut random);
    assert_eq!(sim.step::<Plain, Seeded>(&mut random), Ok(()));
    let moved = sim.get_particle_position_by_idx(0);
    let distance = ((f(moved.x) - 3.0).powi(2) + (f(moved.z) + 7.0).powi(2)).sqrt();
    assert!((distance - 1.0).abs() < 1.0e-12);
}

#[test]
fn a_new_configuration_waits_for_the_reset() {
    let config = sim_config(Goal::Ackley, Strategy::Minimize, 2);
    let mut random = Seeded { state: 5 };
    let mut sim = Simulator::new::<Plain, Seeded>(config, &mut random);
    sim.set_config(sim_config(Goal::Griewank, Strategy::Maximize, 7));
    assert_eq!(sim.get_swarm_size(), 7);
    assert_eq!(sim.get_config().ctx.goal, Goal::Griewank);
    assert_eq!(sim.get_goal(), Goal::Ackley);
    assert_eq!(sim.get_swarm().get_population_size(), 2);
    sim.reset::<Plain, Seeded>(&mut random);
    assert_eq!(sim.get_goal(), Goal::Griewank);
    assert_eq!(sim.get_swarm().get_population_size(), 7);
}

#[test]
fn the_simulator_shows_its_surfaces() {
    let config = sim_config(Goal::Griewank, Strategy::Minimize, 2);
    let sim = Simulator::new::<Peak, Seeded>(config, &mut Seeded { state: 5 });
    let point = sim.parametric_terrain_eval::<Peak>(s(0.5), s(1.0)).unwrap();
    assert!(same(point, 0.0, 500.0, 500.0));
    let surface = sim.get_goal_surface::<Peak>();
    let top = surface.parametric_eval::<Peak>(s(1.0), s(0.5));
    assert_eq!(f(top.x), 500.0);
    assert_eq!(f(top.z), 0.0);
    assert_eq!(top.y.to_bits(), griewank(500.0, 0.0).to_bits());
}

#[test]
fn the_simulator_passes_on_a_missing_height() {
    let config = sim_config(Goal::Griewank, Strategy::Minimize, 2);
    let mut random = Seeded { state: 5 };
    let mut sim = Simulator::new::<Broken, Seeded>(config, &mut random);
    assert_eq!(sim.step::<Broken, Seeded>(&mut random), Err(TerrainError::OutOfProfile));
    assert_eq!(sim.get_swarm().get_iteration(), 0);
    assert_eq!(
        sim.parametric_terrain_eval::<Broken>(s(0.5), s(0.5)).map(bits),
        Err(TerrainError::OutOfProfile)
    );
}

#[test]
fn a_draw_is_what_the_source_gives() {
    let mut random = Fixed::new(vec![0.125, 0.75]);
    assert_eq!(f(gen_random(&mut random)), 0.125);
    assert_eq!(f(gen_random(&mut random)), 0.75);
    assert_eq!(f(gen_random(&mut random)), 0.125);
}

#[test]
fn a_ranged_draw_follows_its_formula() {
    let mut random = Fixed::new(vec![0.5, 0.0, 0.99, 0.75]);
    assert_eq!(gen_random_range::<Plain, Fixed>(&mut random, 2, 10), 2);
    assert_eq!(gen_random_range::<Plain, Fixed>(&mut random, 2, 10), 0);
    assert_eq!(gen_random_range::<Plain, Fixed>(&mut random, 0, 10), 9);
    assert_eq!(gen_random_range::<Plain, Fixed>(&mut random, 1, 21), 14);
}
