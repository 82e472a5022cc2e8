use ka::SingleObjective;
use rdpso_sim::goal::{Goal, Strategy};
use rdpso_sim::kernel::{Kernel, RandomSource};
use rdpso_sim::pso::particle::{ParticleController, ParticleState};
use rdpso_sim::pso::{ControllerConfig, Ctx, ParameterSet, SensorConfig};
use rdpso_sim::scalar::Scalar;
use rdpso_sim::space::Vector;
use rdpso_sim::terrain::{Config, Terrain, TerrainError};
use std::f64::consts::PI;

fn s(x: f64) -> Scalar {
    Scalar::from_bits(x.to_bits())
}

fn f(x: Scalar) -> f64 {
    f64::from_bits(x.to_bits())
}

fn v(x: f64, y: f64, z: f64) -> Vector {
    Vector::new(s(x), s(y), s(z))
}

fn bits(a: Vector) -> (u64, u64, u64) {
    (a.x.to_bits(), a.y.to_bits(), a.z.to_bits())
}

fn same(a: Vector, x: f64, y: f64, z: f64) -> bool {
    bits(a) == (x.to_bits(), y.to_bits(), z.to_bits())
}

fn add(a: Scalar, b: Scalar) -> Scalar {
    s(f(a) + f(b))
}

fn sub(a: Scalar, b: Scalar) -> Scalar {
    s(f(a) - f(b))
}

fn mul(a: Scalar, b: Scalar) -> Scalar {
    s(f(a) * f(b))
}

fn div(a: Scalar, b: Scalar) -> Scalar {
    s(f(a) / f(b))
}

fn sqrt(a: Scalar) -> Scalar {
    s(f(a).sqrt())
}

fn sin(a: Scalar) -> Scalar {
    s(f(a).sin())
}

fn cos(a: Scalar) -> Scalar {
    s(f(a).cos())
}

fn count_to_scalar(n: usize) -> Scalar {
    s(n as f64)
}

fn scalar_to_count(a: Scalar) -> usize {
    f(a) as usize
}

fn real_ackley(x: Scalar, z: Scalar) -> Scalar {
    s(ka::single::Ackley::f(vec![f(x), f(z)]))
}

fn real_griewank(x: Scalar, z: Scalar) -> Scalar {
    s(ka::single::Griewank::f(vec![f(x), f(z)]))
}

/// A world whose noise is the same number everywhere.
struct Level<const NOISE: u64>;

impl<const NOISE: u64> Kernel for Level<NOISE> {
    fn sum(a: Scalar, b: Scalar) -> Scalar {
        add(a, b)
    }

    fn difference(a: Scalar, b: Scalar) -> Scalar {
        sub(a, b)
    }

    fn product(a: Scalar, b: Scalar) -> Scalar {
        mul(a, b)
    }

    fn quotient(a: Scalar, b: Scalar) -> Scalar {
        div(a, b)
    }

    fn square_root(a: Scalar) -> Scalar {
        sqrt(a)
    }

    fn sine(a: Scalar) -> Scalar {
        sin(a)
    }

    fn cosine(a: Scalar) -> Scalar {
        cos(a)
    }

    fn from_count(n: usize) -> Scalar {
        count_to_scalar(n)
    }

    fn to_count(a: Scalar) -> usize {
        scalar_to_count(a)
    }

    fn noise3(x: Scalar, y: Scalar, z: Scalar) -> Scalar {
        let _ = (x, y, z);
        Scalar::from_bits(NOISE)
    }

    fn ackley(x: Scalar, z: Scalar) -> Scalar {
        real_ackley(x, z)
    }

    fn griewank(x: Scalar, z: Scalar) -> Scalar {
        real_griewank(x, z)
    }
}

/// A random source that repeats a list of numbers.
struct Fixed {
    values: Vec<f64>,
    drawn: usize,
}

impl Fixed {
    fn new(values: Vec<f64>) -> Self {
        Fixed { values, drawn: 0 }
    }
}

impl RandomSource for Fixed {
    fn next(&mut self) -> Scalar {
        let x = self.values[self.drawn % self.values.len()];
        self.drawn += 1;
        s(x)
    }
}

/// A random source that is the same for the same seed.
struct Seeded {
    state: u64,
}

impl RandomSource for Seeded {
    fn next(&mut self) -> Scalar {
        self.state = self.state.wrapping_mul(6364136223846793005).wrapping_add(1442695040888963407);
        s((self.state >> 11) as f64 / (1u64 << 53) as f64)
    }
}

const TENTH: u64 = 0x3fb9_9999_9999_999a;
const ONE: u64 = 0x3ff0_0000_0000_0000;
const ONE_AND_A_HALF: u64 = 0x3ff8_0000_0000_0000;

type Plain = Level<TENTH>;
type Peak = Level<ONE>;
type Broken = Level<ONE_AND_A_HALF>;

fn turned(d: Vector, angle: f64) -> Vector {
    let (sin, cos) = (angle.sin(), angle.cos());
    v(f(d.x) * cos + f(d.z) * sin, f(d.y), (-f(d.x) * sin) + f(d.z) * cos)
}

fn griewank(x: f64, z: f64) -> f64 {
    ka::single::Griewank::f(vec![x, z])
}

fn sensor_config() -> SensorConfig {
    SensorConfig::new(s(10.0), s(1.0), s(PI / 6.0), s(PI / 180.0))
}

fn params(w: f64, c1: f64, c2: f64, c3: f64, max_velocity: f64) -> ParameterSet {
    ParameterSet::new(s(w), s(c1), s(c2), s(c3), s(max_velocity))
}

fn land<K: Kernel>(size: usize) -> Terrain {
    Terrain::new::<K>(Config::new(size, 4, s(0.1), s(0.01)))
}

fn controller<K: Kernel>(strategy: Strategy) -> ParticleController {
    ParticleController::new_from_config::<K>(
        Ctx::new(Goal::Griewank, strategy),
        ControllerConfig::new(sensor_config()),
    )
}

fn history(state: &ParticleState) -> Vec<(u64, u64, u64)> {
    state.get_particle_history().into_iter().map(bits).collect()
}

#[test]
fn the_controller_takes_its_configuration() {
    let c = controller::<Plain>(Strategy::Maximize);
    assert_eq!(c.get_ctx().goal, Goal::Griewank);
    assert_eq!(c.get_ctx().strategy, Strategy::Maximize);
    assert_eq!(c.get_ctx().get_goal(), Goal::Griewank);
    assert_eq!(c.get_ctx().get_strategy(), Strategy::Maximize);
}

#[test]
fn a_new_particle_is_scored_where_it_stands() {
    let c = controller::<Plain>(Strategy::Minimize);
    let p = ParticleState::new::<Plain>(v(3.0, 10.0, -4.0), v(0.5, 0.0, 0.25), 5, &c);
    assert!(same(p.get_position(), 3.0, 10.0, -4.0));
    assert!(same(p.get_velocity(), 0.5, 0.0, 0.25));
    assert_eq!(p.get_performance().score.to_bits(), griewank(3.0, -4.0).to_bits());
    assert!(same(p.get_performance().position, 3.0, 10.0, -4.0));
    assert_eq!(p.get_best_performance().score.to_bits(), griewank(3.0, -4.0).to_bits());
    assert!(same(p.get_best_performance().position, 3.0, 10.0, -4.0));
    assert_eq!(p.get_collisions(), 0);
    assert_eq!(history(&p), vec![]);
}

#[test]
fn a_particle_at_rest_with_no_pull_stays() {
    let terrain = land::<Plain>(1000);
    let mut c = controller::<Plain>(Strategy::Minimize);
    let mut p = ParticleState::new::<Plain>(v(1.0, 10.0, 2.0), v(0.0, 0.0, 0.0), 10, &c);
    let mut random = Seeded { state: 7 };
    let weights = params(0.0, 0.0, 0.0, 0.0, 10.0);
    for step in 1..=8 {
        let r = c.update::<Plain, Seeded>(
            &mut p,
            v(1.0, 10.0, 2.0),
            &weights,
            &terrain.get_boundary(),
            &terrain,
            &mut random,
        );
        assert_eq!(r, Ok(()));
        assert!(same(p.get_position(), 1.0, 10.0, 2.0));
        assert!(same(p.get_velocity(), 0.0, 0.0, 0.0));
        assert_eq!(p.get_collisions(), 0);
        assert_eq!(history(&p), vec![bits(v(1.0, 10.0, 2.0)); step]);
    }
}

#[test]
fn inertia_alone_keeps_the_velocity() {
    let terrain = land::<Plain>(1000);
    let mut c = controller::<Plain>(Strategy::Minimize);
    let mut p = ParticleState::new::<Plain>(v(1.0, 10.0, 2.0), v(1.0, 0.0, -0.5), 10, &c);
    let mut random = Seeded { state: 7 };
    let r = c.update::<Plain, Seeded>(
        &mut p,
        v(1.0, 10.0, 2.0),
        &params(1.0, 0.0, 0.0, 0.0, 10.0),
        &terrain.get_boundary(),
        &terrain,
        &mut random,
    );
    assert_eq!(r, Ok(()));
    assert!(same(p.get_velocity(), 1.0, 0.0, -0.5));
    assert!(same(p.get_position(), 2.0, 10.0, 1.5));
    assert_eq!(p.get_performance().score.to_bits(), griewank(2.0, 1.5).to_bits());
    assert_eq!(p.get_collisions(), 0);
    assert_eq!(history(&p), vec![bits(v(2.0, 10.0, 1.5))]);
}

#[test]
fn a_velocity_over_the_limit_is_scaled_down_to_it() {
    let terrain = land::<Plain>(1000);
    let mut c = controller::<Plain>(Strategy::Minimize);
    let mut p = ParticleState::new::<Plain>(v(1.0, 10.0, 2.0), v(10.0, 0.0, 0.0), 10, &c);
    let mut random = Seeded { state: 7 };
    let r = c.update::<Plain, Seeded>(
        &mut p,
        v(1.0, 10.0, 2.0),
        &params(3.0, 0.0, 0.0, 0.0, 10.0),
        &terrain.get_boundary(),
        &terrain,
        &mut random,
    );
    assert_eq!(r, Ok(()));
    assert!(same(p.get_velocity(), 10.0, 0.0, 0.0));
    assert!(same(p.get_position(), 11.0, 10.0, 2.0));
}

#[test]
fn a_velocity_at_the_limit_is_kept() {
    let terrain = land::<Plain>(1000);
    let mut c = controller::<Plain>(Strategy::Minimize);
    let mut p = ParticleState::new::<Plain>(v(1.0, 10.0, 2.0), v(3.0, 0.0, 4.0), 10, &c);
    let mut random = Seeded { state: 7 };
    let r = c.update::<Plain, Seeded>(
        &mut p,
        v(1.0, 10.0, 2.0),
        &params(1.0, 0.0, 0.0, 0.0, 5.0),
        &terrain.get_boundary(),
        &terrain,
        &mut random,
    );
    assert_eq!(r, Ok(()));
    assert!(same(p.get_velocity(), 3.0, 0.0, 4.0));
    assert!(same(p.get_position(), 4.0, 10.0, 6.0));
}

#[test]
fn the_swarm_best_pulls_with_the_second_draw() {
    let terrain = land::<Plain>(1000);
    let mut c = controller::<Plain>(Strategy::Minimize);
    let mut p = ParticleState::new::<Plain>(v(1.0, 10.0, 2.0), v(1.0, 0.0, 1.0), 10, &c);
    let mut random = Fixed::new(vec![0.3, 0.25, 0.9]);
    let r = c.update::<Plain, Fixed>(
        &mut p,
        v(5.0, 10.0, -2.0),
        &params(0.5, 0.0, 2.0, 0.0, 10.0),
        &terrain.get_boundary(),
        &terrain,
        &mut random,
    );
    assert_eq!(r, Ok(()));
    assert_eq!(random.drawn, 3);
    assert!(same(p.get_velocity(), 2.5, 0.0, -1.5));
    assert!(same(p.get_position(), 3.5, 10.0, 0.5));
}

#[test]
fn the_own_best_pulls_with_the_first_draw() {
    let terrain = land::<Plain>(1000);
    let mut c = controller::<Plain>(Strategy::Minimize);
    let start = v(0.0, 10.0, 0.0);
    let mut p = ParticleState::new::<Plain>(start, v(4.0, 0.0, 0.0), 10, &c);
    let mut random = Fixed::new(vec![0.5, 0.1, 0.1]);
    let boundary = terrain.get_boundary();
    let first = c.update::<Plain, Fixed>(
        &mut p,
        start,
        &params(1.0, 0.0, 0.0, 0.0, 10.0),
        &boundary,
        &terrain,
        &mut random,
    );
    assert_eq!(first, Ok(()));
    assert!(same(p.get_position(), 4.0, 10.0, 0.0));
    assert!(griewank(0.0, 0.0) < griewank(4.0, 0.0));
    assert!(same(p.get_best_performance().position, 0.0, 10.0, 0.0));
    let second = c.update::<Plain, Fixed>(
        &mut p,
        v(4.0, 10.0, 0.0),
        &params(0.0, 1.0, 0.0, 0.0, 10.0),
        &boundary,
        &terrain,
        &mut random,
    );
    assert_eq!(second, Ok(()));
    assert!(same(p.get_velocity(), -2.0, 0.0, 0.0));
    assert!(same(p.get_position(), 2.0, 10.0, 0.0));
}

#[test]
fn the_avoidance_position_pulls_with_its_weight_alone() {
    let terrain = land::<Plain>(1000);
    let mut c = controller::<Plain>(Strategy::Minimize);
    let start = (1.0f64, 10.0f64, 2.0f64);
    let velocity = (3.0f64, 0.0f64, 4.0f64);
    let mut p = ParticleState::new::<Plain>(
        v(start.0, start.1, start.2),
        v(velocity.0, velocity.1, velocity.2),
        10,
        &c,
    );
    let mut random = Fixed::new(vec![0.9, 0.8, 0.7]);
    let r = c.update::<Plain, Fixed>(
        &mut p,
        v(start.0, start.1, start.2),
        &params(0.0, 0.0, 0.0, 0.5, 10.0),
        &terrain.get_boundary(),
        &terrain,
        &mut random,
    );
    assert_eq!(r, Ok(()));
    let speed = (velocity.0 * velocity.0 + velocity.1 * velocity.1 + velocity.2 * velocity.2).sqrt();
    let clear = (velocity.0 / speed, velocity.1 / speed, velocity.2 / speed);
    let avoid = (start.0 + speed * clear.0, start.1 + speed * clear.1, start.2 + speed * clear.2);
    let pull = |target: f64, at: f64, weight: f64| weight * (target - at);
    let blend = |vel: f64, at: f64, target: f64| {
        0.0 * vel + pull(at, at, 0.0 * 0.9) + pull(at, at, 0.0 * 0.8) + pull(target, at, 0.5)
    };
    let expected = (
        blend(velocity.0, start.0, avoid.0),
        blend(velocity.1, start.1, avoid.1),
        blend(velocity.2, start.2, avoid.2),
    );
    assert!(same(p.get_velocity(), expected.0, expected.1, expected.2));
    assert_eq!(expected, (1.5, 0.0, 2.0));
    assert!(same(p.get_position(), start.0 + expected.0, start.1 + expected.1, start.2 + expected.2));
}

#[test]
fn a_move_beyond_the_boundary_ends_on_it() {
    let terrain = land::<Plain>(20);
    let mut c = controller::<Plain>(Strategy::Minimize);
    let mut p = ParticleState::new::<Plain>(v(9.5, 10.0, -9.5), v(1.0, 0.0, -2.0), 10, &c);
    let mut random = Seeded { state: 7 };
    let r = c.update::<Plain, Seeded>(
        &mut p,
        v(9.5, 10.0, -9.5),
        &params(1.0, 0.0, 0.0, 0.0, 10.0),
        &terrain.get_boundary(),
        &terrain,
        &mut random,
    );
    assert_eq!(r, Ok(()));
    assert!(same(p.get_position(), 10.0, 10.0, -10.0));
    assert!(same(p.get_velocity(), 1.0, 0.0, -2.0));
    assert_eq!(p.get_performance().score.to_bits(), griewank(10.0, -10.0).to_bits());
}

#[test]
fn a_move_into_the_terrain_is_taken_back_and_deflected() {
    let terrain = land::<Peak>(1000);
    let mut c = controller::<Peak>(Strategy::Minimize);
    let mut p = ParticleState::new::<Peak>(v(1.0, 10.0, 2.0), v(1.0, 0.0, 0.0), 10, &c);
    let mut random = Seeded { state: 7 };
    let weights = params(1.0, 0.0, 0.0, 0.0, 10.0);
    let r = c.update::<Peak, Seeded>(
        &mut p,
        v(1.0, 10.0, 2.0),
        &weights,
        &terrain.get_boundary(),
        &terrain,
        &mut random,
    );
    assert_eq!(r, Ok(()));
    let quarter = turned(v(1.0, 0.0, 0.0), PI / 2.0);
    let deflected = (0.5 * f(quarter.x), 0.5 * f(quarter.y), 0.5 * f(quarter.z));
    assert!(same(p.get_velocity(), deflected.0, deflected.1, deflected.2));
    assert_eq!(deflected.2, -0.5);
    assert!(same(p.get_position(), 1.0, 10.0, 2.0));
    assert_eq!(p.get_collisions(), 1);
    assert_eq!(p.get_performance().score.to_bits(), griewank(1.0, 2.0).to_bits());
    assert_eq!(history(&p), vec![bits(v(1.0, 10.0, 2.0))]);

    let again = c.update::<Peak, Seeded>(
        &mut p,
        v(1.0, 10.0, 2.0),
        &weights,
        &terrain.get_boundary(),
        &terrain,
        &mut random,
    );
    assert_eq!(again, Ok(()));
    assert_eq!(p.get_collisions(), 2);
    assert!(same(p.get_position(), 1.0, 10.0, 2.0));
    assert!((f(p.get_velocity().x) + 0.25).abs() < 1.0e-12);
}

#[test]
fn a_particle_level_with_the_terrain_collides() {
    let terrain = land::<Peak>(1000);
    let mut c = controller::<Peak>(Strategy::Minimize);
    let mut p = ParticleState::new::<Peak>(v(1.0, 500.0, 2.0), v(0.0, 0.0, 0.0), 10, &c);
    let mut random = Seeded { state: 7 };
    let r = c.update::<Peak, Seeded>(
        &mut p,
        v(1.0, 500.0, 2.0),
        &params(0.0, 0.0, 0.0, 0.0, 10.0),
        &terrain.get_boundary(),
        &terrain,
        &mut random,
    );
    assert_eq!(r, Ok(()));
    assert_eq!(p.get_collisions(), 1);
    let mut above = ParticleState::new::<Peak>(v(1.0, 500.5, 2.0), v(0.0, 0.0, 0.0), 10, &c);
    let r = c.update::<Peak, Seeded>(
        &mut above,
        v(1.0, 500.5, 2.0),
        &params(0.0, 0.0, 0.0, 0.0, 10.0),
        &terrain.get_boundary(),
        &terrain,
        &mut random,
    );
    assert_eq!(r, Ok(()));
    assert_eq!(above.get_collisions(), 0);
}

#[test]
fn the_best_result_is_kept_when_minimizing() {
    let terrain = land::<Plain>(1000);
    let mut c = controller::<Plain>(Strategy::Minimize);
    let mut p = ParticleState::new::<Plain>(v(6.0, 10.0, 0.0), v(-3.0, 0.0, 0.0), 10, &c);
    let mut random = Seeded { state: 7 };
    let weights = params(1.0, 0.0, 0.0, 0.0, 10.0);
    let mut best = (griewank(6.0, 0.0), 6.0);
    for step in 1..=4 {
        let r = c.update::<Plain, Seeded>(
            &mut p,
            v(6.0, 10.0, 0.0),
            &weights,
            &terrain.get_boundary(),
            &terrain,
            &mut random,
        );
        assert_eq!(r, Ok(()));
        let x = 6.0 - 3.0 * step as f64;
        assert!(same(p.get_position(), x, 10.0, 0.0));
        let score = griewank(x, 0.0);
        assert_eq!(p.get_performance().score.to_bits(), score.to_bits());
        if !(best.0 < score) {
            best = (score, x);
        }
        assert_eq!(p.get_best_performance().score.to_bits(), best.0.to_bits());
        assert!(same(p.get_best_performance().position, best.1, 10.0, 0.0));
    }
    assert_eq!(best.1, 0.0);
}

#[test]
fn the_best_result_is_kept_when_maximizing() {
    let terrain = land::<Plain>(1000);
    let mut c = controller::<Plain>(Strategy::Maximize);
    let mut p = ParticleState::new::<Plain>(v(0.0, 10.0, 0.0), v(3.0, 0.0, 0.0), 10, &c);
    let mut random = Seeded { state: 7 };
    let weights = params(1.0, 0.0, 0.0, 0.0, 10.0);
    let mut best = (griewank(0.0, 0.0), 0.0);
    for step in 1..=4 {
        let r = c.update::<Plain, Seeded>(
            &mut p,
            v(0.0, 10.0, 0.0),
            &weights,
            &terrain.get_boundary(),
            &terrain,
            &mut random,
        );
        assert_eq!(r, Ok(()));
        let x = 3.0 * step as f64;
        let score = griewank(x, 0.0);
        if !(best.0 > score) {
            best = (score, x);
        }
        assert_eq!(p.get_best_performance().score.to_bits(), best.0.to_bits());
        assert!(same(p.get_best_performance().position, best.1, 10.0, 0.0));
    }
    assert!(best.1 > 0.0);
}

#[test]
fn the_history_keeps_the_latest_positions_newest_first() {
    let terrain = land::<Plain>(1000);
    let mut c = controller::<Plain>(Strategy::Minimize);
    let mut p = ParticleState::new::<Plain>(v(1.0, 10.0, 2.0), v(1.0, 0.0, 0.0), 3, &c);
    let mut random = Seeded { state: 7 };
    let weights = params(1.0, 0.0, 0.0, 0.0, 10.0);
    let mut expected: Vec<(u64, u64, u64)> = vec![];
    for step in 1..=5 {
        let r = c.update::<Plain, Seeded>(
            &mut p,
            v(1.0, 10.0, 2.0),
            &weights,
            &terrain.get_boundary(),
            &terrain,
            &mut random,
        );
        assert_eq!(r, Ok(()));
        expected.insert(0, bits(v(1.0 + step as f64, 10.0, 2.0)));
        expected.truncate(3);
        assert_eq!(history(&p), expected);
    }
    assert_eq!(
        history(&p),
        vec![bits(v(6.0, 10.0, 2.0)), bits(v(5.0, 10.0, 2.0)), bits(v(4.0, 10.0, 2.0))]
    );
}

#[test]
fn a_particle_without_room_remembers_nothing() {
    let terrain = land::<Plain>(1000);
    let mut c = controller::<Plain>(Strategy::Minimize);
    let mut p = ParticleState::new::<Plain>(v(1.0, 10.0, 2.0), v(1.0, 0.0, 0.0), 0, &c);
    let mut random = Seeded { state: 7 };
    for _ in 0..3 {
        let r = c.update::<Plain, Seeded>(
            &mut p,
            v(1.0, 10.0, 2.0),
            &params(1.0, 0.0, 0.0, 0.0, 10.0),
            &terrain.get_boundary(),
            &terrain,
            &mut random,
        );
        assert_eq!(r, Ok(()));
        assert_eq!(history(&p), vec![]);
    }
    assert!(same(p.get_position(), 4.0, 10.0, 2.0));
}

#[test]
fn a_step_without_height_leaves_the_particle_alone() {
    let terrain = land::<Broken>(1000);
    let mut c = controller::<Broken>(Strategy::Minimize);
    let mut p = ParticleState::new::<Broken>(v(1.0, 10.0, 2.0), v(1.0, 0.0, 0.0), 4, &c);
    let mut random = Seeded { state: 7 };
    let r = c.update::<Broken, Seeded>(
        &mut p,
        v(1.0, 10.0, 2.0),
        &params(1.0, 0.0, 0.0, 0.0, 10.0),
        &terrain.get_boundary(),
        &terrain,
        &mut random,
    );
    assert_eq!(r, Err(TerrainError::OutOfProfile));
    assert!(same(p.get_position(), 1.0, 10.0, 2.0));
    assert!(same(p.get_velocity(), 1.0, 0.0, 0.0));
    assert_eq!(p.get_collisions(), 0);
    assert_eq!(history(&p), vec![]);
}
