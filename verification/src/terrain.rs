//! The terrain: a height field made of several octaves of noise, averaged
//! and reshaped by a fixed profile.
use vstd::prelude::*;
use crate::kernel::{
    deterministic, is_from_count, is_noise, is_product, is_quotient, is_sum, Kernel,
};
use crate::scalar::{
    Scalar, FIVE_HUNDRED_BITS, HALF_BITS, HUNDREDTH_BITS, ONE_BITS, QUARTER_BITS, TENTH_BITS,
    THIRTY_BITS, ZERO_BITS,
};
use crate::space::{
    lemma_boundary_determined, lemma_image_determined, lemma_mapped_determined,
    lemma_mapper_determined, lemma_pieces_determined, Boundary, Mapper, PiecewieseInterpolator,
    Vector,
};

verus! {

/// The parameters of a terrain.
#[derive(Clone, Copy, Debug)]
pub struct Config {
    /// The side of the square the terrain covers.
    pub size: usize,
    /// How many times the noise is sampled for one point.
    pub octave_count: usize,
    /// The distance between two samplings of the noise for one point.
    pub octave_delta: Scalar,
    /// What the coordinates are multiplied by before the noise is sampled.
    pub scaling_factor: Scalar,
}

impl Config {
    pub fn new(size: usize, octave_count: usize, octave_delta: Scalar, scaling_factor: Scalar) -> (r:
        Config)
        ensures
            r == (Config { size, octave_count, octave_delta, scaling_factor }),
    {
        Self { size, scaling_factor, octave_count, octave_delta }
    }

    /// A terrain of the given size with four octaves `0.1` apart and
    /// coordinates scaled by `0.01`.
    pub fn new_from_size(size: usize) -> (r: Config)
        ensures
            r.size == size,
            r.octave_count == 4,
            r.octave_delta.bits == TENTH_BITS,
            r.scaling_factor.bits == HUNDREDTH_BITS,
    {
        let octaves: usize = 4;
        let octave_delta = Scalar::from_bits(TENTH_BITS);
        Self::new(size, octaves, octave_delta, Scalar::from_bits(HUNDREDTH_BITS))
    }
}

/// Why the terrain has no height at a point.
#[derive(Clone, Copy, Debug, PartialEq, Eq, Structural)]
pub enum TerrainError {
    /// The averaged noise is not within `[0, 1]`, the range that the height
    /// profile covers.
    OutOfProfile,
}

/// The averaged noise values at which the height profile bends.
pub open spec fn profile_breakpoints() -> Seq<Scalar> {
    seq![
        Scalar { bits: ZERO_BITS },
        Scalar { bits: QUARTER_BITS },
        Scalar { bits: HALF_BITS },
        Scalar { bits: ONE_BITS },
    ]
}

/// The heights at the breakpoints: flat lowlands up to `0.25`, a slope to
/// `30` at `0.5`, a steeper one to `500` at `1`.
pub open spec fn profile_heights() -> Seq<Scalar> {
    seq![
        Scalar { bits: ZERO_BITS },
        Scalar { bits: ZERO_BITS },
        Scalar { bits: THIRTY_BITS },
        Scalar { bits: FIVE_HUNDRED_BITS },
    ]
}

/// `n` octaves of noise above the sampling point `(x, z)`, the first at
/// height `delta` and each next one `delta` higher, add up to `total`;
/// `level` is the height the next octave would be taken at.
pub open spec fn is_octave_sum<K: Kernel>(
    x: Scalar,
    z: Scalar,
    delta: Scalar,
    n: nat,
    level: Scalar,
    total: Scalar,
) -> bool
    decreases n,
{
    if n == 0 {
        level == delta && total == (Scalar { bits: ZERO_BITS })
    } else {
        exists|below: Scalar, subtotal: Scalar, noise: Scalar|
            #![trigger is_noise::<K>(x, below, z, noise), is_sum::<K>(subtotal, noise, total)]
            {
                &&& is_octave_sum::<K>(x, z, delta, (n - 1) as nat, below, subtotal)
                &&& is_noise::<K>(x, below, z, noise)
                &&& is_sum::<K>(subtotal, noise, total)
                &&& is_sum::<K>(below, delta, level)
            }
    }
}

/// A procedural landscape over the square `[-size/2, size/2]²`.
#[derive(Clone, Debug)]
pub struct Terrain {
    config: Config,
    /// Maps parameters in `[0, 1]` onto world coordinates.
    parametric_mapper: Mapper,
    /// Maps world coordinates onto `[0, size]`, where the noise is sampled.
    sampling_mapper: Mapper,
    interpolator: PiecewieseInterpolator,
    boundary: Boundary,
}

impl Terrain {
    pub closed spec fn config(self) -> Config {
        self.config
    }

    pub closed spec fn parametric_mapper(self) -> Mapper {
        self.parametric_mapper
    }

    pub closed spec fn sampling_mapper(self) -> Mapper {
        self.sampling_mapper
    }

    /// The height profile.
    pub closed spec fn interpolator(self) -> PiecewieseInterpolator {
        self.interpolator
    }

    pub closed spec fn boundary(self) -> Boundary {
        self.boundary
    }

    /// `self` and `other` are alike in all that can be told of a terrain.
    pub open spec fn same_as(self, other: Terrain) -> bool {
        &&& self.config() == other.config()
        &&& self.parametric_mapper() == other.parametric_mapper()
        &&& self.sampling_mapper() == other.sampling_mapper()
        &&& self.interpolator().same_as(other.interpolator())
        &&& self.boundary() == other.boundary()
    }

    /// The height profile has its three pieces, which meet at the
    /// breakpoints.
    pub open spec fn well_formed(self) -> bool {
        &&& self.interpolator().well_formed()
        &&& self.interpolator().domains().len() == 3
        &&& forall|i: int|
            0 <= i < 3 ==> (#[trigger] self.interpolator().domains()[i]).low()
                == profile_breakpoints()[i] && self.interpolator().domains()[i].high()
                == profile_breakpoints()[i + 1]
        &&& self.boundary().ordered()
    }

    /// `self` is the terrain that `config` describes.
    pub open spec fn is_built<K: Kernel>(self, config: Config) -> bool {
        &&& self.config() == config
        &&& self.interpolator().is_over::<K>(profile_breakpoints(), profile_heights())
        &&& exists|offset: Scalar, extent: Scalar|
            {
                &&& #[trigger] is_from_count::<K>((config.size / 2) as usize, offset)
                &&& #[trigger] is_from_count::<K>(config.size, extent)
                &&& self.parametric_mapper().is_between::<K>(
                    Scalar { bits: ZERO_BITS },
                    Scalar { bits: ONE_BITS },
                    offset.spec_neg(),
                    offset,
                )
                &&& self.sampling_mapper().is_between::<K>(
                    offset.spec_neg(),
                    offset,
                    Scalar { bits: ZERO_BITS },
                    extent,
                )
                &&& self.boundary().is_between(offset.spec_neg(), offset, offset.spec_neg(), offset)
            }
    }

    /// `s` is where the noise is sampled for the world coordinate `c`: `c`
    /// mapped onto `[0, size]`, times the scaling factor.
    pub open spec fn is_sampling_coordinate<K: Kernel>(self, c: Scalar, s: Scalar) -> bool {
        exists|mapped: Scalar|
            #![trigger self.sampling_mapper().is_image::<K>(c, mapped)]
            {
                &&& self.sampling_mapper().is_image::<K>(c, mapped)
                &&& is_product::<K>(mapped, self.config().scaling_factor, s)
            }
    }

    /// `average` is the noise above `(x, z)`, averaged over the octaves.
    pub open spec fn is_averaged_noise<K: Kernel>(self, x: Scalar, z: Scalar, average: Scalar) -> bool {
        exists|sx: Scalar, sz: Scalar, level: Scalar, total: Scalar, count: Scalar|
            {
                &&& self.is_sampling_coordinate::<K>(x, sx)
                &&& self.is_sampling_coordinate::<K>(z, sz)
                &&& #[trigger] is_octave_sum::<K>(
                    sx,
                    sz,
                    self.config().octave_delta,
                    self.config().octave_count as nat,
                    level,
                    total,
                )
                &&& is_from_count::<K>(self.config().octave_count, count)
                &&& #[trigger] is_quotient::<K>(total, count, average)
            }
    }

    /// The averaged noise `average` lies where the profile is defined.
    pub open spec fn within_profile(average: Scalar) -> bool {
        average.spec_ge(Scalar { bits: ZERO_BITS }) && average.spec_le(Scalar { bits: ONE_BITS })
    }

    /// `r` is the height at `(x, z)`: the profile's image of the averaged
    /// noise, or the error where that average is not within `[0, 1]`.
    pub open spec fn is_height<K: Kernel>(
        self,
        x: Scalar,
        z: Scalar,
        r: Result<Scalar, TerrainError>,
    ) -> bool {
        exists|average: Scalar|
            #![trigger self.is_averaged_noise::<K>(x, z, average)]
            {
                &&& self.is_averaged_noise::<K>(x, z, average)
                &&& match r {
                    Ok(height) => Self::within_profile(average) && self.interpolator().is_mapped::<
                        K,
                    >(average, Some(height)),
                    Err(_) => !Self::within_profile(average),
                }
            }
    }

    /// `r` is the point of the surface above the parameters `(u, v)`.
    pub open spec fn is_surface_point<K: Kernel>(
        self,
        u: Scalar,
        v: Scalar,
        r: Result<Vector, TerrainError>,
    ) -> bool {
        exists|x: Scalar, z: Scalar|
            {
                &&& #[trigger] self.parametric_mapper().is_image::<K>(u, x)
                &&& #[trigger] self.parametric_mapper().is_image::<K>(v, z)
                &&& match r {
                    Ok(point) => point.x == x && point.z == z && self.is_height::<K>(
                        x,
                        z,
                        Ok(point.y),
                    ),
                    Err(e) => self.is_height::<K>(x, z, Err(e)),
                }
            }
    }

    pub fn new<K: Kernel>(config: Config) -> (r: Terrain)
        ensures
            r.well_formed(),
            r.is_built::<K>(config),
    {
        let mut from: Vec<Scalar> = Vec::new();
        from.push(Scalar::zero());
        from.push(Scalar::from_bits(QUARTER_BITS));
        from.push(Scalar::half());
        from.push(Scalar::one());
        let mut to: Vec<Scalar> = Vec::new();
        to.push(Scalar::zero());
        to.push(Scalar::zero());
        to.push(Scalar::from_bits(THIRTY_BITS));
        to.push(Scalar::from_bits(FIVE_HUNDRED_BITS));
        assert(from@ =~= profile_breakpoints());
        assert(to@ =~= profile_heights());
        let interpolator = PiecewieseInterpolator::new::<K>(from, to).unwrap();

        let offset = Scalar::from_count::<K>(config.size / 2);
        let extent = Scalar::from_count::<K>(config.size);
        let parametric_mapper = Mapper::new_from_pair::<K>(
            [Scalar::zero(), Scalar::one()],
            [offset.neg(), offset],
        );
        let sampling_mapper = Mapper::new_from_pair::<K>(
            [offset.neg(), offset],
            [Scalar::zero(), extent],
        );
        let boundary = Boundary::new(offset.neg(), offset, offset.neg(), offset);
        let r = Self { config, parametric_mapper, interpolator, boundary, sampling_mapper };
        proof {
            assert forall|i: int| 0 <= i < 3 implies (#[trigger] r.interpolator().domains()[i]).low()
                == profile_breakpoints()[i] && r.interpolator().domains()[i].high()
                == profile_breakpoints()[i + 1] by {
                assert(r.interpolator().is_piece::<K>(i, profile_breakpoints(), profile_heights()));
            }
            assert(is_from_count::<K>((config.size / 2) as usize, offset));
            assert(is_from_count::<K>(config.size, extent));
        }
        r
    }

    fn sampling_coordinate<K: Kernel>(&self, c: Scalar) -> (s: Scalar)
        ensures
            self.is_sampling_coordinate::<K>(c, s),
    {
        let mapped = self.sampling_mapper.map::<K>(c);
        let s = mapped.times::<K>(self.config.scaling_factor);
        assert(self.sampling_mapper().is_image::<K>(c, mapped));
        s
    }

    /// The height of the terrain at `(x, z)`.
    pub fn get_height<K: Kernel>(&self, x: Scalar, z: Scalar) -> (r: Result<Scalar, TerrainError>)
        requires
            self.well_formed(),
        ensures
            self.is_height::<K>(x, z, r),
    {
        let sx = self.sampling_coordinate::<K>(x);
        let sz = self.sampling_coordinate::<K>(z);

        let delta = self.config.octave_delta;
        let mut sample_y = delta;
        let mut y = Scalar::zero();
        let mut octave: usize = 0;
        while octave < self.config.octave_count
            invariant
                octave <= self.config.octave_count,
                delta == self.config.octave_delta,
                is_octave_sum::<K>(sx, sz, delta, octave as nat, sample_y, y),
            decreases self.config.octave_count - octave,
        {
            let noise = K::noise3(sx, sample_y, sz);
            let total = y.plus::<K>(noise);
            let level = sample_y.plus::<K>(delta);
            proof {
                assert(is_noise::<K>(sx, sample_y, sz, noise));
                assert(is_octave_sum::<K>(sx, sz, delta, ((octave + 1) - 1) as nat, sample_y, y));
                assert(is_octave_sum::<K>(sx, sz, delta, (octave + 1) as nat, level, total));
            }
            y = total;
            sample_y = level;
            octave += 1;
        }
        let count = Scalar::from_count::<K>(self.config.octave_count);
        let average = y.over::<K>(count);
        proof {
            assert(is_octave_sum::<K>(
                sx,
                sz,
                self.config().octave_delta,
                self.config().octave_count as nat,
                sample_y,
                y,
            ));
            assert(self.is_averaged_noise::<K>(x, z, average));
        }
        match self.interpolator.map::<K>(average) {
            Some(height) => {
                proof {
                    lemma_profile_covers_unit_interval(*self, average);
                }
                Ok(height)
            },
            None => {
                proof {
                    lemma_profile_covers_unit_interval(*self, average);
                }
                Err(TerrainError::OutOfProfile)
            },
        }
    }

    /// The point of the surface above the parameters `(x, z)`, each in
    /// `[0, 1]`.
    pub fn get_point_from_parametric<K: Kernel>(&self, x: Scalar, z: Scalar) -> (r: Result<
        Vector,
        TerrainError,
    >)
        requires
            self.well_formed(),
        ensures
            self.is_surface_point::<K>(x, z, r),
    {
        let u = x;
        let v = z;
        let x = self.parametric_mapper.map::<K>(u);
        let z = self.parametric_mapper.map::<K>(v);
        assert(self.parametric_mapper().is_image::<K>(u, x));
        assert(self.parametric_mapper().is_image::<K>(v, z));
        match self.get_height::<K>(x, z) {
            Ok(y) => Ok(Vector { x, y, z }),
            Err(e) => Err(e),
        }
    }

    pub fn get_boundary(&self) -> (r: Boundary)
        ensures
            r == self.boundary(),
    {
        self.boundary
    }

    pub fn get_size(&self) -> (r: usize)
        ensures
            r == self.config().size,
    {
        self.config.size
    }

    pub fn get_config(&self) -> (r: Config)
        ensures
            r == self.config(),
    {
        self.config
    }
}

/// The pieces of the height profile cover `[0, 1]` and nothing else: an
/// averaged noise value has a piece exactly when it lies in that range.
pub proof fn lemma_profile_covers_unit_interval(terrain: Terrain, average: Scalar)
    requires
        terrain.well_formed(),
    ensures
        terrain.interpolator().outside(average) <==> !Terrain::within_profile(average),
{
    let domains = terrain.interpolator().domains();
    assert(domains[0].low() == profile_breakpoints()[0]);
    assert(domains[1].low() == profile_breakpoints()[1]);
    assert(domains[2].low() == profile_breakpoints()[2]);
    if Terrain::within_profile(average) {
        if average.spec_le(Scalar { bits: QUARTER_BITS }) {
            assert(domains[0].spec_contains(average));
        } else if average.spec_le(Scalar { bits: HALF_BITS }) {
            assert(domains[1].spec_contains(average));
        } else {
            assert(domains[2].spec_contains(average));
        }
    }
}

/// On a deterministic kernel the octaves above a sampling point add up to
/// one total.
pub proof fn lemma_octave_sum_determined<K: Kernel>(
    x: Scalar,
    z: Scalar,
    delta: Scalar,
    n: nat,
    level1: Scalar,
    total1: Scalar,
    level2: Scalar,
    total2: Scalar,
)
    requires
        deterministic::<K>(),
        is_octave_sum::<K>(x, z, delta, n, level1, total1),
        is_octave_sum::<K>(x, z, delta, n, level2, total2),
    ensures
        level1 == level2,
        total1 == total2,
    decreases n,
{
    if n > 0 {
        let (below1, subtotal1, noise1) = choose|below: Scalar, subtotal: Scalar, noise: Scalar|
            {
                &&& is_octave_sum::<K>(x, z, delta, (n - 1) as nat, below, subtotal)
                &&& #[trigger] is_noise::<K>(x, below, z, noise)
                &&& #[trigger] is_sum::<K>(subtotal, noise, total1)
                &&& is_sum::<K>(below, delta, level1)
            };
        let (below2, subtotal2, noise2) = choose|below: Scalar, subtotal: Scalar, noise: Scalar|
            {
                &&& is_octave_sum::<K>(x, z, delta, (n - 1) as nat, below, subtotal)
                &&& #[trigger] is_noise::<K>(x, below, z, noise)
                &&& #[trigger] is_sum::<K>(subtotal, noise, total2)
                &&& is_sum::<K>(below, delta, level2)
            };
        lemma_octave_sum_determined::<K>(
            x,
            z,
            delta,
            (n - 1) as nat,
            below1,
            subtotal1,
            below2,
            subtotal2,
        );
        assert(noise1 == noise2);
    }
}

proof fn lemma_sampling_coordinate_determined<K: Kernel>(
    terrain1: Terrain,
    terrain2: Terrain,
    c: Scalar,
    s1: Scalar,
    s2: Scalar,
)
    requires
        deterministic::<K>(),
        terrain1.same_as(terrain2),
        terrain1.is_sampling_coordinate::<K>(c, s1),
        terrain2.is_sampling_coordinate::<K>(c, s2),
    ensures
        s1 == s2,
{
    let mapped1 = choose|mapped: Scalar|
        {
            &&& #[trigger] terrain1.sampling_mapper().is_image::<K>(c, mapped)
            &&& is_product::<K>(mapped, terrain1.config().scaling_factor, s1)
        };
    let mapped2 = choose|mapped: Scalar|
        {
            &&& #[trigger] terrain2.sampling_mapper().is_image::<K>(c, mapped)
            &&& is_product::<K>(mapped, terrain2.config().scaling_factor, s2)
        };
    lemma_image_determined::<K>(terrain1.sampling_mapper(), c, mapped1, mapped2);
}

proof fn lemma_averaged_noise_determined<K: Kernel>(
    terrain1: Terrain,
    terrain2: Terrain,
    x: Scalar,
    z: Scalar,
    a1: Scalar,
    a2: Scalar,
)
    requires
        deterministic::<K>(),
        terrain1.same_as(terrain2),
        terrain1.is_averaged_noise::<K>(x, z, a1),
        terrain2.is_averaged_noise::<K>(x, z, a2),
    ensures
        a1 == a2,
{
    let delta = terrain1.config().octave_delta;
    let n = terrain1.config().octave_count;
    let (sx1, sz1, level1, total1, count1) = choose|
        sx: Scalar,
        sz: Scalar,
        level: Scalar,
        total: Scalar,
        count: Scalar,
    |
        {
            &&& terrain1.is_sampling_coordinate::<K>(x, sx)
            &&& terrain1.is_sampling_coordinate::<K>(z, sz)
            &&& #[trigger] is_octave_sum::<K>(sx, sz, delta, n as nat, level, total)
            &&& is_from_count::<K>(n, count)
            &&& #[trigger] is_quotient::<K>(total, count, a1)
        };
    let (sx2, sz2, level2, total2, count2) = choose|
        sx: Scalar,
        sz: Scalar,
        level: Scalar,
        total: Scalar,
        count: Scalar,
    |
        {
            &&& terrain2.is_sampling_coordinate::<K>(x, sx)
            &&& terrain2.is_sampling_coordinate::<K>(z, sz)
            &&& #[trigger] is_octave_sum::<K>(sx, sz, delta, n as nat, level, total)
            &&& is_from_count::<K>(n, count)
            &&& #[trigger] is_quotient::<K>(total, count, a2)
        };
    lemma_sampling_coordinate_determined::<K>(terrain1, terrain2, x, sx1, sx2);
    lemma_sampling_coordinate_determined::<K>(terrain1, terrain2, z, sz1, sz2);
    lemma_octave_sum_determined::<K>(sx1, sz1, delta, n as nat, level1, total1, level2, total2);
    assert(count1 == count2);
}

/// On a deterministic kernel a point of the plane has one height, or none,
/// and the same on every terrain that is alike.
pub proof fn lemma_height_determined<K: Kernel>(
    terrain1: Terrain,
    terrain2: Terrain,
    x: Scalar,
    z: Scalar,
    r1: Result<Scalar, TerrainError>,
    r2: Result<Scalar, TerrainError>,
)
    requires
        deterministic::<K>(),
        terrain1.same_as(terrain2),
        terrain1.is_height::<K>(x, z, r1),
        terrain2.is_height::<K>(x, z, r2),
    ensures
        r1 == r2,
{
    let a1 = choose|average: Scalar|
        {
            &&& #[trigger] terrain1.is_averaged_noise::<K>(x, z, average)
            &&& match r1 {
                Ok(height) => Terrain::within_profile(average) && terrain1.interpolator().is_mapped::<
                    K,
                >(average, Some(height)),
                Err(_) => !Terrain::within_profile(average),
            }
        };
    let a2 = choose|average: Scalar|
        {
            &&& #[trigger] terrain2.is_averaged_noise::<K>(x, z, average)
            &&& match r2 {
                Ok(height) => Terrain::within_profile(average) && terrain2.interpolator().is_mapped::<
                    K,
                >(average, Some(height)),
                Err(_) => !Terrain::within_profile(average),
            }
        };
    lemma_averaged_noise_determined::<K>(terrain1, terrain2, x, z, a1, a2);
    match (r1, r2) {
        (Ok(h1), Ok(h2)) => {
            lemma_mapped_determined::<K>(
                terrain1.interpolator(),
                terrain2.interpolator(),
                a1,
                Some(h1),
                Some(h2),
            );
        },
        (Err(e1), Err(e2)) => {
            assert(e1 is OutOfProfile && e2 is OutOfProfile);
        },
        _ => {},
    }
}

/// On a deterministic kernel a pair of parameters has one surface point,
/// or none, and the same on every terrain that is alike.
pub proof fn lemma_surface_point_determined<K: Kernel>(
    terrain1: Terrain,
    terrain2: Terrain,
    u: Scalar,
    v: Scalar,
    r1: Result<Vector, TerrainError>,
    r2: Result<Vector, TerrainError>,
)
    requires
        deterministic::<K>(),
        terrain1.same_as(terrain2),
        terrain1.is_surface_point::<K>(u, v, r1),
        terrain2.is_surface_point::<K>(u, v, r2),
    ensures
        r1 == r2,
{
    let (x1, z1) = choose|x: Scalar, z: Scalar|
        {
            &&& #[trigger] terrain1.parametric_mapper().is_image::<K>(u, x)
            &&& #[trigger] terrain1.parametric_mapper().is_image::<K>(v, z)
            &&& match r1 {
                Ok(point) => point.x == x && point.z == z && terrain1.is_height::<K>(
                    x,
                    z,
                    Ok(point.y),
                ),
                Err(e) => terrain1.is_height::<K>(x, z, Err(e)),
            }
        };
    let (x2, z2) = choose|x: Scalar, z: Scalar|
        {
            &&& #[trigger] terrain2.parametric_mapper().is_image::<K>(u, x)
            &&& #[trigger] terrain2.parametric_mapper().is_image::<K>(v, z)
            &&& match r2 {
                Ok(point) => point.x == x && point.z == z && terrain2.is_height::<K>(
                    x,
                    z,
                    Ok(point.y),
                ),
                Err(e) => terrain2.is_height::<K>(x, z, Err(e)),
            }
        };
    lemma_image_determined::<K>(terrain1.parametric_mapper(), u, x1, x2);
    lemma_image_determined::<K>(terrain1.parametric_mapper(), v, z1, z2);
    let h1: Result<Scalar, TerrainError> = match r1 {
        Ok(point) => Ok(point.y),
        Err(e) => Err(e),
    };
    let h2: Result<Scalar, TerrainError> = match r2 {
        Ok(point) => Ok(point.y),
        Err(e) => Err(e),
    };
    lemma_height_determined::<K>(terrain1, terrain2, x1, z1, h1, h2);
}

/// On a deterministic kernel a terrain is determined by its configuration:
/// terrains built from the same configuration are alike.
pub proof fn lemma_terrain_determined<K: Kernel>(first: Terrain, second: Terrain, config: Config)
    requires
        deterministic::<K>(),
        first.is_built::<K>(config),
        second.is_built::<K>(config),
    ensures
        first.same_as(second),
{
    let zero = Scalar { bits: ZERO_BITS };
    let one = Scalar { bits: ONE_BITS };
    let half_size = (config.size / 2) as usize;
    let (offset1, extent1) = choose|offset: Scalar, extent: Scalar|
        {
            &&& #[trigger] is_from_count::<K>(half_size, offset)
            &&& #[trigger] is_from_count::<K>(config.size, extent)
            &&& first.parametric_mapper().is_between::<K>(zero, one, offset.spec_neg(), offset)
            &&& first.sampling_mapper().is_between::<K>(offset.spec_neg(), offset, zero, extent)
            &&& first.boundary().is_between(offset.spec_neg(), offset, offset.spec_neg(), offset)
        };
    let (offset2, extent2) = choose|offset: Scalar, extent: Scalar|
        {
            &&& #[trigger] is_from_count::<K>(half_size, offset)
            &&& #[trigger] is_from_count::<K>(config.size, extent)
            &&& second.parametric_mapper().is_between::<K>(zero, one, offset.spec_neg(), offset)
            &&& second.sampling_mapper().is_between::<K>(offset.spec_neg(), offset, zero, extent)
            &&& second.boundary().is_between(offset.spec_neg(), offset, offset.spec_neg(), offset)
        };
    assert(offset1 == offset2);
    assert(extent1 == extent2);
    let low = offset1.spec_neg();
    lemma_mapper_determined::<K>(
        first.parametric_mapper(),
        second.parametric_mapper(),
        zero,
        one,
        low,
        offset1,
    );
    lemma_mapper_determined::<K>(
        first.sampling_mapper(),
        second.sampling_mapper(),
        low,
        offset1,
        zero,
        extent1,
    );
    lemma_boundary_determined(first.boundary(), second.boundary(), low, offset1, low, offset1);
    lemma_pieces_determined::<K>(
        first.interpolator(),
        second.interpolator(),
        profile_breakpoints(),
        profile_heights(),
    );
}

} // verus!
