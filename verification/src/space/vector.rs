//! Vectors of three-dimensional space.
use vstd::prelude::*;
use vstd::std_specs::cmp::PartialEqSpecImpl;
use crate::kernel::{
    deterministic, is_cosine, is_difference, is_product, is_quotient, is_sine, is_square_root,
    is_sum, Kernel,
};
use crate::scalar::{Scalar, ONE_BITS, ZERO_BITS};

verus! {

/// A vector of R3. `y` is the height; the search and the collisions live on
/// the `(x, z)` plane.
#[derive(Clone, Copy, Debug)]
pub struct Vector {
    pub x: Scalar,
    pub y: Scalar,
    pub z: Scalar,
}

/// `r` is `a * b + c * d`, the products taken first.
pub open spec fn is_sum_of_products<K: Kernel>(
    a: Scalar,
    b: Scalar,
    c: Scalar,
    d: Scalar,
    r: Scalar,
) -> bool {
    exists|p: Scalar, q: Scalar|
        #![trigger is_product::<K>(a, b, p), is_product::<K>(c, d, q)]
        is_product::<K>(a, b, p) && is_product::<K>(c, d, q) && is_sum::<K>(p, q, r)
}

impl Vector {
    /// The vector with every component `0.0`.
    pub open spec fn spec_zero() -> Vector {
        Vector {
            x: Scalar { bits: ZERO_BITS },
            y: Scalar { bits: ZERO_BITS },
            z: Scalar { bits: ZERO_BITS },
        }
    }

    /// `r` is `self + other`, component by component.
    pub open spec fn is_sum<K: Kernel>(self, other: Vector, r: Vector) -> bool {
        &&& is_sum::<K>(self.x, other.x, r.x)
        &&& is_sum::<K>(self.y, other.y, r.y)
        &&& is_sum::<K>(self.z, other.z, r.z)
    }

    /// `r` is `self - other`, component by component.
    pub open spec fn is_difference<K: Kernel>(self, other: Vector, r: Vector) -> bool {
        &&& is_difference::<K>(self.x, other.x, r.x)
        &&& is_difference::<K>(self.y, other.y, r.y)
        &&& is_difference::<K>(self.z, other.z, r.z)
    }

    /// `r` is `c * self`, component by component.
    pub open spec fn is_scaled<K: Kernel>(self, c: Scalar, r: Vector) -> bool {
        &&& is_product::<K>(c, self.x, r.x)
        &&& is_product::<K>(c, self.y, r.y)
        &&& is_product::<K>(c, self.z, r.z)
    }

    /// `r` is `self` turned by `angle` in the plane of its first and second
    /// arguments: `(a cos + b sin, (-a) sin + b cos)`.
    pub open spec fn is_turn<K: Kernel>(
        a: Scalar,
        b: Scalar,
        angle: Scalar,
        ra: Scalar,
        rb: Scalar,
    ) -> bool {
        exists|sin: Scalar, cos: Scalar|
            #![trigger is_sine::<K>(angle, sin), is_cosine::<K>(angle, cos)]
            {
                &&& is_sine::<K>(angle, sin)
                &&& is_cosine::<K>(angle, cos)
                &&& is_sum_of_products::<K>(a, cos, b, sin, ra)
                &&& is_sum_of_products::<K>(a.spec_neg(), sin, b, cos, rb)
            }
    }

    /// `r` is `self` rotated by `angle` radians in the `(x, y)` plane.
    pub open spec fn is_rotation_xy<K: Kernel>(self, angle: Scalar, r: Vector) -> bool {
        Self::is_turn::<K>(self.x, self.y, angle, r.x, r.y) && r.z == self.z
    }

    /// `r` is `self` rotated by `angle` radians in the `(x, z)` plane.
    pub open spec fn is_rotation_xz<K: Kernel>(self, angle: Scalar, r: Vector) -> bool {
        Self::is_turn::<K>(self.x, self.z, angle, r.x, r.z) && r.y == self.y
    }

    /// `r` holds the squares of the components of `self`.
    pub open spec fn is_squared<K: Kernel>(self, r: Vector) -> bool {
        &&& is_product::<K>(self.x, self.x, r.x)
        &&& is_product::<K>(self.y, self.y, r.y)
        &&& is_product::<K>(self.z, self.z, r.z)
    }

    /// `m` is `sqrt(x*x + y*y + z*z)`, summed from the left.
    pub open spec fn is_magnitude<K: Kernel>(self, m: Scalar) -> bool {
        exists|sq: Vector, xy: Scalar, xyz: Scalar|
            #![trigger self.is_squared::<K>(sq), is_sum::<K>(xy, sq.z, xyz)]
            {
                &&& self.is_squared::<K>(sq)
                &&& is_sum::<K>(sq.x, sq.y, xy)
                &&& is_sum::<K>(xy, sq.z, xyz)
                &&& is_square_root::<K>(xyz, m)
            }
    }

    /// `r` is `self` divided by `m`, component by component.
    pub open spec fn is_divided<K: Kernel>(self, m: Scalar, r: Vector) -> bool {
        &&& is_quotient::<K>(self.x, m, r.x)
        &&& is_quotient::<K>(self.y, m, r.y)
        &&& is_quotient::<K>(self.z, m, r.z)
    }

    /// `r` is `self` brought to length one: `self` divided by its magnitude,
    /// or the zero vector where that magnitude compares equal to zero.
    pub open spec fn is_unit<K: Kernel>(self, r: Vector) -> bool {
        exists|m: Scalar|
            #![trigger self.is_magnitude::<K>(m)]
            {
                &&& self.is_magnitude::<K>(m)
                &&& if m.spec_same(Scalar { bits: ZERO_BITS }) {
                    r == Self::spec_zero()
                } else {
                    self.is_divided::<K>(m, r)
                }
            }
    }

    pub fn new(x: Scalar, y: Scalar, z: Scalar) -> (r: Vector)
        ensures
            r == (Vector { x, y, z }),
    {
        Self { x, y, z }
    }

    pub fn zero() -> (r: Vector)
        ensures
            r == Self::spec_zero(),
    {
        Self { x: Scalar::zero(), y: Scalar::zero(), z: Scalar::zero() }
    }

    /// The unit vector along the x axis.
    pub fn unit_x() -> (r: Vector)
        ensures
            r.x.bits == ONE_BITS,
            r.y.bits == ZERO_BITS,
            r.z.bits == ZERO_BITS,
    {
        Self { x: Scalar::one(), y: Scalar::zero(), z: Scalar::zero() }
    }

    /// The unit vector along the y axis.
    pub fn unit_y() -> (r: Vector)
        ensures
            r.x.bits == ZERO_BITS,
            r.y.bits == ONE_BITS,
            r.z.bits == ZERO_BITS,
    {
        Self { y: Scalar::one(), x: Scalar::zero(), z: Scalar::zero() }
    }

    /// The unit vector along the z axis.
    pub fn unit_z() -> (r: Vector)
        ensures
            r.x.bits == ZERO_BITS,
            r.y.bits == ZERO_BITS,
            r.z.bits == ONE_BITS,
    {
        Self { z: Scalar::one(), x: Scalar::zero(), y: Scalar::zero() }
    }

    pub fn add<K: Kernel>(&self, other: &Vector) -> (r: Vector)
        ensures
            self.is_sum::<K>(*other, r),
    {
        Vector {
            x: self.x.plus::<K>(other.x),
            y: self.y.plus::<K>(other.y),
            z: self.z.plus::<K>(other.z),
        }
    }

    pub fn mult<K: Kernel>(&self, c: Scalar) -> (r: Vector)
        ensures
            self.is_scaled::<K>(c, r),
    {
        Vector {
            x: c.times::<K>(self.x),
            y: c.times::<K>(self.y),
            z: c.times::<K>(self.z),
        }
    }

    pub fn sub<K: Kernel>(&self, other: &Vector) -> (r: Vector)
        ensures
            self.is_difference::<K>(*other, r),
    {
        Vector {
            x: self.x.minus::<K>(other.x),
            y: self.y.minus::<K>(other.y),
            z: self.z.minus::<K>(other.z),
        }
    }

    pub fn get_x(&self) -> (r: Scalar)
        ensures
            r == self.x,
    {
        self.x
    }

    pub fn get_y(&self) -> (r: Scalar)
        ensures
            r == self.y,
    {
        self.y
    }

    pub fn get_z(&self) -> (r: Scalar)
        ensures
            r == self.z,
    {
        self.z
    }

    fn sum_of_products<K: Kernel>(a: Scalar, b: Scalar, c: Scalar, d: Scalar) -> (r: Scalar)
        ensures
            is_sum_of_products::<K>(a, b, c, d, r),
    {
        let p = a.times::<K>(b);
        let q = c.times::<K>(d);
        p.plus::<K>(q)
    }

    fn turn<K: Kernel>(a: Scalar, b: Scalar, angle: Scalar) -> (r: (Scalar, Scalar))
        ensures
            Self::is_turn::<K>(a, b, angle, r.0, r.1),
    {
        let sin = angle.sin::<K>();
        let cos = angle.cos::<K>();
        let ra = Self::sum_of_products::<K>(a, cos, b, sin);
        let rb = Self::sum_of_products::<K>(a.neg(), sin, b, cos);
        (ra, rb)
    }

    /// Rotates the vector by `angle` radians in the `(x, y)` plane.
    pub fn rotate_xy<K: Kernel>(&self, angle: Scalar) -> (r: Vector)
        ensures
            self.is_rotation_xy::<K>(angle, r),
    {
        let (x, y) = Self::turn::<K>(self.x, self.y, angle);
        Vector { x, y, z: self.z }
    }

    /// Rotates the vector by `angle` radians in the `(x, z)` plane.
    pub fn rotate_xz<K: Kernel>(&self, angle: Scalar) -> (r: Vector)
        ensures
            self.is_rotation_xz::<K>(angle, r),
    {
        let (x, z) = Self::turn::<K>(self.x, self.z, angle);
        Vector { x, y: self.y, z }
    }

    /// Squares each component of `self`. The second vector takes no part.
    pub fn component_mult<K: Kernel>(&self, other: &Vector) -> (r: Vector)
        ensures
            self.is_squared::<K>(r),
    {
        Self {
            x: self.x.times::<K>(self.x),
            y: self.y.times::<K>(self.y),
            z: self.z.times::<K>(self.z),
        }
    }

    /// The length of the vector.
    pub fn magnitude<K: Kernel>(&self) -> (m: Scalar)
        ensures
            self.is_magnitude::<K>(m),
    {
        let sq = self.component_mult::<K>(self);
        let xy = sq.x.plus::<K>(sq.y);
        let xyz = xy.plus::<K>(sq.z);
        xyz.sqrt::<K>()
    }

    /// The vector of length one that points where `self` points. A vector
    /// whose magnitude compares equal to zero has no direction: it gives
    /// the zero vector.
    pub fn unit<K: Kernel>(&self) -> (r: Vector)
        ensures
            self.is_unit::<K>(r),
    {
        let magnitude = self.magnitude::<K>();
        if magnitude == Scalar::zero() {
            Self::zero()
        } else {
            Self {
                x: self.x.over::<K>(magnitude),
                y: self.y.over::<K>(magnitude),
                z: self.z.over::<K>(magnitude),
            }
        }
    }
}

impl PartialEq for Vector {
    fn eq(&self, other: &Vector) -> (r: bool) {
        self.x == other.x && self.y == other.y && self.z == other.z
    }
}

impl PartialEqSpecImpl for Vector {
    open spec fn obeys_eq_spec() -> bool {
        true
    }

    open spec fn eq_spec(&self, other: &Vector) -> bool {
        &&& self.x.spec_same(other.x)
        &&& self.y.spec_same(other.y)
        &&& self.z.spec_same(other.z)
    }
}

/// On a deterministic kernel a sum of two products is determined by its
/// operands.
pub proof fn lemma_sum_of_products_determined<K: Kernel>(
    a: Scalar,
    b: Scalar,
    c: Scalar,
    d: Scalar,
    r1: Scalar,
    r2: Scalar,
)
    requires
        deterministic::<K>(),
        is_sum_of_products::<K>(a, b, c, d, r1),
        is_sum_of_products::<K>(a, b, c, d, r2),
    ensures
        r1 == r2,
{
    let (ab1, cd1) = choose|p: Scalar, q: Scalar|
        #![trigger is_product::<K>(a, b, p), is_product::<K>(c, d, q)]
        is_product::<K>(a, b, p) && is_product::<K>(c, d, q) && is_sum::<K>(p, q, r1);
    let (ab2, cd2) = choose|p: Scalar, q: Scalar|
        #![trigger is_product::<K>(a, b, p), is_product::<K>(c, d, q)]
        is_product::<K>(a, b, p) && is_product::<K>(c, d, q) && is_sum::<K>(p, q, r2);
    assert(ab1 == ab2);
    assert(cd1 == cd2);
}

/// On a deterministic kernel the vector operations are functions: each
/// result is determined by the operands.
pub proof fn lemma_vector_operations_determined<K: Kernel>(
    a: Vector,
    b: Vector,
    c: Scalar,
    r1: Vector,
    r2: Vector,
)
    requires
        deterministic::<K>(),
    ensures
        a.is_sum::<K>(b, r1) && a.is_sum::<K>(b, r2) ==> r1 == r2,
        a.is_difference::<K>(b, r1) && a.is_difference::<K>(b, r2) ==> r1 == r2,
        a.is_scaled::<K>(c, r1) && a.is_scaled::<K>(c, r2) ==> r1 == r2,
        a.is_squared::<K>(r1) && a.is_squared::<K>(r2) ==> r1 == r2,
        a.is_divided::<K>(c, r1) && a.is_divided::<K>(c, r2) ==> r1 == r2,
        a.is_rotation_xy::<K>(c, r1) && a.is_rotation_xy::<K>(c, r2) ==> r1 == r2,
        a.is_rotation_xz::<K>(c, r1) && a.is_rotation_xz::<K>(c, r2) ==> r1 == r2,
{
    if a.is_rotation_xy::<K>(c, r1) && a.is_rotation_xy::<K>(c, r2) {
        lemma_turn_determined::<K>(a.x, a.y, c, r1.x, r1.y, r2.x, r2.y);
    }
    if a.is_rotation_xz::<K>(c, r1) && a.is_rotation_xz::<K>(c, r2) {
        lemma_turn_determined::<K>(a.x, a.z, c, r1.x, r1.z, r2.x, r2.z);
    }
}

proof fn lemma_turn_determined<K: Kernel>(
    a: Scalar,
    b: Scalar,
    angle: Scalar,
    ra1: Scalar,
    rb1: Scalar,
    ra2: Scalar,
    rb2: Scalar,
)
    requires
        deterministic::<K>(),
        Vector::is_turn::<K>(a, b, angle, ra1, rb1),
        Vector::is_turn::<K>(a, b, angle, ra2, rb2),
    ensures
        ra1 == ra2,
        rb1 == rb2,
{
    let (sin1, cos1) = choose|sin: Scalar, cos: Scalar|
        {
            &&& #[trigger] is_sine::<K>(angle, sin)
            &&& #[trigger] is_cosine::<K>(angle, cos)
            &&& is_sum_of_products::<K>(a, cos, b, sin, ra1)
            &&& is_sum_of_products::<K>(a.spec_neg(), sin, b, cos, rb1)
        };
    let (sin2, cos2) = choose|sin: Scalar, cos: Scalar|
        {
            &&& #[trigger] is_sine::<K>(angle, sin)
            &&& #[trigger] is_cosine::<K>(angle, cos)
            &&& is_sum_of_products::<K>(a, cos, b, sin, ra2)
            &&& is_sum_of_products::<K>(a.spec_neg(), sin, b, cos, rb2)
        };
    assert(sin1 == sin2);
    assert(cos1 == cos2);
    lemma_sum_of_products_determined::<K>(a, cos1, b, sin1, ra1, ra2);
    lemma_sum_of_products_determined::<K>(a.spec_neg(), sin1, b, cos1, rb1, rb2);
}

/// On a deterministic kernel a vector has one magnitude and one unit
/// vector.
pub proof fn lemma_magnitude_determined<K: Kernel>(
    v: Vector,
    m1: Scalar,
    m2: Scalar,
    u1: Vector,
    u2: Vector,
)
    requires
        deterministic::<K>(),
    ensures
        v.is_magnitude::<K>(m1) && v.is_magnitude::<K>(m2) ==> m1 == m2,
        v.is_unit::<K>(u1) && v.is_unit::<K>(u2) ==> u1 == u2,
{
    if v.is_magnitude::<K>(m1) && v.is_magnitude::<K>(m2) {
        lemma_magnitudes_agree::<K>(v, m1, m2);
    }
    if v.is_unit::<K>(u1) && v.is_unit::<K>(u2) {
        let n1 = choose|m: Scalar|
            {
                &&& #[trigger] v.is_magnitude::<K>(m)
                &&& if m.spec_same(Scalar { bits: ZERO_BITS }) {
                    u1 == Vector::spec_zero()
                } else {
                    v.is_divided::<K>(m, u1)
                }
            };
        let n2 = choose|m: Scalar|
            {
                &&& #[trigger] v.is_magnitude::<K>(m)
                &&& if m.spec_same(Scalar { bits: ZERO_BITS }) {
                    u2 == Vector::spec_zero()
                } else {
                    v.is_divided::<K>(m, u2)
                }
            };
        lemma_magnitudes_agree::<K>(v, n1, n2);
    }
}

proof fn lemma_magnitudes_agree<K: Kernel>(v: Vector, m1: Scalar, m2: Scalar)
    requires
        deterministic::<K>(),
        v.is_magnitude::<K>(m1),
        v.is_magnitude::<K>(m2),
    ensures
        m1 == m2,
{
    let (sq1, xy1, xyz1) = choose|sq: Vector, xy: Scalar, xyz: Scalar|
        {
            &&& #[trigger] v.is_squared::<K>(sq)
            &&& is_sum::<K>(sq.x, sq.y, xy)
            &&& #[trigger] is_sum::<K>(xy, sq.z, xyz)
            &&& is_square_root::<K>(xyz, m1)
        };
    let (sq2, xy2, xyz2) = choose|sq: Vector, xy: Scalar, xyz: Scalar|
        {
            &&& #[trigger] v.is_squared::<K>(sq)
            &&& is_sum::<K>(sq.x, sq.y, xy)
            &&& #[trigger] is_sum::<K>(xy, sq.z, xyz)
            &&& is_square_root::<K>(xyz, m2)
        };
    assert(sq1 == sq2);
    assert(xy1 == xy2);
    assert(xyz1 == xyz2);
}

} // verus!
