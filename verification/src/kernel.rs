//! What the engine consumes but does not compute itself: binary64
//! arithmetic, the noise source, the objective surfaces and a source of
//! random numbers.
//!
//! Nothing is assumed of a kernel. The predicates below name "a value that
//! this operation returned for these operands", and the contracts of the
//! engine are written over them.
use vstd::prelude::*;
use crate::scalar::Scalar;

verus! {

/// The numeric operations behind the engine.
pub trait Kernel {
    /// `a + b`.
    fn sum(a: Scalar, b: Scalar) -> Scalar;

    /// `a - b`.
    fn difference(a: Scalar, b: Scalar) -> Scalar;

    /// `a * b`.
    fn product(a: Scalar, b: Scalar) -> Scalar;

    /// `a / b`.
    fn quotient(a: Scalar, b: Scalar) -> Scalar;

    /// The square root of `a`.
    fn square_root(a: Scalar) -> Scalar;

    /// The sine of `a` radians.
    fn sine(a: Scalar) -> Scalar;

    /// The cosine of `a` radians.
    fn cosine(a: Scalar) -> Scalar;

    /// The number closest to the count `n`.
    fn from_count(n: usize) -> Scalar;

    /// `a` cut down to a count: its integer part, limited to what a `usize`
    /// holds.
    fn to_count(a: Scalar) -> usize;

    /// The noise source at a point of space, roughly within `[-1, 1]`.
    fn noise3(x: Scalar, y: Scalar, z: Scalar) -> Scalar;

    /// The Ackley surface at `(x, z)`.
    fn ackley(x: Scalar, z: Scalar) -> Scalar;

    /// The Griewank surface at `(x, z)`.
    fn griewank(x: Scalar, z: Scalar) -> Scalar;
}

/// A source of random numbers, each meant to lie in `[0, 1)`.
pub trait RandomSource {
    fn next(&mut self) -> Scalar;
}

/// `r` is what the kernel's addition gave for `a + b`.
pub open spec fn is_sum<K: Kernel>(a: Scalar, b: Scalar, r: Scalar) -> bool {
    call_ensures(K::sum, (a, b), r)
}

/// `r` is what the kernel's subtraction gave for `a - b`.
pub open spec fn is_difference<K: Kernel>(a: Scalar, b: Scalar, r: Scalar) -> bool {
    call_ensures(K::difference, (a, b), r)
}

/// `r` is what the kernel's multiplication gave for `a * b`.
pub open spec fn is_product<K: Kernel>(a: Scalar, b: Scalar, r: Scalar) -> bool {
    call_ensures(K::product, (a, b), r)
}

/// `r` is what the kernel's division gave for `a / b`.
pub open spec fn is_quotient<K: Kernel>(a: Scalar, b: Scalar, r: Scalar) -> bool {
    call_ensures(K::quotient, (a, b), r)
}

/// `r` is what the kernel gave as the square root of `a`.
pub open spec fn is_square_root<K: Kernel>(a: Scalar, r: Scalar) -> bool {
    call_ensures(K::square_root, (a,), r)
}

/// `r` is what the kernel gave as the sine of `a`.
pub open spec fn is_sine<K: Kernel>(a: Scalar, r: Scalar) -> bool {
    call_ensures(K::sine, (a,), r)
}

/// `r` is what the kernel gave as the cosine of `a`.
pub open spec fn is_cosine<K: Kernel>(a: Scalar, r: Scalar) -> bool {
    call_ensures(K::cosine, (a,), r)
}

/// `r` is the number the kernel gave for the count `n`.
pub open spec fn is_from_count<K: Kernel>(n: usize, r: Scalar) -> bool {
    call_ensures(K::from_count, (n,), r)
}

/// `n` is the count the kernel cut `a` down to.
pub open spec fn is_to_count<K: Kernel>(a: Scalar, n: usize) -> bool {
    call_ensures(K::to_count, (a,), n)
}

/// `r` is what the noise source gave at `(x, y, z)`.
pub open spec fn is_noise<K: Kernel>(x: Scalar, y: Scalar, z: Scalar, r: Scalar) -> bool {
    call_ensures(K::noise3, (x, y, z), r)
}

/// `r` is what the Ackley surface gave at `(x, z)`.
pub open spec fn is_ackley<K: Kernel>(x: Scalar, z: Scalar, r: Scalar) -> bool {
    call_ensures(K::ackley, (x, z), r)
}

/// `r` is what the Griewank surface gave at `(x, z)`.
pub open spec fn is_griewank<K: Kernel>(x: Scalar, z: Scalar, r: Scalar) -> bool {
    call_ensures(K::griewank, (x, z), r)
}

/// The kernel's operations are functions: asked twice for the same
/// operands, each gives the same result.
pub open spec fn deterministic<K: Kernel>() -> bool {
    &&& forall|a: Scalar, b: Scalar, r1: Scalar, r2: Scalar|
        #![trigger is_sum::<K>(a, b, r1), is_sum::<K>(a, b, r2)]
        is_sum::<K>(a, b, r1) && is_sum::<K>(a, b, r2) ==> r1 == r2
    &&& forall|a: Scalar, b: Scalar, r1: Scalar, r2: Scalar|
        #![trigger is_difference::<K>(a, b, r1), is_difference::<K>(a, b, r2)]
        is_difference::<K>(a, b, r1) && is_difference::<K>(a, b, r2) ==> r1 == r2
    &&& forall|a: Scalar, b: Scalar, r1: Scalar, r2: Scalar|
        #![trigger is_product::<K>(a, b, r1), is_product::<K>(a, b, r2)]
        is_product::<K>(a, b, r1) && is_product::<K>(a, b, r2) ==> r1 == r2
    &&& forall|a: Scalar, b: Scalar, r1: Scalar, r2: Scalar|
        #![trigger is_quotient::<K>(a, b, r1), is_quotient::<K>(a, b, r2)]
        is_quotient::<K>(a, b, r1) && is_quotient::<K>(a, b, r2) ==> r1 == r2
    &&& forall|a: Scalar, r1: Scalar, r2: Scalar|
        #![trigger is_square_root::<K>(a, r1), is_square_root::<K>(a, r2)]
        is_square_root::<K>(a, r1) && is_square_root::<K>(a, r2) ==> r1 == r2
    &&& forall|a: Scalar, r1: Scalar, r2: Scalar|
        #![trigger is_sine::<K>(a, r1), is_sine::<K>(a, r2)]
        is_sine::<K>(a, r1) && is_sine::<K>(a, r2) ==> r1 == r2
    &&& forall|a: Scalar, r1: Scalar, r2: Scalar|
        #![trigger is_cosine::<K>(a, r1), is_cosine::<K>(a, r2)]
        is_cosine::<K>(a, r1) && is_cosine::<K>(a, r2) ==> r1 == r2
    &&& forall|n: usize, r1: Scalar, r2: Scalar|
        #![trigger is_from_count::<K>(n, r1), is_from_count::<K>(n, r2)]
        is_from_count::<K>(n, r1) && is_from_count::<K>(n, r2) ==> r1 == r2
    &&& forall|a: Scalar, n1: usize, n2: usize|
        #![trigger is_to_count::<K>(a, n1), is_to_count::<K>(a, n2)]
        is_to_count::<K>(a, n1) && is_to_count::<K>(a, n2) ==> n1 == n2
    &&& forall|x: Scalar, y: Scalar, z: Scalar, r1: Scalar, r2: Scalar|
        #![trigger is_noise::<K>(x, y, z, r1), is_noise::<K>(x, y, z, r2)]
        is_noise::<K>(x, y, z, r1) && is_noise::<K>(x, y, z, r2) ==> r1 == r2
    &&& forall|x: Scalar, z: Scalar, r1: Scalar, r2: Scalar|
        #![trigger is_ackley::<K>(x, z, r1), is_ackley::<K>(x, z, r2)]
        is_ackley::<K>(x, z, r1) && is_ackley::<K>(x, z, r2) ==> r1 == r2
    &&& forall|x: Scalar, z: Scalar, r1: Scalar, r2: Scalar|
        #![trigger is_griewank::<K>(x, z, r1), is_griewank::<K>(x, z, r2)]
        is_griewank::<K>(x, z, r1) && is_griewank::<K>(x, z, r2) ==> r1 == r2
}

impl Scalar {
    pub fn plus<K: Kernel>(self, other: Scalar) -> (r: Scalar)
        ensures
            is_sum::<K>(self, other, r),
    {
        K::sum(self, other)
    }

    pub fn minus<K: Kernel>(self, other: Scalar) -> (r: Scalar)
        ensures
            is_difference::<K>(self, other, r),
    {
        K::difference(self, other)
    }

    pub fn times<K: Kernel>(self, other: Scalar) -> (r: Scalar)
        ensures
            is_product::<K>(self, other, r),
    {
        K::product(self, other)
    }

    pub fn over<K: Kernel>(self, other: Scalar) -> (r: Scalar)
        ensures
            is_quotient::<K>(self, other, r),
    {
        K::quotient(self, other)
    }

    pub fn sqrt<K: Kernel>(self) -> (r: Scalar)
        ensures
            is_square_root::<K>(self, r),
    {
        K::square_root(self)
    }

    pub fn sin<K: Kernel>(self) -> (r: Scalar)
        ensures
            is_sine::<K>(self, r),
    {
        K::sine(self)
    }

    pub fn cos<K: Kernel>(self) -> (r: Scalar)
        ensures
            is_cosine::<K>(self, r),
    {
        K::cosine(self)
    }

    pub fn from_count<K: Kernel>(n: usize) -> (r: Scalar)
        ensures
            is_from_count::<K>(n, r),
    {
        K::from_count(n)
    }

    pub fn to_count<K: Kernel>(self) -> (n: usize)
        ensures
            is_to_count::<K>(self, n),
    {
        K::to_count(self)
    }
}

} // verus!
