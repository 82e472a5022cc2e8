//! Geometry of the search space: the rectangle the particles stay in,
//! interval remapping, and piecewise-linear remapping.
use vstd::prelude::*;
use crate::kernel::{deterministic, is_difference, is_product, is_quotient, is_sum, Kernel};
use crate::scalar::Scalar;

pub mod vector;

pub use vector::Vector;

verus! {

pub type Pair = [Scalar; 2];

pub type Triplet = [Scalar; 3];

#[derive(Clone, Copy, Debug)]
pub struct Point2D {
    pub a: Scalar,
    pub b: Scalar,
}

impl Point2D {
    pub fn new(a: Scalar, b: Scalar) -> (r: Point2D)
        ensures
            r == (Point2D { a, b }),
    {
        Self { a, b }
    }
}

/// An axis-aligned rectangle of the `(x, z)` plane.
#[derive(Clone, Copy, Debug)]
pub struct Boundary {
    min_x: Scalar,
    max_x: Scalar,
    min_z: Scalar,
    max_z: Scalar,
}

impl Boundary {
    pub closed spec fn min_x(self) -> Scalar {
        self.min_x
    }

    pub closed spec fn max_x(self) -> Scalar {
        self.max_x
    }

    pub closed spec fn min_z(self) -> Scalar {
        self.min_z
    }

    pub closed spec fn max_z(self) -> Scalar {
        self.max_z
    }

    /// No lower edge lies above its upper edge. Every boundary that `new`
    /// builds is ordered.
    pub open spec fn ordered(self) -> bool {
        !self.min_x().spec_gt(self.max_x()) && !self.min_z().spec_gt(self.max_z())
    }

    /// The edges are numbers, and each lower edge is at most its upper edge.
    pub open spec fn proper(self) -> bool {
        self.min_x().spec_le(self.max_x()) && self.min_z().spec_le(self.max_z())
    }

    /// `v` brought to the nearest value of `[low, high]`; a `v` that compares
    /// neither below `low` nor above `high` stays.
    pub open spec fn clamp(low: Scalar, high: Scalar, v: Scalar) -> Scalar {
        if v.spec_lt(low) {
            low
        } else if v.spec_gt(high) {
            high
        } else {
            v
        }
    }

    /// `v` with `x` and `z` clamped into the rectangle, `y` untouched.
    pub open spec fn spec_clip(self, v: Vector) -> Vector {
        Vector {
            x: Self::clamp(self.min_x(), self.max_x(), v.x),
            y: v.y,
            z: Self::clamp(self.min_z(), self.max_z(), v.z),
        }
    }

    /// `self` is the rectangle between the given edges, with edges given the
    /// wrong way round swapped.
    pub open spec fn is_between(
        self,
        min_x: Scalar,
        max_x: Scalar,
        min_z: Scalar,
        max_z: Scalar,
    ) -> bool {
        &&& self.min_x() == if min_x.spec_gt(max_x) { max_x } else { min_x }
        &&& self.max_x() == if min_x.spec_gt(max_x) { min_x } else { max_x }
        &&& self.min_z() == if min_z.spec_gt(max_z) { max_z } else { min_z }
        &&& self.max_z() == if min_z.spec_gt(max_z) { min_z } else { max_z }
    }

    /// The rectangle between the given edges. Edges given the wrong way
    /// round are swapped.
    pub fn new(min_x: Scalar, max_x: Scalar, min_z: Scalar, max_z: Scalar) -> (r: Boundary)
        ensures
            r.is_between(min_x, max_x, min_z, max_z),
            r.ordered(),
            !min_x.nan() && !max_x.nan() && !min_z.nan() && !max_z.nan() ==> r.proper(),
    {
        let mut min_x = min_x;
        let mut max_x = max_x;
        let mut min_z = min_z;
        let mut max_z = max_z;
        if min_x.gt(&max_x) {
            let low = max_x;
            max_x = min_x;
            min_x = low;
        }
        if min_z.gt(&max_z) {
            let low = max_z;
            max_z = min_z;
            min_z = low;
        }
        Self { min_x, max_x, min_z, max_z }
    }

    pub fn get_min_x(&self) -> (r: Scalar)
        ensures
            r == self.min_x(),
    {
        self.min_x
    }

    pub fn get_max_x(&self) -> (r: Scalar)
        ensures
            r == self.max_x(),
    {
        self.max_x
    }

    pub fn get_min_z(&self) -> (r: Scalar)
        ensures
            r == self.min_z(),
    {
        self.min_z
    }

    pub fn get_max_z(&self) -> (r: Scalar)
        ensures
            r == self.max_z(),
    {
        self.max_z
    }

    /// Brings a vector into the rectangle: a component outside an edge is
    /// moved onto that edge.
    pub fn clip(&self, vec: &Vector) -> (r: Vector)
        ensures
            r == self.spec_clip(*vec),
            r.y == vec.y,
            self.proper() && !vec.x.nan() ==> self.min_x().spec_le(r.x) && r.x.spec_le(
                self.max_x(),
            ),
            self.proper() && !vec.z.nan() ==> self.min_z().spec_le(r.z) && r.z.spec_le(
                self.max_z(),
            ),
            self.ordered() ==> self.spec_clip(r) == r,
    {
        let mut vec = *vec;
        if vec.x.lt(&self.min_x) {
            vec.x = self.min_x;
        } else if vec.x.gt(&self.max_x) {
            vec.x = self.max_x;
        }
        if vec.z.lt(&self.min_z) {
            vec.z = self.min_z;
        } else if vec.z.gt(&self.max_z) {
            vec.z = self.max_z;
        }
        vec
    }
}

/// A clipped vector lies inside the rectangle and keeps its height, for a
/// rectangle whose edges are numbers in order and a vector whose `x` and `z`
/// are numbers.
pub proof fn lemma_clip_within(b: Boundary, v: Vector)
    requires
        b.proper(),
        !v.x.nan(),
        !v.z.nan(),
    ensures
        b.min_x().spec_le(b.spec_clip(v).x),
        b.spec_clip(v).x.spec_le(b.max_x()),
        b.min_z().spec_le(b.spec_clip(v).z),
        b.spec_clip(v).z.spec_le(b.max_z()),
        b.spec_clip(v).y == v.y,
{
}

/// Clipping twice is clipping once.
pub proof fn lemma_clip_idempotent(b: Boundary, v: Vector)
    requires
        b.ordered(),
    ensures
        b.spec_clip(b.spec_clip(v)) == b.spec_clip(v),
{
}

/// Maps one interval onto another, affinely.
#[derive(Clone, Copy, Debug)]
pub struct Mapper {
    start1: Scalar,
    stop1: Scalar,
    start2: Scalar,
    stop2: Scalar,
    delta1: Scalar,
    delta2: Scalar,
}

impl Mapper {
    pub closed spec fn start1(self) -> Scalar {
        self.start1
    }

    pub closed spec fn stop1(self) -> Scalar {
        self.stop1
    }

    pub closed spec fn start2(self) -> Scalar {
        self.start2
    }

    pub closed spec fn stop2(self) -> Scalar {
        self.stop2
    }

    /// The length of the source interval, as computed at construction.
    pub closed spec fn delta1(self) -> Scalar {
        self.delta1
    }

    /// The length of the target interval, as computed at construction.
    pub closed spec fn delta2(self) -> Scalar {
        self.delta2
    }

    /// `self` maps `[start1, stop1]` onto `[start2, stop2]`, with both
    /// lengths taken by the kernel.
    pub open spec fn is_between<K: Kernel>(
        self,
        start1: Scalar,
        stop1: Scalar,
        start2: Scalar,
        stop2: Scalar,
    ) -> bool {
        &&& self.start1() == start1
        &&& self.stop1() == stop1
        &&& self.start2() == start2
        &&& self.stop2() == stop2
        &&& is_difference::<K>(stop1, start1, self.delta1())
        &&& is_difference::<K>(stop2, start2, self.delta2())
    }

    /// `y` is the image of `x`: `delta2 * (x - start1) / delta1 + start2`,
    /// evaluated from the left.
    pub open spec fn is_image<K: Kernel>(self, x: Scalar, y: Scalar) -> bool {
        exists|offset: Scalar, scaled: Scalar, ratio: Scalar|
            {
                &&& is_difference::<K>(x, self.start1(), offset)
                &&& #[trigger] is_product::<K>(self.delta2(), offset, scaled)
                &&& #[trigger] is_quotient::<K>(scaled, self.delta1(), ratio)
                &&& is_sum::<K>(ratio, self.start2(), y)
            }
    }

    pub fn new<K: Kernel>(start1: Scalar, stop1: Scalar, start2: Scalar, stop2: Scalar) -> (r:
        Mapper)
        ensures
            r.is_between::<K>(start1, stop1, start2, stop2),
    {
        Self {
            start1,
            stop1,
            start2,
            stop2,
            delta1: stop1.minus::<K>(start1),
            delta2: stop2.minus::<K>(start2),
        }
    }

    /// The image of `x`. Where the source interval has no length the result
    /// is whatever the kernel's division by zero gives.
    pub fn map<K: Kernel>(&self, x: Scalar) -> (y: Scalar)
        ensures
            self.is_image::<K>(x, y),
    {
        let offset = x.minus::<K>(self.start1);
        let scaled = self.delta2.times::<K>(offset);
        let ratio = scaled.over::<K>(self.delta1);
        let y = ratio.plus::<K>(self.start2);
        assert(is_product::<K>(self.delta2(), offset, scaled));
        assert(is_quotient::<K>(scaled, self.delta1(), ratio));
        y
    }

    pub fn new_from_pair<K: Kernel>(from: Pair, to: Pair) -> (r: Mapper)
        ensures
            r.is_between::<K>(from[0], from[1], to[0], to[1]),
    {
        Self::new::<K>(from[0], from[1], to[0], to[1])
    }
}

/// The closed interval from `a` to `b`.
#[derive(Clone, Copy, Debug)]
pub struct Domain {
    a: Scalar,
    b: Scalar,
}

impl Domain {
    pub closed spec fn low(self) -> Scalar {
        self.a
    }

    pub closed spec fn high(self) -> Scalar {
        self.b
    }

    /// Both ends belong to the interval.
    pub open spec fn spec_contains(self, x: Scalar) -> bool {
        x.spec_ge(self.low()) && x.spec_le(self.high())
    }

    pub fn new(a: Scalar, b: Scalar) -> (r: Domain)
        ensures
            r.low() == a,
            r.high() == b,
    {
        Self { a, b }
    }

    pub fn contains(&self, x: Scalar) -> (r: bool)
        ensures
            r == self.spec_contains(x),
    {
        if x.ge(&self.a) && x.le(&self.b) {
            true
        } else {
            false
        }
    }
}

/// A piecewise-linear map: adjacent intervals, each with the affine map that
/// applies on it.
#[derive(Clone, Debug)]
pub struct PiecewieseInterpolator {
    domains: Vec<Domain>,
    mappers: Vec<Mapper>,
}

impl PiecewieseInterpolator {
    /// The intervals, in the order they are tried.
    pub closed spec fn domains(self) -> Seq<Domain> {
        self.domains@
    }

    /// The affine maps, one for each interval.
    pub closed spec fn mappers(self) -> Seq<Mapper> {
        self.mappers@
    }

    /// `self` and `other` have the same intervals with the same maps.
    pub open spec fn same_as(self, other: PiecewieseInterpolator) -> bool {
        self.domains() == other.domains() && self.mappers() == other.mappers()
    }

    /// Every interval has its map.
    pub open spec fn well_formed(self) -> bool {
        self.domains().len() == self.mappers().len()
    }

    /// Piece `i` runs from breakpoint `i` to breakpoint `i + 1`, on both
    /// sides.
    pub open spec fn is_piece<K: Kernel>(self, i: int, from: Seq<Scalar>, to: Seq<Scalar>) -> bool {
        &&& self.domains()[i].low() == from[i]
        &&& self.domains()[i].high() == from[i + 1]
        &&& self.mappers()[i].is_between::<K>(from[i], from[i + 1], to[i], to[i + 1])
    }

    /// `self` was laid over the breakpoints `from`, which go to the values
    /// `to`.
    pub open spec fn is_over<K: Kernel>(self, from: Seq<Scalar>, to: Seq<Scalar>) -> bool {
        &&& self.well_formed()
        &&& self.domains().len() == from.len() - 1
        &&& forall|i: int| 0 <= i < from.len() - 1 ==> #[trigger] self.is_piece::<K>(i, from, to)
    }

    /// The first interval that contains `v` is number `i`.
    pub open spec fn first_containing(self, v: Scalar, i: int) -> bool {
        &&& 0 <= i < self.domains().len()
        &&& self.domains()[i].spec_contains(v)
        &&& forall|j: int| 0 <= j < i ==> !(#[trigger] self.domains()[j]).spec_contains(v)
    }

    /// No interval contains `v`.
    pub open spec fn outside(self, v: Scalar) -> bool {
        forall|j: int| 0 <= j < self.domains().len() ==> !(#[trigger] self.domains()[j]).spec_contains(v)
    }

    /// `r` is what `v` maps to: the image under the map of the first interval
    /// that contains `v`, or nothing where no interval does.
    pub open spec fn is_mapped<K: Kernel>(self, v: Scalar, r: Option<Scalar>) -> bool {
        match r {
            Some(y) => exists|i: int|
                #![trigger self.mappers()[i]]
                self.first_containing(v, i) && self.mappers()[i].is_image::<K>(v, y),
            None => self.outside(v),
        }
    }

    /// Lays the pieces over the breakpoints `from`, which go to the values
    /// `to`. Sequences of different lengths give nothing.
    pub fn new<K: Kernel>(from: Vec<Scalar>, to: Vec<Scalar>) -> (r: Option<
        PiecewieseInterpolator,
    >)
        requires
            from.len() > 0 || to.len() > 0,
        ensures
            r is Some <==> from.len() == to.len(),
            r matches Some(p) ==> p.is_over::<K>(from@, to@),
    {
        if from.len() != to.len() {
            return None;
        }
        let count: usize = from.len() - 1;
        let mut domains: Vec<Domain> = Vec::new();
        let mut mappers: Vec<Mapper> = Vec::new();
        let mut i: usize = 0;
        while i < count
            invariant
                count == from.len() - 1,
                from.len() == to.len(),
                i <= count,
                domains.len() == i,
                mappers.len() == i,
                forall|j: int|
                    0 <= j < i ==> {
                        &&& (#[trigger] domains@[j]).low() == from@[j]
                        &&& domains@[j].high() == from@[j + 1]
                        &&& mappers@[j].is_between::<K>(from@[j], from@[j + 1], to@[j], to@[j + 1])
                    },
            decreases count - i,
        {
            let domain = Domain::new(from[i], from[i + 1]);
            let mapper = Mapper::new::<K>(from[i], from[i + 1], to[i], to[i + 1]);
            domains.push(domain);
            mappers.push(mapper);
            i += 1;
        }
        let r = Self { mappers, domains };
        assert forall|j: int| 0 <= j < from.len() - 1 implies #[trigger] r.is_piece::<K>(
            j,
            from@,
            to@,
        ) by {
            assert(r.domains()[j] == domains@[j]);
        }
        Some(r)
    }

    /// Interpolates `v`. A `v` outside every interval has no image.
    pub fn map<K: Kernel>(&self, v: Scalar) -> (r: Option<Scalar>)
        requires
            self.well_formed(),
        ensures
            self.is_mapped::<K>(v, r),
    {
        let mut i: usize = 0;
        while i < self.domains.len()
            invariant
                self.well_formed(),
                i <= self.domains.len(),
                forall|j: int| 0 <= j < i ==> !(#[trigger] self.domains()[j]).spec_contains(v),
            decreases self.domains.len() - i,
        {
            if self.domains[i].contains(v) {
                let y = self.mappers[i].map::<K>(v);
                assert(self.first_containing(v, i as int));
                assert(self.mappers()[i as int].is_image::<K>(v, y));
                return Some(y);
            }
            i += 1;
        }
        None
    }
}

/// On a deterministic kernel a mapper gives a number one image.
pub proof fn lemma_image_determined<K: Kernel>(mapper: Mapper, x: Scalar, y1: Scalar, y2: Scalar)
    requires
        deterministic::<K>(),
        mapper.is_image::<K>(x, y1),
        mapper.is_image::<K>(x, y2),
    ensures
        y1 == y2,
{
    let (offset1, scaled1, ratio1) = choose|offset: Scalar, scaled: Scalar, ratio: Scalar|
        {
            &&& is_difference::<K>(x, mapper.start1(), offset)
            &&& #[trigger] is_product::<K>(mapper.delta2(), offset, scaled)
            &&& #[trigger] is_quotient::<K>(scaled, mapper.delta1(), ratio)
            &&& is_sum::<K>(ratio, mapper.start2(), y1)
        };
    let (offset2, scaled2, ratio2) = choose|offset: Scalar, scaled: Scalar, ratio: Scalar|
        {
            &&& is_difference::<K>(x, mapper.start1(), offset)
            &&& #[trigger] is_product::<K>(mapper.delta2(), offset, scaled)
            &&& #[trigger] is_quotient::<K>(scaled, mapper.delta1(), ratio)
            &&& is_sum::<K>(ratio, mapper.start2(), y2)
        };
    assert(offset1 == offset2);
    assert(scaled1 == scaled2);
    assert(ratio1 == ratio2);
}

/// On a deterministic kernel a piecewise map gives a number one image, or
/// none, and so does every map with the same pieces.
pub proof fn lemma_mapped_determined<K: Kernel>(
    pieces1: PiecewieseInterpolator,
    pieces2: PiecewieseInterpolator,
    v: Scalar,
    r1: Option<Scalar>,
    r2: Option<Scalar>,
)
    requires
        deterministic::<K>(),
        pieces1.same_as(pieces2),
        pieces1.is_mapped::<K>(v, r1),
        pieces2.is_mapped::<K>(v, r2),
    ensures
        r1 == r2,
{
    match (r1, r2) {
        (Some(y1), Some(y2)) => {
            let i1 = choose|i: int|
                pieces1.first_containing(v, i) && (#[trigger] pieces1.mappers()[i]).is_image::<K>(
                    v,
                    y1,
                );
            let i2 = choose|i: int|
                pieces2.first_containing(v, i) && (#[trigger] pieces2.mappers()[i]).is_image::<K>(
                    v,
                    y2,
                );
            if i1 < i2 {
                assert(!pieces2.domains()[i1].spec_contains(v));
            }
            if i2 < i1 {
                assert(!pieces1.domains()[i2].spec_contains(v));
            }
            lemma_image_determined::<K>(pieces1.mappers()[i1], v, y1, y2);
        },
        (Some(y1), None) => {
            let i1 = choose|i: int|
                pieces1.first_containing(v, i) && (#[trigger] pieces1.mappers()[i]).is_image::<K>(
                    v,
                    y1,
                );
            assert(!pieces2.domains()[i1].spec_contains(v));
        },
        (None, Some(y2)) => {
            let i2 = choose|i: int|
                pieces2.first_containing(v, i) && (#[trigger] pieces2.mappers()[i]).is_image::<K>(
                    v,
                    y2,
                );
            assert(!pieces1.domains()[i2].spec_contains(v));
        },
        (None, None) => {},
    }
}

/// A rectangle is determined by the edges it was made of.
pub proof fn lemma_boundary_determined(
    first: Boundary,
    second: Boundary,
    min_x: Scalar,
    max_x: Scalar,
    min_z: Scalar,
    max_z: Scalar,
)
    requires
        first.is_between(min_x, max_x, min_z, max_z),
        second.is_between(min_x, max_x, min_z, max_z),
    ensures
        first == second,
{
}

/// On a deterministic kernel a mapper is determined by the intervals it
/// was made of.
pub proof fn lemma_mapper_determined<K: Kernel>(
    first: Mapper,
    second: Mapper,
    start1: Scalar,
    stop1: Scalar,
    start2: Scalar,
    stop2: Scalar,
)
    requires
        deterministic::<K>(),
        first.is_between::<K>(start1, stop1, start2, stop2),
        second.is_between::<K>(start1, stop1, start2, stop2),
    ensures
        first == second,
{
}

/// On a deterministic kernel the pieces of a piecewise map are determined
/// by the breakpoints it was laid over.
pub proof fn lemma_pieces_determined<K: Kernel>(
    first: PiecewieseInterpolator,
    second: PiecewieseInterpolator,
    from: Seq<Scalar>,
    to: Seq<Scalar>,
)
    requires
        deterministic::<K>(),
        first.is_over::<K>(from, to),
        second.is_over::<K>(from, to),
    ensures
        first.same_as(second),
{
    assert forall|i: int| 0 <= i < first.domains().len() implies first.domains()[i]
        == second.domains()[i] && first.mappers()[i] == second.mappers()[i] by {
        assert(first.is_piece::<K>(i, from, to));
        assert(second.is_piece::<K>(i, from, to));
        lemma_mapper_determined::<K>(
            first.mappers()[i],
            second.mappers()[i],
            from[i],
            from[i + 1],
            to[i],
            to[i + 1],
        );
    }
    assert(first.domains() =~= second.domains());
    assert(first.mappers() =~= second.mappers());
}

} // verus!
