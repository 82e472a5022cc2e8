//! Random draws.
use vstd::prelude::*;
use crate::kernel::{is_difference, is_from_count, is_product, is_to_count, Kernel, RandomSource};
use crate::scalar::Scalar;

verus! {

/// `n` is what a draw `random` makes of the counts `min` and `max`:
/// `(max - min) * random - min`, cut down to a count.
pub open spec fn is_ranged_draw<K: Kernel>(min: usize, max: usize, random: Scalar, n: usize) -> bool {
    exists|low: Scalar, high: Scalar, delta: Scalar, scaled: Scalar, shifted: Scalar|
        {
            &&& is_from_count::<K>(min, low)
            &&& is_from_count::<K>(max, high)
            &&& #[trigger] is_difference::<K>(high, low, delta)
            &&& #[trigger] is_product::<K>(delta, random, scaled)
            &&& #[trigger] is_difference::<K>(scaled, low, shifted)
            &&& is_to_count::<K>(shifted, n)
        }
}

/// The next number of the random source, meant to lie in `[0, 1)`: what a
/// call of `next` on the source as it stood gave, which leaves the source
/// as that call left it.
pub fn gen_random<R: RandomSource>(source: &mut R) -> (r: Scalar)
    ensures
        exists|drawn: &mut R|
            {
                &&& *drawn == *old(source)
                &&& *final(drawn) == *final(source)
                &&& #[trigger] call_ensures(R::next, (drawn,), r)
            },
{
    source.next()
}

/// Takes a number from the random source and makes a count of it.
pub fn gen_random_range<K: Kernel, R: RandomSource>(source: &mut R, min: usize, max: usize) -> (n:
    usize)
    ensures
        exists|random: Scalar|
            #![trigger is_ranged_draw::<K>(min, max, random, n)]
            is_ranged_draw::<K>(min, max, random, n),
{
    let low = Scalar::from_count::<K>(min);
    let high = Scalar::from_count::<K>(max);
    let delta = high.minus::<K>(low);
    let random = gen_random(source);
    let scaled = delta.times::<K>(random);
    let shifted = scaled.minus::<K>(low);
    let n = shifted.to_count::<K>();
    assert(is_ranged_draw::<K>(min, max, random, n));
    n
}

} // verus!
