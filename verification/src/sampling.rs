//! Drawing parameter values from a uniform distribution.

use vstd::prelude::*;
use rand::Rng;

verus! {

/// The thread-local random number generator's handle type.
#[verifier::external_type_specification]
#[verifier::external_body]
pub struct ExThreadRng(rand::rngs::ThreadRng);

/// Relies on `rand::thread_rng`: a handle to the calling thread's
/// lazily-seeded generator. Nothing is assumed about the values it yields.
#[verifier::external_body]
fn fresh_rng() -> rand::rngs::ThreadRng {
    rand::thread_rng()
}

/// Relies on `rand::Rng::gen_range` over an `i64` range, which panics on an
/// empty range and otherwise samples uniformly within it: low bound
/// inclusive, high bound exclusive. Which value comes back is not assumed.
#[verifier::external_body]
fn sample_range(rng: &mut rand::rngs::ThreadRng, low: i64, high: i64) -> (r: i64)
    requires
        low < high,
    ensures
        low <= r < high,
{
    rng.gen_range(low..high)
}

/// The lower end of the sampling range `gen_param` uses: the smaller bound.
pub open spec fn param_low(min: i64, max: i64) -> i64 {
    if min > max {
        max
    } else {
        min
    }
}

/// The upper (exclusive) end of the sampling range `gen_param` uses: the
/// larger bound, widened by one when the two bounds coincide so that the
/// range is never empty.
pub open spec fn param_high(min: i64, max: i64) -> int {
    if min > max {
        min as int
    } else if min == max {
        max as int + 1
    } else {
        max as int
    }
}

/// Generates parameter samples from a uniform distribution: `n` values (a
/// single one if `n` is zero), each between the smaller bound (inclusive)
/// and the larger bound (exclusive; bounds that coincide are widened by
/// one).
pub fn gen_param(min: i64, max: i64, n: usize) -> (samples: Vec<i64>)
    requires
        min == max ==> max < i64::MAX,
    ensures
        samples@.len() == if n == 0 {
            1int
        } else {
            n as int
        },
        forall|k: int|
            0 <= k < samples@.len() ==> param_low(min, max) <= #[trigger] samples@[k] < param_high(
                min,
                max,
            ),
{
    let low: i64 = if min > max {
        max
    } else {
        min
    };
    let high: i64 = if min > max {
        min
    } else if min == max {
        max + 1
    } else {
        max
    };
    let count: usize = if n == 0 {
        1
    } else {
        n
    };
    let mut rng = fresh_rng();
    let mut samples: Vec<i64> = Vec::new();
    for k in 0..count
        invariant
            low == param_low(min, max),
            high as int == param_high(min, max),
            low < high,
            samples@.len() == k as int,
            forall|t: int| 0 <= t < k ==> low <= #[trigger] samples@[t] < high,
    {
        let v = sample_range(&mut rng, low, high);
        samples.push(v);
    }
    samples
}

} // verus!
