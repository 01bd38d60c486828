//! Splitting a population of `n` individuals across `w` ranks.
//!
//! The distributed strategy assigns each rank one contiguous chunk of
//! population indices. Chunks are balanced: every rank receives `n / w`
//! indices and the first `n % w` ranks receive one extra, so any two chunk
//! sizes differ by at most one and the first chunk is never smaller than any
//! other. [`lemma_partition_balanced`] states the partition law: chunk sizes
//! are non-negative and balanced, offsets are the prefix sums of the sizes,
//! they end exactly at `n`, and every population index falls in exactly one
//! rank's range.

use vstd::prelude::*;
use vstd::arithmetic::div_mod::lemma_fundamental_div_mod;
use vstd::arithmetic::div_mod::lemma_div_pos_is_pos;
use vstd::arithmetic::div_mod::lemma_mod_bound;

verus! {

/// The number of population indices assigned to rank `i` out of `w` ranks
/// when the population has `n` individuals.
pub open spec fn chunk_size(n: int, w: int, i: int) -> int
    recommends
        1 <= w,
        0 <= n,
        0 <= i < w,
{
    n / w + if i < n % w {
        1int
    } else {
        0int
    }
}

/// The population index at which rank `i`'s chunk begins: the prefix sum of
/// the chunk sizes of all earlier ranks.
pub open spec fn chunk_offset(n: int, w: int, i: int) -> int
    recommends
        1 <= w,
        0 <= n,
        0 <= i <= w,
    decreases i,
{
    if i <= 0 {
        0
    } else {
        chunk_offset(n, w, i - 1) + chunk_size(n, w, i - 1)
    }
}

/// Closed form of the prefix sum: the first `i` chunks hold `i * (n / w)`
/// indices plus one extra for each of the first `min(i, n % w)` chunks.
pub proof fn lemma_chunk_offset_closed(n: int, w: int, i: int)
    requires
        1 <= w,
        0 <= n,
        0 <= i <= w,
    ensures
        chunk_offset(n, w, i) == i * (n / w) + (if i <= n % w {
            i
        } else {
            n % w
        }),
    decreases i,
{
    lemma_mod_bound(n, w);
    if i == 0 {
        assert(chunk_offset(n, w, 0) == 0);
        assert(0 * (n / w) == 0) by (nonlinear_arith);
        assert(0 <= n % w);
    }
    if i > 0 {
        lemma_chunk_offset_closed(n, w, i - 1);
        let q = n / w;
        let r = n % w;
        assert(chunk_offset(n, w, i) == chunk_offset(n, w, i - 1) + chunk_size(n, w, i - 1));
        assert((i - 1) * q + q == i * q) by (nonlinear_arith);
        if i - 1 < r {
            assert(chunk_offset(n, w, i - 1) == (i - 1) * q + (i - 1));
            assert(chunk_size(n, w, i - 1) == q + 1);
            assert(chunk_offset(n, w, i) == i * q + i);
        } else {
            assert(chunk_offset(n, w, i - 1) == (i - 1) * q + (if i - 1 <= r {
                i - 1
            } else {
                r
            }));
            assert(chunk_size(n, w, i - 1) == q);
            assert(chunk_offset(n, w, i) == i * q + r);
        }
    }
}

/// Chunk sizes are never negative.
pub proof fn lemma_chunk_size_nonneg(n: int, w: int, i: int)
    requires
        1 <= w,
        0 <= n,
        0 <= i < w,
    ensures
        chunk_size(n, w, i) >= 0,
{
    lemma_div_pos_is_pos(n, w);
}

/// Prefix sums of chunk sizes are non-decreasing in the rank.
pub proof fn lemma_chunk_offset_monotone(n: int, w: int, i: int, j: int)
    requires
        1 <= w,
        0 <= n,
        0 <= i <= j <= w,
    ensures
        chunk_offset(n, w, i) <= chunk_offset(n, w, j),
    decreases j - i,
{
    if i < j {
        lemma_chunk_offset_monotone(n, w, i, j - 1);
        lemma_chunk_size_nonneg(n, w, j - 1);
    }
}

/// The chunks of all `w` ranks together hold exactly the `n` population
/// indices: the prefix sum over all ranks is `n`.
pub proof fn lemma_chunk_offsets_total(n: int, w: int)
    requires
        1 <= w,
        0 <= n,
    ensures
        chunk_offset(n, w, w) == n,
{
    lemma_chunk_offset_closed(n, w, w);
    lemma_fundamental_div_mod(n, w);
    assert(w * (n / w) == (n / w) * w) by (nonlinear_arith);
}

/// Whether population index `k` falls in rank `i`'s chunk.
pub open spec fn in_chunk(n: int, w: int, i: int, k: int) -> bool {
    chunk_offset(n, w, i) <= k < chunk_offset(n, w, i) + chunk_size(n, w, i)
}

/// Whether population index `k` falls in the chunk of some rank below `i`.
pub open spec fn covered_below(n: int, w: int, i: int, k: int) -> bool {
    exists|j: int| 0 <= j < i && #[trigger] in_chunk(n, w, j, k)
}

/// Whether population index `k` falls in some rank's chunk.
pub open spec fn covered(n: int, w: int, k: int) -> bool {
    covered_below(n, w, w, k)
}

/// Every index below the prefix sum of the first `i` chunks lies inside one
/// of those chunks.
proof fn lemma_cover_up_to(n: int, w: int, i: int)
    requires
        1 <= w,
        0 <= n,
        0 <= i <= w,
    ensures
        forall|k: int| 0 <= k < chunk_offset(n, w, i) ==> #[trigger] covered_below(n, w, i, k),
    decreases i,
{
    if i > 0 {
        lemma_cover_up_to(n, w, i - 1);
        assert forall|k: int| 0 <= k < chunk_offset(n, w, i) implies #[trigger] covered_below(
            n,
            w,
            i,
            k,
        ) by {
            if k < chunk_offset(n, w, i - 1) {
                assert(covered_below(n, w, i - 1, k));
                let j0 = choose|j: int| 0 <= j < i - 1 && #[trigger] in_chunk(n, w, j, k);
                assert(0 <= j0 < i && in_chunk(n, w, j0, k));
            } else {
                assert(0 <= i - 1 < i && in_chunk(n, w, i - 1, k));
            }
        }
    }
}

/// The partition law for the distributed strategy: for any world size
/// `w >= 1` and population size `n >= 0`,
/// - every chunk size is non-negative,
/// - any two chunk sizes differ by at most one,
/// - the chunk offsets are the prefix sums of the chunk sizes, starting at 0
///   and ending exactly at `n` (so the sizes sum to `n`), and
/// - every population index `k < n` lies in exactly one rank's range
///   (no index is skipped, none is assigned twice).
pub proof fn lemma_partition_balanced(n: int, w: int)
    requires
        1 <= w,
        0 <= n,
    ensures
        forall|i: int| 0 <= i < w ==> #[trigger] chunk_size(n, w, i) >= 0,
        forall|i: int, j: int|
            0 <= i < w && 0 <= j < w ==> #[trigger] chunk_size(n, w, i) <= #[trigger] chunk_size(
                n,
                w,
                j,
            ) + 1,
        chunk_offset(n, w, 0) == 0,
        forall|i: int|
            0 <= i < w ==> #[trigger] chunk_offset(n, w, i + 1) == chunk_offset(n, w, i)
                + chunk_size(n, w, i),
        chunk_offset(n, w, w) == n,
        forall|k: int| 0 <= k < n ==> #[trigger] covered(n, w, k),
        forall|i: int, j: int, k: int|
            0 <= i < j < w ==> !(#[trigger] in_chunk(n, w, i, k) && #[trigger] in_chunk(
                n,
                w,
                j,
                k,
            )),
{
    assert forall|i: int| 0 <= i < w implies #[trigger] chunk_size(n, w, i) >= 0 by {
        lemma_chunk_size_nonneg(n, w, i);
    }
    lemma_chunk_offsets_total(n, w);
    lemma_cover_up_to(n, w, w);
    assert forall|i: int, j: int, k: int|
        0 <= i < j < w implies !(#[trigger] in_chunk(n, w, i, k) && #[trigger] in_chunk(
        n,
        w,
        j,
        k,
    )) by {
        lemma_chunk_offset_monotone(n, w, i + 1, j);
    }
}

/// Computes the chunk sizes for a population of `n` individuals split across
/// `w` ranks.
pub fn partition_counts(n: usize, w: usize) -> (counts: Vec<usize>)
    requires
        1 <= w,
    ensures
        counts@.len() == w as int,
        forall|i: int| 0 <= i < w ==> counts@[i] == chunk_size(n as int, w as int, i),
{
    let q = n / w;
    let r = n % w;
    let mut counts: Vec<usize> = Vec::new();
    for i in 0..w
        invariant
            q == n as int / w as int,
            r == n as int % w as int,
            1 <= w,
            counts@.len() == i as int,
            forall|t: int| 0 <= t < i ==> counts@[t] == chunk_size(n as int, w as int, t),
    {
        if i < r {
            proof {
                lemma_fundamental_div_mod(n as int, w as int);
                assert(q + 1 <= n) by (nonlinear_arith)
                    requires
                        (w as int) * q + r == n as int,
                        r >= 1,
                        w >= 1,
                        q >= 0,
                ;
            }
            counts.push(q + 1);
        } else {
            counts.push(q);
        }
    }
    counts
}

/// Computes the chunk offsets (prefix sums of the chunk sizes) for a
/// population of `n` individuals split across `w` ranks.
pub fn partition_offsets(n: usize, w: usize) -> (offsets: Vec<usize>)
    requires
        1 <= w,
    ensures
        offsets@.len() == w as int,
        forall|i: int| 0 <= i < w ==> offsets@[i] == chunk_offset(n as int, w as int, i),
{
    let counts = partition_counts(n, w);
    let mut offsets: Vec<usize> = Vec::new();
    let mut acc: usize = 0;
    for i in 0..w
        invariant
            1 <= w,
            counts@.len() == w as int,
            forall|t: int| 0 <= t < w ==> counts@[t] == chunk_size(n as int, w as int, t),
            offsets@.len() == i as int,
            forall|t: int| 0 <= t < i ==> offsets@[t] == chunk_offset(n as int, w as int, t),
            acc == chunk_offset(n as int, w as int, i as int),
    {
        offsets.push(acc);
        proof {
            lemma_chunk_offset_monotone(n as int, w as int, i as int + 1, w as int);
            lemma_chunk_offsets_total(n as int, w as int);
            lemma_chunk_size_nonneg(n as int, w as int, i as int);
        }
        acc = acc + counts[i];
    }
    offsets
}

} // verus!
