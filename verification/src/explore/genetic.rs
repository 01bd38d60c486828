//! Genetic-algorithm exploration: three interchangeable execution strategies
//! (sequential, shared-memory parallel, distributed) drive the same
//! evaluate → select → mutate → crossover loop over a population of
//! candidate configurations, and fill an ordered, generation-tagged ledger
//! of evaluation records.
//!
//! The strategies differ only in how "evaluate every individual of the
//! current population" is mapped onto a concurrency topology; everything the
//! engine promises — which records exist, how batches are ordered and
//! indexed, how the best-fitness tracker moves, when the loop stops — is
//! stated over the records themselves and holds for all three.
//!
//! Two limits of those promises are worth knowing. The caller's simulation,
//! scoring and genetic operators are exec trait methods without value
//! contracts, so no contract here can mention what they compute — the run
//! contract pins the ledger, the tracker and the stop decision, not that
//! the operators were applied or what they did to the parameters. And in
//! the generation that stops the run, the sequential strategy's
//! per-generation best covers only the evaluated prefix while the parallel
//! and distributed bests cover the whole batch; the two public agreement
//! lemmas state exactly when — and that is the only place where — the
//! disciplines can differ.

use vstd::prelude::*;
use crate::ComputationMode;
use rayon::iter::IndexedParallelIterator;
use rayon::iter::IntoParallelRefIterator;
use rayon::iter::ParallelIterator;
use crate::explore::model::{
    ConfigurationError,
    ConvergenceState,
    GenerationRecord,
    Individual,
    Model,
    evaluate_individual,
};
use crate::explore::partition::{
    chunk_offset,
    chunk_size,
    in_chunk,
    covered,
    lemma_chunk_offset_monotone,
    lemma_chunk_offsets_total,
    lemma_partition_balanced,
    partition_counts,
    partition_offsets,
};

verus! {

/// The fitness column of a batch of records.
pub open spec fn batch_fitnesses<P>(batch: Seq<GenerationRecord<P>>) -> Seq<i64> {
    batch.map_values(|r: GenerationRecord<P>| r.fitness)
}

/// The best fitness in one generation's batch, as the engine tracks it: a
/// running comparison that starts at zero, so the result is the maximum of
/// zero and all scores.
pub open spec fn best_in(fits: Seq<i64>) -> i64
    decreases fits.len(),
{
    if fits.len() == 0 {
        0
    } else {
        let prev = best_in(fits.drop_last());
        if fits.last() >= prev {
            fits.last()
        } else {
            prev
        }
    }
}

/// Whether some record of the batch meets the desired fitness threshold.
pub open spec fn meets_desired<P>(batch: Seq<GenerationRecord<P>>, desired: i64) -> bool {
    exists|i: int| 0 <= i < batch.len() && #[trigger] batch[i].fitness >= desired
}

/// The short-circuit cut shape of a sequentially evaluated batch: no record
/// before the last one meets the threshold, so if the batch holds a meeting
/// record at all, it is the final record — the one the cut happened at.
pub open spec fn short_circuit_shape<P>(batch: Seq<GenerationRecord<P>>, desired: i64) -> bool {
    forall|i: int| 0 <= i < batch.len() - 1 ==> (#[trigger] batch[i]).fitness < desired
}

/// An ordered batch of evaluation records for one generation: record `i`
/// carries index `i`, the generation tag, and echoes the parameters of
/// population position `i`. A batch covers a prefix of the population (the
/// whole population unless the sequential strategy short-circuited).
pub open spec fn batch_wf<P>(
    batch: Seq<GenerationRecord<P>>,
    population: Seq<Individual<P>>,
    generation: u32,
) -> bool {
    &&& batch.len() <= population.len()
    &&& forall|i: int|
        0 <= i < batch.len() ==> (#[trigger] batch[i]).generation == generation && batch[i].index
            == i && batch[i].params == population[i].params
}

/// What one generation's evaluation hands back to the runner, whichever
/// strategy produced it.
#[derive(Debug)]
pub struct GenerationBatch<P> {
    /// One record per evaluated individual, in index order.
    pub records: Vec<GenerationRecord<P>>,
    /// The best fitness seen in this batch (zero-floored).
    pub best: i64,
    /// Parameters of an individual that achieved `best`, when positive.
    pub best_params: Option<P>,
    /// Whether some record meets the desired fitness threshold.
    pub desired_met: bool,
}

/// The contract every strategy's per-generation evaluation meets.
pub open spec fn generation_batch_wf<P>(
    b: GenerationBatch<P>,
    population: Seq<Individual<P>>,
    generation: u32,
    desired: i64,
) -> bool {
    &&& batch_wf(b.records@, population, generation)
    &&& b.best == best_in(batch_fitnesses(b.records@))
    &&& (b.desired_met <==> meets_desired(b.records@, desired))
    &&& (b.best > 0 ==> match b.best_params {
        Some(p) => exists|i: int|
            0 <= i < b.records@.len() && (#[trigger] b.records@[i]).fitness == b.best
                && b.records@[i].params == p,
        None => false,
    })
    &&& (population.len() > 0 ==> b.records@.len() >= 1)
}

/// Appending a score to a fitness column moves `best_in` exactly as the
/// engine's running comparison does.
pub proof fn lemma_best_in_push(fits: Seq<i64>, f: i64)
    ensures
        best_in(fits.push(f)) == if f >= best_in(fits) {
            f
        } else {
            best_in(fits)
        },
{
    assert(fits.push(f).drop_last() =~= fits);
    assert(fits.push(f).last() == f);
}

/// Appending a record appends its fitness to the fitness column.
pub proof fn lemma_batch_fitnesses_push<P>(batch: Seq<GenerationRecord<P>>, r: GenerationRecord<P>)
    ensures
        batch_fitnesses(batch.push(r)) =~= batch_fitnesses(batch).push(r.fitness),
{
}

/// The sequential strategy's evaluation of one generation: individuals are
/// run one after the other in index order, one record is appended per
/// individual, and the generation is cut short right after the first
/// individual whose fitness meets the desired threshold.
#[verifier::spinoff_prover]
pub fn evaluate_generation_sequential<M: Model>(
    population: &Vec<Individual<M::Params>>,
    generation: u32,
    desired_fitness: i64,
    step_count: u64,
) -> (b: GenerationBatch<M::Params>)
    requires
        step_count >= 1,
    ensures
        generation_batch_wf(b, population@, generation, desired_fitness),
        // everything before the last record is below the threshold, and only
        // a batch whose last record meets it may stop before the end of the
        // population
        short_circuit_shape(b.records@, desired_fitness),
        b.desired_met ==> b.records@.len() >= 1 && b.records@.last().fitness >= desired_fitness,
        !b.desired_met ==> b.records@.len() == population@.len(),
{
    let n = population.len();
    let mut records: Vec<GenerationRecord<M::Params>> = Vec::new();
    let mut best: i64 = 0;
    let mut best_params: Option<M::Params> = None;
    let mut met: bool = false;
    let mut idx: usize = 0;
    while idx < n
        invariant_except_break
            step_count >= 1,
            n == population@.len(),
            idx <= n,
            records@.len() == idx as int,
            !met,
            batch_wf(records@, population@, generation),
            forall|i: int|
                0 <= i < records@.len() ==> (#[trigger] records@[i]).fitness < desired_fitness,
            best == best_in(batch_fitnesses(records@)),
            best > 0 ==> match best_params {
                Some(p) => exists|i: int|
                    0 <= i < records@.len() && (#[trigger] records@[i]).fitness == best
                        && records@[i].params == p,
                None => false,
            },
        ensures
            batch_wf(records@, population@, generation),
            best == best_in(batch_fitnesses(records@)),
            best > 0 ==> match best_params {
                Some(p) => exists|i: int|
                    0 <= i < records@.len() && (#[trigger] records@[i]).fitness == best
                        && records@[i].params == p,
                None => false,
            },
            forall|i: int|
                0 <= i < records@.len() - 1 ==> (#[trigger] records@[i]).fitness < desired_fitness,
            met ==> records@.len() >= 1 && records@.last().fitness >= desired_fitness,
            !met ==> records@.len() == population@.len(),
            met <==> meets_desired(records@, desired_fitness),
            population@.len() > 0 ==> records@.len() >= 1,
        decreases n - idx,
    {
        let params = population[idx].params;
        let fitness = evaluate_individual::<M>(&params, step_count);
        let rec = GenerationRecord { generation, index: idx, fitness, params };
        proof {
            lemma_batch_fitnesses_push(records@, rec);
            lemma_best_in_push(batch_fitnesses(records@), fitness);
        }
        let ghost pre = records@;
        records.push(rec);
        if fitness >= best {
            best = fitness;
            best_params = Some(params);
            proof {
                assert(records@[records@.len() - 1] == rec);
            }
        } else {
            proof {
                if best > 0 {
                    match best_params {
                        Some(p) => {
                            let i0 = choose|i: int|
                                0 <= i < pre.len() && (#[trigger] pre[i]).fitness == best
                                    && pre[i].params == p;
                            assert(records@[i0] == pre[i0]);
                        },
                        None => {},
                    }
                }
            }
        }
        if fitness >= desired_fitness {
            met = true;
            proof {
                assert(records@[records@.len() - 1] == rec);
            }
            break ;
        }
        idx = idx + 1;
    }
    let b = GenerationBatch { records, best, best_params, desired_met: met };
    proof {
        assert(generation_batch_wf(b, population@, generation, desired_fitness));
    }
    b
}

/// Builds the ordered record batch of one generation from an index-aligned
/// vector of fitness results, scanning for the batch best and the
/// desired-fitness flag. This is the only code that turns scattered fitness
/// results back into ledger rows, so the parallel and distributed strategies
/// aggregate exactly like the sequential one.
pub fn assemble_batch<P: Copy>(
    population: &Vec<Individual<P>>,
    fitnesses: &Vec<i64>,
    generation: u32,
    desired_fitness: i64,
) -> (b: GenerationBatch<P>)
    requires
        fitnesses@.len() == population@.len(),
    ensures
        generation_batch_wf(b, population@, generation, desired_fitness),
        b.records@.len() == population@.len(),
        forall|i: int| 0 <= i < fitnesses@.len() ==> (#[trigger] b.records@[i]).fitness
            == fitnesses@[i],
{
    let n = population.len();
    let mut records: Vec<GenerationRecord<P>> = Vec::new();
    let mut best: i64 = 0;
    let mut best_params: Option<P> = None;
    let mut met: bool = false;
    for idx in 0..n
        invariant
            n == population@.len(),
            fitnesses@.len() == n as int,
            records@.len() == idx as int,
            batch_wf(records@, population@, generation),
            forall|i: int| 0 <= i < idx ==> (#[trigger] records@[i]).fitness == fitnesses@[i],
            best == best_in(batch_fitnesses(records@)),
            (met <==> meets_desired(records@, desired_fitness)),
            best > 0 ==> match best_params {
                Some(p) => exists|i: int|
                    0 <= i < records@.len() && (#[trigger] records@[i]).fitness == best
                        && records@[i].params == p,
                None => false,
            },
    {
        let params = population[idx].params;
        let fitness = fitnesses[idx];
        let rec = GenerationRecord { generation, index: idx, fitness, params };
        proof {
            lemma_batch_fitnesses_push(records@, rec);
            lemma_best_in_push(batch_fitnesses(records@), fitness);
        }
        let ghost pre = records@;
        records.push(rec);
        if fitness >= best {
            best = fitness;
            best_params = Some(params);
            proof {
                assert(records@[records@.len() - 1] == rec);
            }
        } else {
            proof {
                if best > 0 {
                    match best_params {
                        Some(p) => {
                            let i0 = choose|i: int|
                                0 <= i < pre.len() && (#[trigger] pre[i]).fitness == best
                                    && pre[i].params == p;
                            assert(records@[i0] == pre[i0]);
                        },
                        None => {},
                    }
                }
            }
        }
        if fitness >= desired_fitness {
            met = true;
            proof {
                assert(records@[records@.len() - 1] == rec);
            }
        } else {
            proof {
                if met {
                    let i0 = choose|i: int|
                        0 <= i < pre.len() && #[trigger] pre[i].fitness >= desired_fitness;
                    assert(records@[i0] == pre[i0]);
                }
            }
        }
    }
    GenerationBatch { records, best, best_params, desired_met: met }
}

/// Relies on rayon: `par_iter().map(..).collect_into_vec(..)` runs the
/// closure on every element of the slice across the worker pool and collects
/// the results into an index-aligned vector of the same length (rayon's
/// indexed parallel iterators preserve input order when collecting). The
/// closure only calls the library's own `evaluate_individual`.
#[verifier::external_body]
fn parallel_fitnesses<M: Model>(population: &Vec<Individual<M::Params>>, step_count: u64) -> (fits:
    Vec<i64>) where M::Params: Sync
    requires
        step_count >= 1,
    ensures
        fits@.len() == population@.len(),
{
    let mut fits: Vec<i64> = Vec::new();
    population.par_iter().map(|ind| evaluate_individual::<M>(&ind.params, step_count)).collect_into_vec(
        &mut fits,
    );
    fits
}

/// The shared-memory parallel strategy's evaluation of one generation: the
/// index range is spread over a worker pool, every worker evaluates its
/// individuals on private simulation instances, and the finished results are
/// merged back into one index-ordered batch — completion order never shows
/// in the ledger. There is no mid-batch short-circuit: the desired-fitness
/// flag is computed once from the completed batch.
pub fn evaluate_generation_parallel<M: Model>(
    population: &Vec<Individual<M::Params>>,
    generation: u32,
    desired_fitness: i64,
    step_count: u64,
) -> (b: GenerationBatch<M::Params>) where M::Params: Sync
    requires
        step_count >= 1,
    ensures
        generation_batch_wf(b, population@, generation, desired_fitness),
        b.records@.len() == population@.len(),
{
    let fits = parallel_fitnesses::<M>(population, step_count);
    assemble_batch(population, &fits, generation, desired_fitness)
}

/// One rank's local work in the distributed strategy: evaluates its chunk of
/// the population in index order, like the sequential strategy applied to a
/// sub-population, and tags each record with its position inside the chunk.
/// The desired-fitness decision is not taken here — it belongs to the root,
/// once per gathered batch, so no chunk index is ever skipped.
pub fn evaluate_chunk<M: Model>(
    chunk: &Vec<Individual<M::Params>>,
    generation: u32,
    step_count: u64,
) -> (batch: Vec<GenerationRecord<M::Params>>)
    requires
        step_count >= 1,
    ensures
        batch@.len() == chunk@.len(),
        batch_wf(batch@, chunk@, generation),
{
    let n = chunk.len();
    let mut batch: Vec<GenerationRecord<M::Params>> = Vec::new();
    for i in 0..n
        invariant
            step_count >= 1,
            n == chunk@.len(),
            batch@.len() == i as int,
            batch_wf(batch@, chunk@, generation),
    {
        let params = chunk[i].params;
        let fitness = evaluate_individual::<M>(&params, step_count);
        batch.push(GenerationRecord { generation, index: i, fitness, params });
    }
    batch
}

/// The views of a vector of per-rank batches.
pub open spec fn part_views<P>(parts: Seq<Vec<GenerationRecord<P>>>) -> Seq<
    Seq<GenerationRecord<P>>,
> {
    parts.map_values(|v: Vec<GenerationRecord<P>>| v@)
}

/// The total number of records in the first `r` per-rank batches.
pub open spec fn parts_total<P>(parts: Seq<Seq<GenerationRecord<P>>>, r: int) -> int
    decreases r,
{
    if r <= 0 {
        0
    } else {
        parts_total(parts, r - 1) + parts[r - 1].len()
    }
}

/// Record totals over prefixes of the per-rank batches never decrease.
proof fn lemma_parts_total_monotone<P>(pm: Seq<Seq<GenerationRecord<P>>>, a: int, b: int)
    requires
        0 <= a <= b,
    ensures
        parts_total(pm, a) <= parts_total(pm, b),
    decreases b - a,
{
    if a < b {
        lemma_parts_total_monotone(pm, a, b - 1);
    }
}

/// The variable-count gather: concatenates the per-rank batches in rank
/// order into one array, rewriting each record's chunk-local index to its
/// global population index (the rank's offset — the prefix sum of the
/// earlier batch sizes — plus the local index). All other fields are kept.
pub fn gather_batches<P: Copy>(parts: &Vec<Vec<GenerationRecord<P>>>) -> (merged: Vec<
    GenerationRecord<P>,
>)
    ensures
        merged@.len() == parts_total(part_views(parts@), parts@.len() as int),
        forall|k: int| 0 <= k < merged@.len() ==> (#[trigger] merged@[k]).index == k,
        forall|r: int, i: int|
            0 <= r < parts@.len() && 0 <= i < parts@[r]@.len() ==> {
                let m = merged@[parts_total(part_views(parts@), r) + i];
                (#[trigger] parts@[r]@[i]).fitness == m.fitness && parts@[r]@[i].params == m.params
                    && parts@[r]@[i].generation == m.generation
            },
{
    let ghost pm = part_views(parts@);
    let nparts = parts.len();
    let mut merged: Vec<GenerationRecord<P>> = Vec::new();
    for r in 0..nparts
        invariant
            nparts == parts@.len(),
            pm == part_views(parts@),
            merged@.len() == parts_total(pm, r as int),
            forall|k: int| 0 <= k < merged@.len() ==> (#[trigger] merged@[k]).index == k,
            forall|r0: int, i: int|
                0 <= r0 < r && 0 <= i < parts@[r0]@.len() ==> {
                    let m = merged@[parts_total(pm, r0) + i];
                    (#[trigger] parts@[r0]@[i]).fitness == m.fitness && parts@[r0]@[i].params
                        == m.params && parts@[r0]@[i].generation == m.generation
                },
    {
        let part_len = parts[r].len();
        for i in 0..part_len
            invariant
                nparts == parts@.len(),
                pm == part_views(parts@),
                r < nparts,
                part_len == parts@[r as int]@.len(),
                merged@.len() == parts_total(pm, r as int) + i as int,
                forall|k: int| 0 <= k < merged@.len() ==> (#[trigger] merged@[k]).index == k,
                forall|r0: int, i0: int|
                    0 <= r0 < r && 0 <= i0 < parts@[r0]@.len() ==> {
                        let m = merged@[parts_total(pm, r0) + i0];
                        (#[trigger] parts@[r0]@[i0]).fitness == m.fitness && parts@[r0]@[i0].params
                            == m.params && parts@[r0]@[i0].generation == m.generation
                    },
                forall|i0: int|
                    0 <= i0 < i ==> {
                        let m = merged@[parts_total(pm, r as int) + i0];
                        (#[trigger] parts@[r as int]@[i0]).fitness == m.fitness && parts@[
                            r as int
                        ]@[i0].params == m.params && parts@[r as int]@[i0].generation
                            == m.generation
                    },
        {
            let rec = parts[r][i];
            let k = merged.len();
            let ghost pre = merged@;
            merged.push(
                GenerationRecord {
                    generation: rec.generation,
                    index: k,
                    fitness: rec.fitness,
                    params: rec.params,
                },
            );
            proof {
                assert forall|r0: int, i0: int|
                    0 <= r0 < r && 0 <= i0 < parts@[r0]@.len() implies {
                    let m = merged@[parts_total(pm, r0) + i0];
                    (#[trigger] parts@[r0]@[i0]).fitness == m.fitness && parts@[r0]@[i0].params
                        == m.params && parts@[r0]@[i0].generation == m.generation
                } by {
                    lemma_parts_total_monotone(pm, 0, r0);
                    lemma_parts_total_monotone(pm, r0 + 1, r as int);
                    assert(pm[r0] == parts@[r0]@);
                    assert(0 <= parts_total(pm, r0) + i0 < pre.len());
                    assert(merged@[parts_total(pm, r0) + i0] == pre[parts_total(pm, r0) + i0]);
                }
                assert forall|i0: int| 0 <= i0 < i + 1 implies {
                    let m = merged@[parts_total(pm, r as int) + i0];
                    (#[trigger] parts@[r as int]@[i0]).fitness == m.fitness && parts@[
                        r as int
                    ]@[i0].params == m.params && parts@[r as int]@[i0].generation == m.generation
                } by {
                    lemma_parts_total_monotone(pm, 0, r as int);
                    if i0 < i {
                        assert(merged@[parts_total(pm, r as int) + i0] == pre[parts_total(
                            pm,
                            r as int,
                        ) + i0]);
                    } else {
                        assert(merged@[parts_total(pm, r as int) + i0] == merged@[pre.len() as int]);
                    }
                }
            }
        }
    }
    merged
}

/// The root's post-gather scan of one generation's merged batch: the batch
/// best (zero-floored, with the parameters that achieved it) and whether any
/// record meets the desired fitness threshold.
pub fn scan_batch<P: Copy>(batch: &Vec<GenerationRecord<P>>, desired_fitness: i64) -> (r: (
    i64,
    Option<P>,
    bool,
))
    ensures
        r.0 == best_in(batch_fitnesses(batch@)),
        (r.2 <==> meets_desired(batch@, desired_fitness)),
        r.0 > 0 ==> match r.1 {
            Some(p) => exists|i: int|
                0 <= i < batch@.len() && (#[trigger] batch@[i]).fitness == r.0 && batch@[i].params
                    == p,
            None => false,
        },
{
    let n = batch.len();
    let mut best: i64 = 0;
    let mut best_params: Option<P> = None;
    let mut met: bool = false;
    let ghost fits = batch_fitnesses(batch@);
    for idx in 0..n
        invariant
            n == batch@.len(),
            fits == batch_fitnesses(batch@),
            fits.len() == n as int,
            best == best_in(fits.take(idx as int)),
            (met <==> exists|i: int|
                0 <= i < idx && (#[trigger] batch@[i]).fitness >= desired_fitness),
            best > 0 ==> match best_params {
                Some(p) => exists|i: int|
                    0 <= i < idx && (#[trigger] batch@[i]).fitness == best && batch@[i].params
                        == p,
                None => false,
            },
    {
        let rec = batch[idx];
        proof {
            assert(fits.take(idx as int + 1) =~= fits.take(idx as int).push(fits[idx as int]));
            lemma_best_in_push(fits.take(idx as int), fits[idx as int]);
            assert(fits[idx as int] == rec.fitness);
        }
        if rec.fitness >= best {
            best = rec.fitness;
            best_params = Some(rec.params);
        }
        if rec.fitness >= desired_fitness {
            met = true;
        }
    }
    proof {
        assert(fits.take(n as int) =~= fits);
    }
    (best, best_params, met)
}

/// Ties the per-rank batch sizes to the partition's prefix sums: when rank
/// `r0`'s batch has exactly its chunk's size for every rank, the number of
/// records gathered from the first `r` ranks is rank `r`'s chunk offset.
proof fn lemma_parts_total_matches_offsets<P>(
    pm: Seq<Seq<GenerationRecord<P>>>,
    n: int,
    w: int,
    r: int,
)
    requires
        1 <= w,
        0 <= n,
        pm.len() == w,
        forall|r0: int| 0 <= r0 < w ==> (#[trigger] pm[r0]).len() == chunk_size(n, w, r0),
        0 <= r <= w,
    ensures
        parts_total(pm, r) == chunk_offset(n, w, r),
    decreases r,
{
    if r > 0 {
        lemma_parts_total_matches_offsets(pm, n, w, r - 1);
    }
}

/// The distributed strategy's evaluation of one generation, as one rank
/// group performs it: the root splits the population into `world_size`
/// contiguous balanced chunks, every rank evaluates its own chunk in
/// isolation, and a variable-count gather using the precomputed per-rank
/// offsets merges the per-rank batches back into one index-ordered batch.
/// Exactly one record exists per population index — none is skipped, none
/// is evaluated twice. The desired-fitness flag is the root's, computed
/// once from the gathered batch.
pub fn evaluate_generation_distributed<M: Model>(
    population: &Vec<Individual<M::Params>>,
    generation: u32,
    desired_fitness: i64,
    step_count: u64,
    world_size: usize,
) -> (b: GenerationBatch<M::Params>)
    requires
        step_count >= 1,
        world_size >= 1,
    ensures
        generation_batch_wf(b, population@, generation, desired_fitness),
        b.records@.len() == population@.len(),
{
    let n = population.len();
    let ghost ni = n as int;
    let ghost wi = world_size as int;
    let counts = partition_counts(n, world_size);
    let offsets = partition_offsets(n, world_size);
    proof {
        lemma_partition_balanced(ni, wi);
    }
    let mut parts: Vec<Vec<GenerationRecord<M::Params>>> = Vec::new();
    for rank in 0..world_size
        invariant
            step_count >= 1,
            n == population@.len(),
            ni == n as int,
            wi == world_size as int,
            1 <= wi,
            counts@.len() == wi,
            offsets@.len() == wi,
            forall|t: int| 0 <= t < wi ==> counts@[t] == chunk_size(ni, wi, t),
            forall|t: int| 0 <= t < wi ==> offsets@[t] == chunk_offset(ni, wi, t),
            parts@.len() == rank as int,
            forall|r0: int| 0 <= r0 < rank ==> (#[trigger] parts@[r0]@).len() == chunk_size(
                ni,
                wi,
                r0,
            ),
            forall|r0: int, i: int|
                0 <= r0 < rank && 0 <= i < parts@[r0]@.len() ==> (#[trigger] parts@[r0]@[i]).index
                    == i && parts@[r0]@[i].generation == generation && parts@[r0]@[i].params
                    == population@[chunk_offset(ni, wi, r0) + i].params,
    {
        let start = offsets[rank];
        let count = counts[rank];
        proof {
            lemma_chunk_offset_monotone(ni, wi, rank as int + 1, wi);
            lemma_chunk_offsets_total(ni, wi);
        }
        let mut chunk: Vec<Individual<M::Params>> = Vec::new();
        for i in 0..count
            invariant
                n == population@.len(),
                start == chunk_offset(ni, wi, rank as int),
                count == chunk_size(ni, wi, rank as int),
                start + count <= n,
                chunk@.len() == i as int,
                forall|t: int| 0 <= t < i ==> chunk@[t] == population@[start as int + t],
        {
            chunk.push(population[start + i]);
        }
        let batch = evaluate_chunk::<M>(&chunk, generation, step_count);
        parts.push(batch);
    }
    let merged = gather_batches(&parts);
    proof {
        let pm = part_views(parts@);
        lemma_parts_total_matches_offsets(pm, ni, wi, wi);
        assert forall|r0: int| 0 <= r0 < wi implies #[trigger] parts_total(pm, r0) == chunk_offset(
            ni,
            wi,
            r0,
        ) by {
            lemma_parts_total_matches_offsets(pm, ni, wi, r0);
        }
        assert(merged@.len() == ni);
        assert forall|k: int| 0 <= k < ni implies (#[trigger] merged@[k]).generation == generation
            && merged@[k].params == population@[k].params by {
            assert(covered(ni, wi, k));
            let r0 = choose|r0: int| 0 <= r0 < wi && #[trigger] in_chunk(ni, wi, r0, k);
            let i = k - chunk_offset(ni, wi, r0);
            lemma_parts_total_matches_offsets(pm, ni, wi, r0);
            assert(parts@[r0]@[i].fitness == merged@[parts_total(pm, r0) + i].fitness
                && parts@[r0]@[i].params == merged@[parts_total(pm, r0) + i].params && parts@[
                r0
            ]@[i].generation == merged@[parts_total(pm, r0) + i].generation);
            assert(parts@[r0]@[i].params == population@[k].params);
        }
        assert(batch_wf(merged@, population@, generation));
    }
    let r = scan_batch(&merged, desired_fitness);
    let (best, best_params, met) = r;
    GenerationBatch { records: merged, best, best_params, desired_met: met }
}

/// Writes the evaluated fitness of each record back into the corresponding
/// individual's fitness slot, leaving parameters and everything past the
/// batch untouched.
pub fn write_back<P: Copy>(
    population: &mut Vec<Individual<P>>,
    batch: &Vec<GenerationRecord<P>>,
)
    requires
        batch@.len() <= old(population)@.len(),
    ensures
        final(population)@.len() == old(population)@.len(),
        forall|i: int|
            0 <= i < batch@.len() ==> (#[trigger] final(population)@[i]).fitness
                == batch@[i].fitness && final(population)@[i].params == old(
                population,
            )@[i].params,
        forall|i: int|
            batch@.len() <= i < old(population)@.len() ==> #[trigger] final(population)@[i] == old(
                population,
            )@[i],
{
    let n = batch.len();
    for i in 0..n
        invariant
            n == batch@.len(),
            n <= population@.len(),
            population@.len() == old(population)@.len(),
            forall|t: int|
                0 <= t < i ==> (#[trigger] population@[t]).fitness == batch@[t].fitness
                    && population@[t].params == old(population)@[t].params,
            forall|t: int|
                i <= t < old(population)@.len() ==> #[trigger] population@[t] == old(
                    population,
                )@[t],
    {
        let upd = Individual { params: population[i].params, fitness: batch[i].fitness };
        population.set(i, upd);
    }
}

/// The views of the per-generation record batches of a ledger.
pub open spec fn batch_views<P>(batches: Seq<Vec<GenerationRecord<P>>>) -> Seq<
    Seq<GenerationRecord<P>>,
> {
    batches.map_values(|b: Vec<GenerationRecord<P>>| b@)
}

/// Appending a generation's records appends its view to the ledger's views.
pub proof fn lemma_batch_views_push<P>(
    batches: Seq<Vec<GenerationRecord<P>>>,
    b: Vec<GenerationRecord<P>>,
)
    ensures
        batch_views(batches.push(b)) =~= batch_views(batches).push(b@),
{
}

/// The generation cap actually enforced: a cap of zero means unbounded,
/// which the engine can only realize as the largest representable
/// generation count.
pub open spec fn effective_cap(generation_cap: u32) -> int {
    if generation_cap == 0 {
        u32::MAX as int
    } else {
        generation_cap as int
    }
}

/// The best-fitness tracker's value after folding the per-generation bests
/// in order: it starts at zero and is overwritten only by a strictly greater
/// generation best, so it equals the maximum of zero and all entries.
pub open spec fn running_best(gen_bests: Seq<i64>) -> i64
    decreases gen_bests.len(),
{
    if gen_bests.len() == 0 {
        0
    } else {
        let prev = running_best(gen_bests.drop_last());
        if gen_bests.last() > prev {
            gen_bests.last()
        } else {
            prev
        }
    }
}

/// The generation (one-based) in which the tracker last moved: the first
/// generation whose best strictly exceeded every earlier one; zero while the
/// tracker still holds its initial value.
pub open spec fn running_best_generation(gen_bests: Seq<i64>) -> int
    decreases gen_bests.len(),
{
    if gen_bests.len() == 0 {
        0
    } else {
        let prev = running_best(gen_bests.drop_last());
        if gen_bests.last() > prev {
            gen_bests.len() as int
        } else {
            running_best_generation(gen_bests.drop_last())
        }
    }
}

/// Appending a generation best moves the tracker exactly as the engine's
/// strictly-greater update does.
pub proof fn lemma_running_best_push(gen_bests: Seq<i64>, v: i64)
    ensures
        running_best(gen_bests.push(v)) == if v > running_best(gen_bests) {
            v
        } else {
            running_best(gen_bests)
        },
        running_best_generation(gen_bests.push(v)) == if v > running_best(gen_bests) {
            gen_bests.len() + 1int
        } else {
            running_best_generation(gen_bests)
        },
{
    assert(gen_bests.push(v).drop_last() =~= gen_bests);
    assert(gen_bests.push(v).last() == v);
}

/// The tracker's value never falls below its zero start; the generation it
/// points at stays within the run, and points at a real generation as soon
/// as the tracker has moved.
pub proof fn lemma_running_best_bounds(gen_bests: Seq<i64>)
    ensures
        running_best(gen_bests) >= 0,
        0 <= running_best_generation(gen_bests) <= gen_bests.len(),
        running_best(gen_bests) > 0 ==> running_best_generation(gen_bests) >= 1,
    decreases gen_bests.len(),
{
    if gen_bests.len() > 0 {
        lemma_running_best_bounds(gen_bests.drop_last());
    }
}

/// The convergence controller: evaluated at the end of every generation,
/// with its checks in this fixed order — desired fitness reached, then the
/// generation cap (a cap of zero is unbounded and so never reached short of
/// the largest representable count), then population collapse after
/// selection. Every state but `Running` stops the loop normally.
pub fn convergence_check(
    desired_met: bool,
    generation: u32,
    generation_cap: u32,
    post_selection_len: usize,
) -> (s: ConvergenceState)
    ensures
        s == (if desired_met {
            ConvergenceState::DesiredFitnessMet
        } else if generation as int == effective_cap(generation_cap) {
            ConvergenceState::GenerationCapReached
        } else if post_selection_len <= 1 {
            ConvergenceState::PopulationCollapsed
        } else {
            ConvergenceState::Running
        }),
{
    if desired_met {
        return ConvergenceState::DesiredFitnessMet;
    }
    let cap_limit: u32 = if generation_cap == 0 {
        u32::MAX
    } else {
        generation_cap
    };
    if generation == cap_limit {
        return ConvergenceState::GenerationCapReached;
    }
    if post_selection_len <= 1 {
        return ConvergenceState::PopulationCollapsed;
    }
    ConvergenceState::Running
}

/// The structural shape of the ledger: one batch per evaluated generation,
/// tagged with one-based generation numbers in order; inside a batch,
/// record `i` carries index `i`; no batch is larger than the initial
/// population (operators never grow the population); and the first batch
/// echoes the initial population's parameters.
pub open spec fn ledger_wf<P>(
    batches: Seq<Seq<GenerationRecord<P>>>,
    initial: Seq<Individual<P>>,
) -> bool {
    &&& forall|g: int| 0 <= g < batches.len() ==> (#[trigger] batches[g]).len() <= initial.len()
    &&& forall|g: int, i: int|
        0 <= g < batches.len() && 0 <= i < batches[g].len() ==> (#[trigger] batches[g][i]).generation
            == g + 1 && batches[g][i].index == i
    &&& (batches.len() > 0 ==> forall|i: int|
        0 <= i < batches[0].len() ==> (#[trigger] batches[0][i]).params == initial[i].params)
}

/// What a finished exploration holds: the ledger (one record batch per
/// generation, in order), the per-generation bests, the best-fitness
/// tracker, and the convergence controller's terminal state.
#[derive(Debug)]
pub struct GaOutcome<P> {
    /// The result ledger, one append-only batch per evaluated generation.
    pub batches: Vec<Vec<GenerationRecord<P>>>,
    /// The best fitness of each generation's batch (zero-floored).
    pub gen_bests: Vec<i64>,
    /// The best fitness seen across the whole run (zero-floored).
    pub best_fitness: i64,
    /// The one-based generation in which `best_fitness` was first reached;
    /// zero if the tracker never moved.
    pub best_generation: u32,
    /// Parameters of an individual that achieved `best_fitness`.
    pub best_params: Option<P>,
    /// The population as it stood when the loop stopped: after the last
    /// evaluation's fitness write-back, and additionally after selection
    /// when the stop was a collapse.
    pub final_population: Vec<Individual<P>>,
    /// The terminal state the convergence controller stopped in.
    pub state: ConvergenceState,
}

/// The contract every strategy's full run meets. Beyond the ledger shape,
/// it pins down the tracker, why the loop stopped, that no generation
/// before the last one held an individual at the desired fitness (the loop
/// would have stopped there), and that the first batch covers the whole
/// initial population — unless it was cut short at a record that meets the
/// threshold. Later batches may be smaller: the caller's operators may
/// shrink the population between generations. The final population shows a
/// real collapse when the controller reports one, and otherwise carries the
/// last batch's fitness written back into its slots.
pub open spec fn outcome_wf<P>(
    out: GaOutcome<P>,
    initial: Seq<Individual<P>>,
    desired_fitness: i64,
    generation_cap: u32,
) -> bool {
    let gens = out.batches@.len() as int;
    let views = batch_views(out.batches@);
    &&& out.gen_bests@.len() == gens
    &&& 1 <= gens <= effective_cap(generation_cap)
    &&& ledger_wf(views, initial)
    &&& (views[0].len() == initial.len() || (views[0].len() >= 1 && views[0].last().fitness
        >= desired_fitness))
    &&& forall|g: int| 0 <= g < gens - 1 ==> (#[trigger] views[g + 1]).len() <= views[g].len()
    &&& forall|g: int|
        0 <= g < gens ==> out.gen_bests@[g] == best_in(batch_fitnesses(#[trigger] views[g]))
    &&& forall|g: int| 0 <= g < gens - 1 ==> !meets_desired(#[trigger] views[g], desired_fitness)
    &&& out.best_fitness == running_best(out.gen_bests@)
    &&& out.best_generation as int == running_best_generation(out.gen_bests@)
    &&& (out.best_fitness == 0 ==> out.best_params is None)
    &&& (out.best_fitness > 0 ==> match out.best_params {
        Some(p) => exists|i: int|
            0 <= i < views[out.best_generation - 1].len() && (#[trigger] views[out.best_generation
                - 1][i]).fitness == out.best_fitness && views[out.best_generation - 1][i].params
                == p,
        None => false,
    })
    &&& (out.state == ConvergenceState::DesiredFitnessMet <==> meets_desired(
        views[gens - 1],
        desired_fitness,
    ))
    &&& (out.state == ConvergenceState::GenerationCapReached <==> !meets_desired(
        views[gens - 1],
        desired_fitness,
    ) && gens == effective_cap(generation_cap))
    &&& (out.state == ConvergenceState::PopulationCollapsed <==> !meets_desired(
        views[gens - 1],
        desired_fitness,
    ) && gens < effective_cap(generation_cap))
    &&& out.final_population@.len() <= initial.len()
    &&& (out.state == ConvergenceState::PopulationCollapsed ==> out.final_population@.len() <= 1)
    &&& (out.state != ConvergenceState::PopulationCollapsed ==> views[gens - 1].len()
        <= out.final_population@.len() && forall|i: int|
        0 <= i < views[gens - 1].len() ==> (#[trigger] out.final_population@[i]).fitness == views[
            gens - 1
        ][i].fitness && out.final_population@[i].params == views[gens - 1][i].params)
}

/// What the sequential strategy promises beyond the shared run contract:
/// every batch has the short-circuit cut shape. Together with the run
/// contract this pins the final generation exactly — its records are the
/// indices up to and including the first individual that met the threshold,
/// every earlier record is below it, and when the run stopped for the
/// desired fitness, the cutting record is the batch's last.
pub open spec fn sequential_run_shape<P>(out: GaOutcome<P>, desired_fitness: i64) -> bool {
    forall|g: int|
        0 <= g < out.batches@.len() ==> short_circuit_shape(
            #[trigger] batch_views(out.batches@)[g],
            desired_fitness,
        )
}

/// The exploration loop shared by the three strategies: evaluate the whole
/// population (under the strategy `mode` selects), append the batch to the
/// ledger, write fitness back, advance the best-fitness tracker, and check
/// the convergence controller's conditions in their fixed order — desired
/// fitness first, then the generation cap, then, after applying selection,
/// population collapse. Only when all three pass do mutation and crossover
/// build the next generation's population.
#[verifier::spinoff_prover]
fn run_loop<M: Model>(
    initial: Vec<Individual<M::Params>>,
    desired_fitness: i64,
    generation_cap: u32,
    step_count: u64,
    mode: ComputationMode,
    world_size: usize,
) -> (out: GaOutcome<M::Params>) where M::Params: Sync
    requires
        step_count >= 1,
        initial@.len() >= 1,
        world_size >= 1,
    ensures
        outcome_wf(out, initial@, desired_fitness, generation_cap),
        mode == ComputationMode::Sequential ==> sequential_run_shape(out, desired_fitness),
{
    let ghost init0 = initial@;
    let cap_limit: u32 = if generation_cap == 0 {
        u32::MAX
    } else {
        generation_cap
    };
    assert(cap_limit as int == effective_cap(generation_cap));
    let mut population = initial;
    let mut batches: Vec<Vec<GenerationRecord<M::Params>>> = Vec::new();
    let mut gen_bests: Vec<i64> = Vec::new();
    let mut best_fitness: i64 = 0;
    let mut best_generation: u32 = 0;
    let mut best_params: Option<M::Params> = None;
    let mut generation: u32 = 0;
    let mut state = ConvergenceState::Running;
    loop
        invariant_except_break
            step_count >= 1,
            world_size >= 1,
            init0.len() >= 1,
            cap_limit as int == effective_cap(generation_cap),
            population@.len() <= init0.len(),
            generation as int == batches@.len(),
            generation < cap_limit,
            gen_bests@.len() == batches@.len(),
            ledger_wf(batch_views(batches@), init0),
            batches@.len() > 0 ==> (batch_views(batches@)[0].len() == init0.len() || (batch_views(
                batches@,
            )[0].len() >= 1 && batch_views(batches@)[0].last().fitness >= desired_fitness)),
            mode == ComputationMode::Sequential ==> forall|g: int|
                0 <= g < batches@.len() ==> short_circuit_shape(
                    #[trigger] batch_views(batches@)[g],
                    desired_fitness,
                ),
            forall|g: int|
                0 <= g < batches@.len() - 1 ==> (#[trigger] batch_views(batches@)[g + 1]).len()
                    <= batch_views(batches@)[g].len(),
            batches@.len() > 0 ==> population@.len() <= batch_views(batches@)[batches@.len()
                - 1].len(),
            batches@.len() == 0 ==> population@.len() == init0.len() && forall|i: int|
                0 <= i < init0.len() ==> (#[trigger] population@[i]).params == init0[i].params,
            forall|g: int|
                0 <= g < gen_bests@.len() ==> gen_bests@[g] == best_in(
                    batch_fitnesses(#[trigger] batch_views(batches@)[g]),
                ),
            forall|g: int|
                0 <= g < batches@.len() ==> !meets_desired(
                    #[trigger] batch_views(batches@)[g],
                    desired_fitness,
                ),
            best_fitness == running_best(gen_bests@),
            best_generation as int == running_best_generation(gen_bests@),
            best_fitness == 0 ==> best_params is None,
            best_fitness > 0 ==> match best_params {
                Some(p) => exists|i: int|
                    0 <= i < batch_views(batches@)[best_generation - 1].len() && (#[trigger] batch_views(
                        batches@,
                    )[best_generation - 1][i]).fitness == best_fitness && batch_views(batches@)[
                        best_generation - 1
                    ][i].params == p,
                None => false,
            },
            state == ConvergenceState::Running,
        ensures
            batches@.len() >= 1,
            batches@.len() <= effective_cap(generation_cap),
            gen_bests@.len() == batches@.len(),
            ledger_wf(batch_views(batches@), init0),
            batch_views(batches@)[0].len() == init0.len() || (batch_views(batches@)[0].len() >= 1
                && batch_views(batches@)[0].last().fitness >= desired_fitness),
            mode == ComputationMode::Sequential ==> forall|g: int|
                0 <= g < batches@.len() ==> short_circuit_shape(
                    #[trigger] batch_views(batches@)[g],
                    desired_fitness,
                ),
            forall|g: int|
                0 <= g < batches@.len() - 1 ==> (#[trigger] batch_views(batches@)[g + 1]).len()
                    <= batch_views(batches@)[g].len(),
            forall|g: int|
                0 <= g < gen_bests@.len() ==> gen_bests@[g] == best_in(
                    batch_fitnesses(#[trigger] batch_views(batches@)[g]),
                ),
            forall|g: int|
                0 <= g < batches@.len() - 1 ==> !meets_desired(
                    #[trigger] batch_views(batches@)[g],
                    desired_fitness,
                ),
            best_fitness == running_best(gen_bests@),
            best_generation as int == running_best_generation(gen_bests@),
            best_fitness == 0 ==> best_params is None,
            best_fitness > 0 ==> match best_params {
                Some(p) => exists|i: int|
                    0 <= i < batch_views(batches@)[best_generation - 1].len() && (#[trigger] batch_views(
                        batches@,
                    )[best_generation - 1][i]).fitness == best_fitness && batch_views(batches@)[
                        best_generation - 1
                    ][i].params == p,
                None => false,
            },
            (state == ConvergenceState::DesiredFitnessMet <==> meets_desired(
                batch_views(batches@)[batches@.len() - 1],
                desired_fitness,
            )),
            (state == ConvergenceState::GenerationCapReached <==> !meets_desired(
                batch_views(batches@)[batches@.len() - 1],
                desired_fitness,
            ) && batches@.len() == effective_cap(generation_cap)),
            (state == ConvergenceState::PopulationCollapsed <==> !meets_desired(
                batch_views(batches@)[batches@.len() - 1],
                desired_fitness,
            ) && batches@.len() < effective_cap(generation_cap)),
            population@.len() <= init0.len(),
            state == ConvergenceState::PopulationCollapsed ==> population@.len() <= 1,
            state != ConvergenceState::PopulationCollapsed ==> batch_views(batches@)[batches@.len()
                - 1].len() <= population@.len() && forall|i: int|
                0 <= i < batch_views(batches@)[batches@.len() - 1].len() ==> (
                #[trigger] population@[i]).fitness == batch_views(batches@)[batches@.len()
                    - 1][i].fitness && population@[i].params == batch_views(batches@)[batches@.len()
                    - 1][i].params,
        decreases cap_limit - generation,
    {
        generation = generation + 1;
        let batch = match mode {
            ComputationMode::Sequential => evaluate_generation_sequential::<M>(
                &population,
                generation,
                desired_fitness,
                step_count,
            ),
            ComputationMode::Parallel => evaluate_generation_parallel::<M>(
                &population,
                generation,
                desired_fitness,
                step_count,
            ),
            ComputationMode::DistributedMPI => evaluate_generation_distributed::<M>(
                &population,
                generation,
                desired_fitness,
                step_count,
                world_size,
            ),
        };
        let gen_best = batch.best;
        let met = batch.desired_met;
        let gen_best_params = batch.best_params;
        write_back(&mut population, &batch.records);
        let ghost pre_batches = batches@;
        let ghost pre_bests = gen_bests@;
        let ghost batch_view = batch.records@;
        proof {
            lemma_batch_views_push(pre_batches, batch.records);
            lemma_running_best_push(pre_bests, gen_best);
            lemma_running_best_bounds(pre_bests);
        }
        batches.push(batch.records);
        gen_bests.push(gen_best);
        proof {
            assert(batch_views(batches@)[batches@.len() - 1] =~= batch_view);
            assert forall|g: int| 0 <= g < pre_batches.len() implies #[trigger] batch_views(
                batches@,
            )[g] == batch_views(pre_batches)[g] by {}
        }
        if gen_best > best_fitness {
            best_fitness = gen_best;
            best_generation = generation;
            best_params = gen_best_params;
            proof {
                assert(best_fitness > 0);
                assert(batch_views(batches@)[best_generation - 1] =~= batch_view);
                match best_params {
                    Some(p) => {
                        let i0 = choose|i: int|
                            0 <= i < batch_view.len() && (#[trigger] batch_view[i]).fitness
                                == gen_best && batch_view[i].params == p;
                        assert((batch_views(batches@)[best_generation - 1][i0]).fitness
                            == best_fitness && batch_views(batches@)[best_generation - 1][i0].params
                            == p);
                    },
                    None => {
                        assert(false);
                    },
                }
            }
        } else {
            proof {
                if best_fitness > 0 {
                    match best_params {
                        Some(p) => {
                            let i0 = choose|i: int|
                                0 <= i < batch_views(pre_batches)[best_generation - 1].len() && (
                                #[trigger] batch_views(pre_batches)[best_generation - 1][i]).fitness
                                    == best_fitness && batch_views(pre_batches)[best_generation
                                    - 1][i].params == p;
                            assert(batch_views(batches@)[best_generation - 1][i0] == batch_views(
                                pre_batches,
                            )[best_generation - 1][i0]);
                        },
                        None => {},
                    }
                }
            }
        }
        if !met && generation != cap_limit {
            M::selection(&mut population);
        }
        let stop = convergence_check(met, generation, generation_cap, population.len());
        if stop != ConvergenceState::Running {
            state = stop;
            break ;
        }
        let m = population.len();
        let mut i: usize = 0;
        while i < m
            invariant
                i <= m,
                population@.len() == m as int,
            decreases m - i,
        {
            let mut ind = population[i];
            M::mutation(&mut ind);
            population.set(i, ind);
            i = i + 1;
        }
        M::crossover(&mut population);
    }
    let out = GaOutcome {
        batches,
        gen_bests,
        best_fitness,
        best_generation,
        best_params,
        final_population: population,
        state,
    };
    proof {
        assert(outcome_wf(out, init0, desired_fitness, generation_cap));
    }
    out
}

/// Which configuration error a run must reject, if any: an empty initial
/// population is reported first, then a step count of zero, then — for the
/// distributed strategy only — an empty rank group.
pub open spec fn config_error<P>(
    initial: Seq<Individual<P>>,
    step_count: u64,
    world_size: int,
) -> Option<ConfigurationError> {
    if initial.len() == 0 {
        Some(ConfigurationError::EmptyInitialPopulation)
    } else if step_count == 0 {
        Some(ConfigurationError::StepCountZero)
    } else if world_size == 0 {
        Some(ConfigurationError::WorldSizeZero)
    } else {
        None
    }
}

/// Runs the whole exploration under the sequential strategy. Beyond the
/// shared run contract, every batch of a sequential run carries the
/// short-circuit cut shape.
pub fn explore_ga_sequential<M: Model>(
    initial: Vec<Individual<M::Params>>,
    desired_fitness: i64,
    generation_cap: u32,
    step_count: u64,
) -> (result: Result<GaOutcome<M::Params>, ConfigurationError>) where M::Params: Sync
    ensures
        match config_error(initial@, step_count, 1) {
            Some(e) => result == Result::<GaOutcome<M::Params>, ConfigurationError>::Err(e),
            None => result is Ok && outcome_wf(
                result->Ok_0,
                initial@,
                desired_fitness,
                generation_cap,
            ) && sequential_run_shape(result->Ok_0, desired_fitness),
        },
{
    if initial.len() == 0 {
        return Err(ConfigurationError::EmptyInitialPopulation);
    }
    if step_count == 0 {
        return Err(ConfigurationError::StepCountZero);
    }
    Ok(
        run_loop::<M>(
            initial,
            desired_fitness,
            generation_cap,
            step_count,
            ComputationMode::Sequential,
            1,
        ),
    )
}

/// Runs the whole exploration under the shared-memory parallel strategy.
pub fn explore_ga_parallel<M: Model>(
    initial: Vec<Individual<M::Params>>,
    desired_fitness: i64,
    generation_cap: u32,
    step_count: u64,
) -> (result: Result<GaOutcome<M::Params>, ConfigurationError>) where M::Params: Sync
    ensures
        match config_error(initial@, step_count, 1) {
            Some(e) => result == Result::<GaOutcome<M::Params>, ConfigurationError>::Err(e),
            None => result is Ok && outcome_wf(
                result->Ok_0,
                initial@,
                desired_fitness,
                generation_cap,
            ),
        },
{
    if initial.len() == 0 {
        return Err(ConfigurationError::EmptyInitialPopulation);
    }
    if step_count == 0 {
        return Err(ConfigurationError::StepCountZero);
    }
    Ok(
        run_loop::<M>(
            initial,
            desired_fitness,
            generation_cap,
            step_count,
            ComputationMode::Parallel,
            1,
        ),
    )
}

/// Runs the whole exploration under the distributed strategy, as performed
/// by a group of `world_size` ranks in lock step.
pub fn explore_ga_distributed_mpi<M: Model>(
    initial: Vec<Individual<M::Params>>,
    desired_fitness: i64,
    generation_cap: u32,
    step_count: u64,
    world_size: usize,
) -> (result: Result<GaOutcome<M::Params>, ConfigurationError>) where M::Params: Sync
    ensures
        match config_error(initial@, step_count, world_size as int) {
            Some(e) => result == Result::<GaOutcome<M::Params>, ConfigurationError>::Err(e),
            None => result is Ok && outcome_wf(
                result->Ok_0,
                initial@,
                desired_fitness,
                generation_cap,
            ),
        },
{
    if initial.len() == 0 {
        return Err(ConfigurationError::EmptyInitialPopulation);
    }
    if step_count == 0 {
        return Err(ConfigurationError::StepCountZero);
    }
    if world_size == 0 {
        return Err(ConfigurationError::WorldSizeZero);
    }
    Ok(
        run_loop::<M>(
            initial,
            desired_fitness,
            generation_cap,
            step_count,
            ComputationMode::DistributedMPI,
            world_size,
        ),
    )
}

/// Runs the whole exploration under the strategy `mode` selects. The three
/// strategies are behaviorally interchangeable: every one returns an
/// outcome meeting the same contract.
pub fn explore_ga<M: Model>(
    initial: Vec<Individual<M::Params>>,
    desired_fitness: i64,
    generation_cap: u32,
    step_count: u64,
    mode: ComputationMode,
    world_size: usize,
) -> (result: Result<GaOutcome<M::Params>, ConfigurationError>) where M::Params: Sync
    ensures
        match config_error(
            initial@,
            step_count,
            if mode == ComputationMode::DistributedMPI {
                world_size as int
            } else {
                1
            },
        ) {
            Some(e) => result == Result::<GaOutcome<M::Params>, ConfigurationError>::Err(e),
            None => result is Ok && outcome_wf(
                result->Ok_0,
                initial@,
                desired_fitness,
                generation_cap,
            ) && (mode == ComputationMode::Sequential ==> sequential_run_shape(
                result->Ok_0,
                desired_fitness,
            )),
        },
{
    match mode {
        ComputationMode::Sequential => explore_ga_sequential::<M>(
            initial,
            desired_fitness,
            generation_cap,
            step_count,
        ),
        ComputationMode::Parallel => explore_ga_parallel::<M>(
            initial,
            desired_fitness,
            generation_cap,
            step_count,
        ),
        ComputationMode::DistributedMPI => explore_ga_distributed_mpi::<M>(
            initial,
            desired_fitness,
            generation_cap,
            step_count,
            world_size,
        ),
    }
}

/// The best-fitness tracker is monotone non-decreasing across the whole
/// run: after any later generation it reports at least what it reported
/// after any earlier one, whatever the per-generation bests were.
pub proof fn lemma_best_fitness_monotone(gen_bests: Seq<i64>, i: int, j: int)
    requires
        0 <= i <= j <= gen_bests.len(),
    ensures
        running_best(gen_bests.take(i)) <= running_best(gen_bests.take(j)),
    decreases j - i,
{
    if i < j {
        lemma_best_fitness_monotone(gen_bests, i, j - 1);
        assert(gen_bests.take(j).drop_last() =~= gen_bests.take(j - 1));
    }
}

/// How many individuals the sequential strategy evaluates of a generation
/// whose scores would come out as `fitnesses`: it cuts the generation right
/// after the first score that meets the threshold, and otherwise evaluates
/// everyone.
pub open spec fn sequential_eval_len(fitnesses: Seq<i64>, desired: i64) -> int
    decreases fitnesses.len(),
{
    if fitnesses.len() == 0 {
        0
    } else if fitnesses.first() >= desired {
        1
    } else {
        1 + sequential_eval_len(fitnesses.drop_first(), desired)
    }
}

/// The sequential strategy never records more than the generation holds,
/// and only stops short of the whole generation by cutting at a score that
/// meets the threshold.
pub proof fn lemma_sequential_eval_len_bounds(fitnesses: Seq<i64>, desired: i64)
    ensures
        0 <= sequential_eval_len(fitnesses, desired) <= fitnesses.len(),
        fitnesses.len() > 0 ==> sequential_eval_len(fitnesses, desired) >= 1,
        sequential_eval_len(fitnesses, desired) < fitnesses.len() ==> fitnesses[
            sequential_eval_len(fitnesses, desired) - 1
        ] >= desired,
        forall|i: int|
            0 <= i < sequential_eval_len(fitnesses, desired) - 1 ==> #[trigger] fitnesses[i]
                < desired,
    decreases fitnesses.len(),
{
    if fitnesses.len() > 0 && fitnesses.first() < desired {
        lemma_sequential_eval_len_bounds(fitnesses.drop_first(), desired);
        assert forall|i: int|
            0 <= i < sequential_eval_len(fitnesses, desired) - 1 implies #[trigger] fitnesses[i]
            < desired by {
            if i > 0 {
                assert(fitnesses.drop_first()[i - 1] == fitnesses[i]);
            }
        }
        if sequential_eval_len(fitnesses, desired) < fitnesses.len() {
            let c = sequential_eval_len(fitnesses.drop_first(), desired);
            assert(fitnesses.drop_first().len() > 0);
            assert(c >= 1);
            assert(fitnesses.drop_first()[c - 1] == fitnesses[c]);
        }
    }
}

/// Both short-circuit disciplines agree on whether the desired fitness was
/// reached in a generation: the sequential strategy (which stops at the
/// first score meeting the threshold) flags it exactly when the parallel
/// and distributed strategies (which scan the whole completed batch) do.
/// Hence all strategies stop after the same generation.
pub proof fn lemma_short_circuit_flag_agrees(fitnesses: Seq<i64>, desired: i64)
    ensures
        (exists|i: int|
            0 <= i < sequential_eval_len(fitnesses, desired) && #[trigger] fitnesses[i]
                >= desired) <==> (exists|i: int|
            0 <= i < fitnesses.len() && #[trigger] fitnesses[i] >= desired),
    decreases fitnesses.len(),
{
    lemma_sequential_eval_len_bounds(fitnesses, desired);
    if fitnesses.len() == 0 {
    } else if fitnesses.first() >= desired {
        assert(fitnesses[0] >= desired);
    } else {
        lemma_short_circuit_flag_agrees(fitnesses.drop_first(), desired);
        let rest = fitnesses.drop_first();
        let cut = sequential_eval_len(fitnesses, desired);
        assert forall|i: int| 0 <= i < rest.len() implies #[trigger] rest[i] == fitnesses[i
            + 1] by {}
        if exists|i: int| 0 <= i < fitnesses.len() && #[trigger] fitnesses[i] >= desired {
            let i0 = choose|i: int| 0 <= i < fitnesses.len() && #[trigger] fitnesses[i] >= desired;
            assert(i0 >= 1);
            assert(rest[i0 - 1] >= desired);
            let j0 = choose|i: int|
                0 <= i < sequential_eval_len(rest, desired) && #[trigger] rest[i] >= desired;
            assert(fitnesses[j0 + 1] >= desired && 0 <= j0 + 1 < cut);
        }
        if exists|i: int| 0 <= i < cut && #[trigger] fitnesses[i] >= desired {
            let i0 = choose|i: int| 0 <= i < cut && #[trigger] fitnesses[i] >= desired;
            assert(0 <= i0 < fitnesses.len());
        }
    }
}

/// When no individual before the last one of a generation meets the desired
/// fitness, the sequential strategy evaluates the whole generation, so its
/// batch — and with it the generation's best — is exactly what the parallel
/// and distributed strategies produce for the same scores: evaluation order
/// does not affect the outcome.
pub proof fn lemma_sequential_parallel_agree(fitnesses: Seq<i64>, desired: i64)
    requires
        forall|i: int| 0 <= i < fitnesses.len() - 1 ==> #[trigger] fitnesses[i] < desired,
    ensures
        sequential_eval_len(fitnesses, desired) == fitnesses.len(),
        fitnesses.take(sequential_eval_len(fitnesses, desired)) == fitnesses,
        best_in(fitnesses.take(sequential_eval_len(fitnesses, desired))) == best_in(fitnesses),
    decreases fitnesses.len(),
{
    if fitnesses.len() > 0 && fitnesses.first() < desired {
        let rest = fitnesses.drop_first();
        assert forall|i: int| 0 <= i < rest.len() - 1 implies #[trigger] rest[i] < desired by {
            assert(rest[i] == fitnesses[i + 1]);
        }
        lemma_sequential_parallel_agree(rest, desired);
    }
    assert(fitnesses.take(sequential_eval_len(fitnesses, desired)) =~= fitnesses);
}

/// Ledger rows are uniquely keyed: two distinct positions of a well-formed
/// ledger never carry the same `(generation, index)` pair.
pub proof fn lemma_ledger_keys_unique<P>(
    batches: Seq<Seq<GenerationRecord<P>>>,
    initial: Seq<Individual<P>>,
    g1: int,
    i1: int,
    g2: int,
    i2: int,
)
    requires
        ledger_wf(batches, initial),
        0 <= g1 < batches.len(),
        0 <= i1 < batches[g1].len(),
        0 <= g2 < batches.len(),
        0 <= i2 < batches[g2].len(),
        g1 != g2 || i1 != i2,
    ensures
        batches[g1][i1].generation != batches[g2][i2].generation || batches[g1][i1].index
            != batches[g2][i2].index,
{
}

/// The ledger as one flat, append-ordered table: all generation batches
/// concatenated in order.
pub fn ledger<P: Copy>(out: &GaOutcome<P>) -> (rows: Vec<GenerationRecord<P>>)
    ensures
        rows@ == batch_views(out.batches@).flatten(),
{
    let mut rows: Vec<GenerationRecord<P>> = Vec::new();
    let gens = out.batches.len();
    for g in 0..gens
        invariant
            gens == out.batches@.len(),
            rows@ == batch_views(out.batches@).take(g as int).flatten_alt(),
    {
        let part_len = out.batches[g].len();
        for i in 0..part_len
            invariant
                gens == out.batches@.len(),
                g < gens,
                part_len == out.batches@[g as int]@.len(),
                rows@ == batch_views(out.batches@).take(g as int).flatten_alt() + batch_views(
                    out.batches@,
                )[g as int].take(i as int),
        {
            rows.push(out.batches[g][i]);
            proof {
                assert(batch_views(out.batches@)[g as int].take(i as int).push(
                    out.batches@[g as int]@[i as int],
                ) =~= batch_views(out.batches@)[g as int].take(i as int + 1));
                assert(rows@ =~= batch_views(out.batches@).take(g as int).flatten_alt()
                    + batch_views(out.batches@)[g as int].take(i as int + 1));
            }
        }
        proof {
            assert(batch_views(out.batches@)[g as int].take(part_len as int) =~= batch_views(
                out.batches@,
            )[g as int]);
            assert(batch_views(out.batches@).take(g as int + 1).drop_last() =~= batch_views(
                out.batches@,
            ).take(g as int));
            assert(batch_views(out.batches@).take(g as int + 1).last() == batch_views(
                out.batches@,
            )[g as int]);
            assert(rows@ =~= batch_views(out.batches@).take(g as int + 1).flatten_alt());
        }
    }
    proof {
        assert(batch_views(out.batches@).take(gens as int) =~= batch_views(out.batches@));
        batch_views(out.batches@).lemma_flatten_and_flatten_alt_are_equivalent();
    }
    rows
}

} // verus!
