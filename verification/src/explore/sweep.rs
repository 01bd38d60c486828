//! Exploration over explicit parameter configurations.
//!
//! Besides the genetic search, the engine can sweep a fixed set of
//! configurations: input parameter lists are combined either exhaustively
//! (full cross-product, via an index table) or pairwise by index, and every
//! configuration is simulated a fixed number of times.

use vstd::prelude::*;
use rayon::iter::IndexedParallelIterator;
use rayon::iter::IntoParallelRefIterator;
use rayon::iter::ParallelIterator;
use vstd::arithmetic::div_mod::lemma_div_multiples_vanish;
use vstd::arithmetic::div_mod::lemma_fundamental_div_mod;
use vstd::arithmetic::div_mod::lemma_fundamental_div_mod_converse_div;
use vstd::arithmetic::div_mod::lemma_fundamental_div_mod_converse_mod;
use crate::ExploreMode;
use crate::explore::model::Model;
use crate::explore::model::run_simulation;

verus! {

/// The number of configurations formed from the input lists with sizes
/// `sizes[k..]`: the product of those sizes.
pub open spec fn tail_product(sizes: Seq<usize>, k: int) -> int
    decreases sizes.len() - k,
{
    if k < 0 || k >= sizes.len() {
        1
    } else {
        sizes[k] * tail_product(sizes, k + 1)
    }
}

/// A product of positive sizes is positive, and no larger than the product
/// over fewer of them.
pub proof fn lemma_tail_product_positive(sizes: Seq<usize>, k: int)
    requires
        forall|t: int| 0 <= t < sizes.len() ==> #[trigger] sizes[t] >= 1,
    ensures
        tail_product(sizes, k) >= 1,
        0 <= k < sizes.len() ==> tail_product(sizes, k + 1) <= tail_product(sizes, k),
    decreases sizes.len() - k,
{
    if 0 <= k < sizes.len() {
        lemma_tail_product_positive(sizes, k + 1);
        assert(sizes[k] * tail_product(sizes, k + 1) >= tail_product(sizes, k + 1)) by (nonlinear_arith)
            requires
                sizes[k] >= 1,
                tail_product(sizes, k + 1) >= 1,
        ;
    }
}

/// How many configurations a sweep visits: the full cross-product of the
/// input sizes in exhaustive mode (`None` when that count does not fit the
/// machine), the length of the last input list in matched mode (the lists
/// are expected to be equally long there).
pub fn config_count(sizes: &Vec<usize>, mode: ExploreMode) -> (n: Option<usize>)
    requires
        forall|t: int| 0 <= t < sizes@.len() ==> #[trigger] sizes@[t] >= 1,
    ensures
        match mode {
            ExploreMode::Exaustive => match n {
                Some(c) => c as int == tail_product(sizes@, 0),
                None => tail_product(sizes@, 0) > usize::MAX,
            },
            ExploreMode::Matched => n == Some(
                if sizes@.len() == 0 {
                    1usize
                } else {
                    sizes@[sizes@.len() - 1]
                },
            ),
        },
{
    match mode {
        ExploreMode::Exaustive => {
            let len = sizes.len();
            let mut acc: usize = 1;
            let mut k: usize = len;
            while k > 0
                invariant
                    mode == ExploreMode::Exaustive,
                    len == sizes@.len(),
                    k <= len,
                    forall|t: int| 0 <= t < sizes@.len() ==> #[trigger] sizes@[t] >= 1,
                    acc as int == tail_product(sizes@, k as int),
                ensures
                    k == 0,
                    acc as int == tail_product(sizes@, 0),
                decreases k,
            {
                k = k - 1;
                let s = sizes[k];
                match acc.checked_mul(s) {
                    Some(next) => {
                        proof {
                            assert(next as int == sizes@[k as int] * tail_product(
                                sizes@,
                                k as int + 1,
                            )) by (nonlinear_arith)
                                requires
                                    next as int == acc as int * s as int,
                                    s as int == sizes@[k as int],
                                    acc as int == tail_product(sizes@, k as int + 1),
                            ;
                        }
                        acc = next;
                    },
                    None => {
                        proof {
                            lemma_tail_product_positive(sizes@, k as int + 1);
                            assert(sizes@[k as int] * tail_product(sizes@, k as int + 1) > usize::MAX
                                as int) by (nonlinear_arith)
                                requires
                                    acc as int * (sizes@[k as int] as int) > usize::MAX as int,
                                    acc as int == tail_product(sizes@, k as int + 1),
                            ;
                            assert(tail_product(sizes@, k as int) == sizes@[k as int]
                                * tail_product(sizes@, k as int + 1));
                            lemma_tail_head_product_monotone(sizes@, k as int);
                        }
                        return None;
                    },
                }
            }
            Some(acc)
        },
        ExploreMode::Matched => {
            if sizes.len() == 0 {
                Some(1)
            } else {
                Some(sizes[sizes.len() - 1])
            }
        },
    }
}

/// A cross-product count only grows as more input lists are taken in: the
/// product over all sizes is at least the product over a suffix.
proof fn lemma_tail_head_product_monotone(sizes: Seq<usize>, k: int)
    requires
        forall|t: int| 0 <= t < sizes.len() ==> #[trigger] sizes[t] >= 1,
        0 <= k <= sizes.len(),
    ensures
        tail_product(sizes, 0) >= tail_product(sizes, k),
    decreases k,
{
    if k > 0 {
        lemma_tail_head_product_monotone(sizes, k - 1);
        lemma_tail_product_positive(sizes, k - 1);
    }
}

/// Builds the cross-product index table: row `k` tells, for each of the
/// `n_conf` configurations, which element of input list `k` it uses. The
/// pattern cycles list `k`'s indices, holding each for as many consecutive
/// configurations as there are combinations of the later lists, so the
/// `n_conf` configurations enumerate the full cross-product.
pub fn build_configurations(n_conf: usize, sizes: &Vec<usize>) -> (table: Vec<Vec<usize>>)
    requires
        forall|t: int| 0 <= t < sizes@.len() ==> #[trigger] sizes@[t] >= 1,
        n_conf as int == tail_product(sizes@, 0),
    ensures
        table@.len() == sizes@.len(),
        forall|k: int| 0 <= k < sizes@.len() ==> (#[trigger] table@[k])@.len() == n_conf as int,
        forall|k: int, j: int|
            0 <= k < sizes@.len() && 0 <= j < n_conf ==> (#[trigger] table@[k]@[j]) as int == (j
                / tail_product(sizes@, k + 1)) % (sizes@[k] as int),
{
    let len = sizes.len();
    let mut table: Vec<Vec<usize>> = Vec::new();
    let mut rep: usize = n_conf;
    for k in 0..len
        invariant
            len == sizes@.len(),
            forall|t: int| 0 <= t < sizes@.len() ==> #[trigger] sizes@[t] >= 1,
            n_conf as int == tail_product(sizes@, 0),
            rep as int == tail_product(sizes@, k as int),
            table@.len() == k as int,
            forall|t: int| 0 <= t < k ==> (#[trigger] table@[t])@.len() == n_conf as int,
            forall|t: int, j: int|
                0 <= t < k && 0 <= j < n_conf ==> (#[trigger] table@[t]@[j]) as int == (j
                    / tail_product(sizes@, t + 1)) % (sizes@[t] as int),
    {
        let size = sizes[k];
        proof {
            lemma_tail_product_positive(sizes@, k as int + 1);
            assert((sizes@[k as int] as int * tail_product(sizes@, k as int + 1)) / (sizes@[
                k as int
            ] as int) == tail_product(sizes@, k as int + 1)) by {
                lemma_div_multiples_vanish(tail_product(sizes@, k as int + 1), sizes@[k as int] as int);
            }
        }
        rep = rep / size;
        let mut row: Vec<usize> = Vec::new();
        for j in 0..n_conf
            invariant
                len == sizes@.len(),
                k < len,
                size == sizes@[k as int],
                size >= 1,
                rep as int == tail_product(sizes@, k as int + 1),
                rep >= 1,
                row@.len() == j as int,
                forall|t: int|
                    0 <= t < j ==> (#[trigger] row@[t]) as int == (t / rep as int) % (size as int),
        {
            row.push((j / rep) % size);
        }
        table.push(row);
    }
    table
}

/// The configurations one rank evaluates in a distributed sweep: rank
/// `rank` of `w` takes every `w`-th configuration starting at its own rank
/// number, `n_conf / w` of them in all. Each assigned configuration index
/// is valid and belongs to exactly one rank; trailing configurations that
/// do not fill a whole round across the ranks are left unassigned.
pub fn distributed_sweep_assignment(n_conf: usize, w: usize, rank: usize) -> (confs: Vec<usize>)
    requires
        1 <= w,
        rank < w,
    ensures
        confs@.len() == n_conf as int / w as int,
        forall|i: int|
            0 <= i < confs@.len() ==> (#[trigger] confs@[i]) as int == i * (w as int) + rank as int
                && confs@[i] < n_conf,
{
    let per = n_conf / w;
    proof {
        lemma_fundamental_div_mod(n_conf as int, w as int);
        vstd::arithmetic::div_mod::lemma_mod_bound(n_conf as int, w as int);
    }
    let mut confs: Vec<usize> = Vec::new();
    for i in 0..per
        invariant
            1 <= w,
            rank < w,
            per as int == n_conf as int / w as int,
            (per as int) * (w as int) + (n_conf as int % w as int) == n_conf as int,
            n_conf as int % w as int >= 0,
            confs@.len() == i as int,
            forall|t: int|
                0 <= t < i ==> (#[trigger] confs@[t]) as int == t * (w as int) + rank as int
                    && confs@[t] < n_conf,
    {
        proof {
            assert((i as int) * (w as int) + (w as int) <= (per as int) * (w as int))
                by (nonlinear_arith)
                requires
                    i as int + 1 <= per as int,
                    w as int >= 1,
            ;
        }
        confs.push(i * w + rank);
    }
    confs
}

/// One row of a sweep's result table: which configuration ran, which
/// repetition this was (counted from one), the configuration itself, and
/// how many steps the simulation took before its end condition or the step
/// bound stopped it.
#[derive(Clone, Copy, Debug)]
pub struct ExploreRecord<P> {
    pub conf_num: usize,
    pub conf_rep: usize,
    pub params: P,
    pub steps: u64,
}

/// A sweep's result table: one row per repetition of each configuration,
/// configuration-major and repetition-minor, each repetition counted from
/// one and echoing its configuration.
pub open spec fn sweep_rows_wf<P>(
    rows: Seq<ExploreRecord<P>>,
    configs: Seq<P>,
    rep_conf: usize,
    n_step: u64,
) -> bool {
    &&& rows.len() == configs.len() * rep_conf
    &&& forall|t: int|
        0 <= t < rows.len() ==> (#[trigger] rows[t]).conf_num == t / (rep_conf as int)
            && rows[t].conf_rep == t % (rep_conf as int) + 1 && rows[t].params == configs[t / (
        rep_conf as int)] && 1 <= rows[t].steps <= n_step
}

/// Sweeps the given configurations one after the other: each is simulated
/// `rep_conf` times for at most `n_step` steps, producing one result row
/// per run in configuration order. Zero repetitions yield an empty table.
pub fn explore_sequential<M: Model>(
    configs: &Vec<M::Params>,
    rep_conf: usize,
    n_step: u64,
) -> (rows: Vec<ExploreRecord<M::Params>>)
    requires
        n_step >= 1,
        configs@.len() * rep_conf <= usize::MAX,
    ensures
        sweep_rows_wf(rows@, configs@.map_values(|p: M::Params| p), rep_conf, n_step),
{
    let n = configs.len();
    let mut rows: Vec<ExploreRecord<M::Params>> = Vec::new();
    for i in 0..n
        invariant
            n == configs@.len(),
            n_step >= 1,
            n * rep_conf <= usize::MAX,
            rows@.len() == i as int * rep_conf as int,
            forall|t: int|
                0 <= t < rows@.len() ==> (#[trigger] rows@[t]).conf_num == t / (rep_conf as int)
                    && rows@[t].conf_rep == t % (rep_conf as int) + 1 && rows@[t].params
                    == configs@[t / (rep_conf as int)] && 1 <= rows@[t].steps <= n_step,
    {
        proof {
            assert((i as int) * (rep_conf as int) + rep_conf as int == (i as int + 1) * (
            rep_conf as int)) by (nonlinear_arith);
            assert((i as int + 1) * (rep_conf as int) <= (n as int) * (rep_conf as int))
                by (nonlinear_arith)
                requires
                    i as int + 1 <= n as int,
                    rep_conf as int >= 0,
            ;
        }
        let params = configs[i];
        for j in 0..rep_conf
            invariant
                n == configs@.len(),
                i < n,
                n_step >= 1,
                n * rep_conf <= usize::MAX,
                (i as int + 1) * (rep_conf as int) <= (n as int) * (rep_conf as int),
                params == configs@[i as int],
                rows@.len() == i as int * rep_conf as int + j as int,
                forall|t: int|
                    0 <= t < rows@.len() ==> (#[trigger] rows@[t]).conf_num == t / (rep_conf as int)
                        && rows@[t].conf_rep == t % (rep_conf as int) + 1 && rows@[t].params
                        == configs@[t / (rep_conf as int)] && 1 <= rows@[t].steps <= n_step,
        {
            let r = run_simulation::<M>(&params, n_step);
            proof {
                lemma_fundamental_div_mod_converse_div(
                    rows@.len() as int,
                    rep_conf as int,
                    i as int,
                    j as int,
                );
                lemma_fundamental_div_mod_converse_mod(
                    rows@.len() as int,
                    rep_conf as int,
                    i as int,
                    j as int,
                );
            }
            rows.push(
                ExploreRecord { conf_num: i, conf_rep: j + 1, params, steps: r.1 },
            );
        }
    }
    proof {
        assert(rows@.len() == configs@.len() * rep_conf as int);
        assert(configs@.map_values(|p: M::Params| p) =~= configs@);
    }
    rows
}

/// The per-run configuration list of a sweep: run `t` evaluates
/// configuration `t / rep_conf`, so the list repeats each configuration
/// `rep_conf` times in a row, in configuration order.
pub fn expand_runs<P: Copy>(configs: &Vec<P>, rep_conf: usize) -> (runs: Vec<P>)
    requires
        configs@.len() * rep_conf <= usize::MAX,
    ensures
        runs@.len() == configs@.len() * rep_conf,
        forall|t: int|
            0 <= t < runs@.len() ==> #[trigger] runs@[t] == configs@[t / (rep_conf as int)],
{
    let n = configs.len();
    let mut runs: Vec<P> = Vec::new();
    for i in 0..n
        invariant
            n == configs@.len(),
            n * rep_conf <= usize::MAX,
            runs@.len() == i as int * rep_conf as int,
            forall|t: int|
                0 <= t < runs@.len() ==> #[trigger] runs@[t] == configs@[t / (rep_conf as int)],
    {
        proof {
            assert((i as int) * (rep_conf as int) + rep_conf as int == (i as int + 1) * (
            rep_conf as int)) by (nonlinear_arith);
            assert((i as int + 1) * (rep_conf as int) <= (n as int) * (rep_conf as int))
                by (nonlinear_arith)
                requires
                    i as int + 1 <= n as int,
                    rep_conf as int >= 0,
            ;
        }
        let params = configs[i];
        for j in 0..rep_conf
            invariant
                n == configs@.len(),
                i < n,
                n * rep_conf <= usize::MAX,
                (i as int + 1) * (rep_conf as int) <= (n as int) * (rep_conf as int),
                params == configs@[i as int],
                runs@.len() == i as int * rep_conf as int + j as int,
                forall|t: int|
                    0 <= t < runs@.len() ==> #[trigger] runs@[t] == configs@[t / (rep_conf as int)],
        {
            proof {
                lemma_fundamental_div_mod_converse_div(
                    runs@.len() as int,
                    rep_conf as int,
                    i as int,
                    j as int,
                );
            }
            runs.push(params);
        }
    }
    runs
}

/// Relies on rayon: `par_iter().map(..).collect_into_vec(..)` runs the
/// closure on every element of the run list across the worker pool and
/// collects the results into an index-aligned vector of the same length.
/// The closure only calls the library's own `run_simulation` (whose
/// contract bounds every returned step count) and picks its step component.
#[verifier::external_body]
fn parallel_sweep_steps<M: Model>(runs: &Vec<M::Params>, n_step: u64) -> (steps: Vec<
    u64,
>) where M::Params: Sync
    requires
        n_step >= 1,
    ensures
        steps@.len() == runs@.len(),
        forall|t: int| 0 <= t < steps@.len() ==> 1 <= #[trigger] steps@[t] <= n_step,
{
    let mut steps: Vec<u64> = Vec::new();
    runs.par_iter().map(|p| run_simulation::<M>(p, n_step).1).collect_into_vec(&mut steps);
    steps
}

/// Sweeps the given configurations on a worker pool: every run is an
/// independent parallel task over the verified per-run configuration list,
/// and the result table is identical in shape and order to the sequential
/// sweep's. Zero repetitions yield an empty table.
pub fn explore_parallel<M: Model>(
    configs: &Vec<M::Params>,
    rep_conf: usize,
    n_step: u64,
) -> (rows: Vec<ExploreRecord<M::Params>>) where M::Params: Sync
    requires
        n_step >= 1,
        configs@.len() * rep_conf <= usize::MAX,
    ensures
        sweep_rows_wf(rows@, configs@.map_values(|p: M::Params| p), rep_conf, n_step),
{
    let runs = expand_runs(configs, rep_conf);
    let steps = parallel_sweep_steps::<M>(&runs, n_step);
    let total = steps.len();
    let mut rows: Vec<ExploreRecord<M::Params>> = Vec::new();
    for t in 0..total
        invariant
            total == steps@.len(),
            total as int == configs@.len() * rep_conf as int,
            runs@.len() == total as int,
            forall|u: int|
                0 <= u < runs@.len() ==> #[trigger] runs@[u] == configs@[u / (rep_conf as int)],
            n_step >= 1,
            forall|u: int| 0 <= u < steps@.len() ==> 1 <= #[trigger] steps@[u] <= n_step,
            rows@.len() == t as int,
            forall|u: int|
                0 <= u < rows@.len() ==> (#[trigger] rows@[u]).conf_num == u / (rep_conf as int)
                    && rows@[u].conf_rep == u % (rep_conf as int) + 1 && rows@[u].params
                    == configs@[u / (rep_conf as int)] && 1 <= rows@[u].steps <= n_step,
    {
        proof {
            let cl = configs@.len() as int;
            assert(rep_conf as int >= 1) by (nonlinear_arith)
                requires
                    cl * (rep_conf as int) > t as int,
                    0 <= t as int,
                    0 <= rep_conf as int,
                    0 <= cl,
            ;
            assert(t as int / (rep_conf as int) < cl) by (nonlinear_arith)
                requires
                    rep_conf as int >= 1,
                    0 <= t as int,
                    cl * (rep_conf as int) > t as int,
            ;
        }
        let conf_num = t / rep_conf;
        let conf_rep = t % rep_conf;
        let params = runs[t];
        rows.push(
            ExploreRecord { conf_num, conf_rep: conf_rep + 1, params, steps: steps[t] },
        );
    }
    proof {
        assert(configs@.map_values(|p: M::Params| p) =~= configs@);
    }
    rows
}

} // verus!
