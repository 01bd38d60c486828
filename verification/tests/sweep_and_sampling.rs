use rust_ab::explore::model::{Individual, Model};
use rust_ab::explore::sweep::{
    build_configurations, config_count, distributed_sweep_assignment, explore_parallel,
    explore_sequential,
};
use rust_ab::sampling::gen_param;
use rust_ab::ExploreMode;

/// A model that never meets its end condition, so every run exhausts the
/// step bound.
struct Endless;

impl Model for Endless {
    type Params = i64;

    fn new_with_parameters(_p: &i64) -> Endless {
        Endless
    }

    fn init(&mut self) {}

    fn step(&mut self) {}

    fn end_condition(&self) -> bool {
        false
    }

    fn fitness(&self, steps: u64) -> i64 {
        steps as i64
    }

    fn selection(_population: &mut Vec<Individual<i64>>) {}

    fn mutation(_individual: &mut Individual<i64>) {}

    fn crossover(_population: &mut Vec<Individual<i64>>) {}
}

/// A model that ends as soon as its accumulator reaches its parameter.
struct CountTo {
    target: i64,
    acc: i64,
}

impl Model for CountTo {
    type Params = i64;

    fn new_with_parameters(p: &i64) -> CountTo {
        CountTo { target: *p, acc: 0 }
    }

    fn init(&mut self) {}

    fn step(&mut self) {
        self.acc += 1;
    }

    fn end_condition(&self) -> bool {
        self.acc >= self.target
    }

    fn fitness(&self, _steps: u64) -> i64 {
        self.acc
    }

    fn selection(_population: &mut Vec<Individual<i64>>) {}

    fn mutation(_individual: &mut Individual<i64>) {}

    fn crossover(_population: &mut Vec<Individual<i64>>) {}
}

#[test]
fn exhaustive_count_is_the_product() {
    assert_eq!(config_count(&vec![2, 3, 4], ExploreMode::Exaustive), Some(24));
    assert_eq!(config_count(&vec![], ExploreMode::Exaustive), Some(1));
    assert_eq!(config_count(&vec![usize::MAX, 2], ExploreMode::Exaustive), None);
}

#[test]
fn matched_count_is_the_common_length() {
    assert_eq!(config_count(&vec![5, 5, 5], ExploreMode::Matched), Some(5));
    assert_eq!(config_count(&vec![], ExploreMode::Matched), Some(1));
}

#[test]
fn configuration_table_enumerates_the_cross_product() {
    let table = build_configurations(6, &vec![2, 3]);
    assert_eq!(table.len(), 2);
    assert_eq!(table[0], vec![0, 0, 0, 1, 1, 1]);
    assert_eq!(table[1], vec![0, 1, 2, 0, 1, 2]);
    // Reading the table column-wise yields each combination exactly once.
    let mut combos: Vec<(usize, usize)> = (0..6).map(|j| (table[0][j], table[1][j])).collect();
    combos.sort();
    combos.dedup();
    assert_eq!(combos.len(), 6);
}

#[test]
fn sweep_rows_are_configuration_major() {
    let rows = explore_sequential::<Endless>(&vec![100, 200], 3, 4);
    assert_eq!(rows.len(), 6);
    let expect = [(0usize, 1usize, 100i64), (0, 2, 100), (0, 3, 100), (1, 1, 200), (1, 2, 200),
        (1, 3, 200)];
    for (row, (num, rep, par)) in rows.iter().zip(expect.iter()) {
        assert_eq!(row.conf_num, *num);
        assert_eq!(row.conf_rep, *rep);
        assert_eq!(row.params, *par);
        assert_eq!(row.steps, 4);
    }
}

#[test]
fn early_end_condition_cuts_the_step_count() {
    let rows = explore_sequential::<CountTo>(&vec![2, 99], 1, 10);
    assert_eq!(rows.len(), 2);
    assert_eq!(rows[0].steps, 2);
    assert_eq!(rows[1].steps, 10);
}

#[test]
fn zero_repetitions_give_an_empty_table() {
    let seq = explore_sequential::<Endless>(&vec![1, 2, 3], 0, 4);
    assert!(seq.is_empty());
    let par = explore_parallel::<Endless>(&vec![1, 2, 3], 0, 4);
    assert!(par.is_empty());
}

#[test]
fn parallel_sweep_matches_sequential_sweep() {
    let configs = vec![1, 2, 3, 4, 5];
    let seq = explore_sequential::<CountTo>(&configs, 2, 8);
    let par = explore_parallel::<CountTo>(&configs, 2, 8);
    assert_eq!(seq.len(), par.len());
    for (a, b) in seq.iter().zip(par.iter()) {
        assert_eq!(a.conf_num, b.conf_num);
        assert_eq!(a.conf_rep, b.conf_rep);
        assert_eq!(a.params, b.params);
        assert_eq!(a.steps, b.steps);
    }
}

#[test]
fn distributed_sweep_splits_rounds_across_ranks() {
    assert_eq!(distributed_sweep_assignment(7, 3, 0), vec![0, 3]);
    assert_eq!(distributed_sweep_assignment(7, 3, 1), vec![1, 4]);
    assert_eq!(distributed_sweep_assignment(7, 3, 2), vec![2, 5]);
    // Whole rounds only: each remaining configuration belongs to exactly
    // one rank.
    let mut all: Vec<usize> = Vec::new();
    for rank in 0..3 {
        all.extend(distributed_sweep_assignment(7, 3, rank));
    }
    all.sort();
    assert_eq!(all, vec![0, 1, 2, 3, 4, 5]);
}

#[test]
fn gen_param_respects_the_bounds() {
    let samples = gen_param(10, 20, 50);
    assert_eq!(samples.len(), 50);
    for s in &samples {
        assert!(10 <= *s && *s < 20);
    }
}

#[test]
fn gen_param_swaps_reversed_bounds() {
    let samples = gen_param(20, 10, 8);
    assert_eq!(samples.len(), 8);
    for s in &samples {
        assert!(10 <= *s && *s < 20);
    }
}

#[test]
fn gen_param_zero_count_gives_one_sample() {
    let samples = gen_param(-5, -4, 0);
    assert_eq!(samples, vec![-5]);
}

#[test]
fn gen_param_equal_bounds_give_that_value() {
    let samples = gen_param(7, 7, 4);
    assert_eq!(samples, vec![7, 7, 7, 7]);
}
