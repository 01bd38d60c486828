use rust_ab::explore::genetic::{
    convergence_check, explore_ga, explore_ga_distributed_mpi, explore_ga_parallel,
    explore_ga_sequential, ledger, write_back,
};
use rust_ab::explore::model::{
    ConfigurationError, ConvergenceState, GenerationRecord, Individual, Model,
};
use rust_ab::ComputationMode;

/// A deterministic test model: a parameter is a pair (value, growth). The
/// simulation ends after its first step; fitness is the value; mutation adds
/// the growth to the value; selection and crossover leave the population as
/// it is.
struct Grower {
    value: i64,
}

impl Model for Grower {
    type Params = (i64, i64);

    fn new_with_parameters(p: &(i64, i64)) -> Grower {
        Grower { value: p.0 }
    }

    fn init(&mut self) {}

    fn step(&mut self) {}

    fn end_condition(&self) -> bool {
        true
    }

    fn fitness(&self, _steps: u64) -> i64 {
        self.value
    }

    fn selection(_population: &mut Vec<Individual<(i64, i64)>>) {}

    fn mutation(individual: &mut Individual<(i64, i64)>) {
        individual.params.0 += individual.params.1;
    }

    fn crossover(_population: &mut Vec<Individual<(i64, i64)>>) {}
}

/// Like `Grower`, but selection cuts the population down to one individual.
struct Collapser {
    value: i64,
}

impl Model for Collapser {
    type Params = (i64, i64);

    fn new_with_parameters(p: &(i64, i64)) -> Collapser {
        Collapser { value: p.0 }
    }

    fn init(&mut self) {}

    fn step(&mut self) {}

    fn end_condition(&self) -> bool {
        true
    }

    fn fitness(&self, _steps: u64) -> i64 {
        self.value
    }

    fn selection(population: &mut Vec<Individual<(i64, i64)>>) {
        population.truncate(1);
    }

    fn mutation(individual: &mut Individual<(i64, i64)>) {
        individual.params.0 += individual.params.1;
    }

    fn crossover(_population: &mut Vec<Individual<(i64, i64)>>) {}
}

/// Fitness values are scaled by 100: a desired fitness of 0.9 is 90.
/// Population of 10, cap of 5; one individual starts at 83 and grows by 6,
/// reaching 95 (0.95) in generation 3; the others stay far below.
fn p6_population() -> Vec<Individual<(i64, i64)>> {
    let mut pop: Vec<Individual<(i64, i64)>> = Vec::new();
    for k in 0..9 {
        pop.push(Individual::new((k, 0)));
    }
    pop.push(Individual::new((83, 6)));
    pop
}

#[test]
fn desired_fitness_met_in_generation_three() {
    let out = explore_ga_sequential::<Grower>(p6_population(), 90, 5, 1).unwrap();
    assert_eq!(out.state, ConvergenceState::DesiredFitnessMet);
    assert_eq!(out.batches.len(), 3);
    assert_eq!(out.best_fitness, 95);
    assert_eq!(out.best_generation, 3);
    assert_eq!(out.best_params, Some((95, 6)));
    for batch in &out.batches {
        assert!(batch.len() <= 10);
    }
    assert_eq!(out.gen_bests, vec![83, 89, 95]);
    // The last generation's fitness was written back into the population
    // before the loop stopped.
    assert_eq!(out.final_population.len(), 10);
    for (ind, rec) in out.final_population.iter().zip(out.batches[2].iter()) {
        assert_eq!(ind.fitness, rec.fitness);
        assert_eq!(ind.params, rec.params);
    }
}

#[test]
fn no_records_after_short_circuit_generation() {
    // Desired-fitness short-circuit: the run stops at generation 3, so no
    // generation-4 record may exist anywhere in the ledger.
    let out = explore_ga_sequential::<Grower>(p6_population(), 90, 5, 1).unwrap();
    let rows = ledger(&out);
    assert_eq!(rows.len(), 30);
    for row in &rows {
        assert!(row.generation >= 1 && row.generation <= 3);
    }
    assert!(rows.iter().any(|r| r.generation == 3 && r.fitness == 95));
}

#[test]
fn population_collapse_stops_without_new_generation() {
    let mut pop: Vec<Individual<(i64, i64)>> = Vec::new();
    for k in 0..5 {
        pop.push(Individual::new((k, 1)));
    }
    let out = explore_ga_sequential::<Collapser>(pop, 1000, 10, 1).unwrap();
    assert_eq!(out.state, ConvergenceState::PopulationCollapsed);
    // One generation was evaluated; the collapse check fired before any
    // further generation, so the ledger holds exactly that round and the
    // final population shows the collapse.
    assert_eq!(out.batches.len(), 1);
    assert_eq!(out.batches[0].len(), 5);
    assert_eq!(ledger(&out).len(), 5);
    assert_eq!(out.final_population.len(), 1);
}

#[test]
fn generation_cap_bounds_the_run() {
    let mut pop: Vec<Individual<(i64, i64)>> = Vec::new();
    pop.push(Individual::new((10, 1)));
    pop.push(Individual::new((20, 1)));
    let out = explore_ga_sequential::<Grower>(pop, 1000, 4, 1).unwrap();
    assert_eq!(out.state, ConvergenceState::GenerationCapReached);
    assert_eq!(out.batches.len(), 4);
    assert_eq!(out.gen_bests, vec![20, 21, 22, 23]);
    assert_eq!(out.best_fitness, 23);
    assert_eq!(out.best_generation, 4);
}

#[test]
fn best_fitness_tracker_is_monotone() {
    // Per-generation bests fall (growth is negative), yet the tracker never
    // goes below what it has already reported.
    let mut pop: Vec<Individual<(i64, i64)>> = Vec::new();
    pop.push(Individual::new((50, -5)));
    pop.push(Individual::new((30, -5)));
    let out = explore_ga_sequential::<Grower>(pop, 1000, 3, 1).unwrap();
    assert_eq!(out.gen_bests, vec![50, 45, 40]);
    assert_eq!(out.best_fitness, 50);
    assert_eq!(out.best_generation, 1);
    let mut tracker = 0i64;
    let mut last = 0i64;
    for gb in &out.gen_bests {
        if *gb > tracker {
            tracker = *gb;
        }
        assert!(tracker >= last);
        last = tracker;
    }
}

#[test]
fn sequential_and_parallel_trajectories_agree() {
    let seq = explore_ga_sequential::<Grower>(p6_population(), 90, 5, 1).unwrap();
    let par = explore_ga_parallel::<Grower>(p6_population(), 90, 5, 1).unwrap();
    assert_eq!(seq.state, par.state);
    assert_eq!(seq.gen_bests, par.gen_bests);
    assert_eq!(seq.best_fitness, par.best_fitness);
    assert_eq!(seq.best_generation, par.best_generation);
    assert_eq!(seq.batches.len(), par.batches.len());
    for (bs, bp) in seq.batches.iter().zip(par.batches.iter()) {
        assert_eq!(bs.len(), bp.len());
        for (rs, rp) in bs.iter().zip(bp.iter()) {
            assert_eq!(rs.generation, rp.generation);
            assert_eq!(rs.index, rp.index);
            assert_eq!(rs.fitness, rp.fitness);
            assert_eq!(rs.params, rp.params);
        }
    }
}

#[test]
fn distributed_matches_sequential_outcome() {
    let seq = explore_ga_sequential::<Grower>(p6_population(), 90, 5, 1).unwrap();
    let dist = explore_ga_distributed_mpi::<Grower>(p6_population(), 90, 5, 1, 3).unwrap();
    assert_eq!(seq.state, dist.state);
    assert_eq!(seq.gen_bests, dist.gen_bests);
    assert_eq!(seq.best_fitness, dist.best_fitness);
    assert_eq!(seq.best_generation, dist.best_generation);
}

#[test]
fn dispatcher_selects_the_strategy() {
    let seq = explore_ga::<Grower>(p6_population(), 90, 5, 1, ComputationMode::Sequential, 1)
        .unwrap();
    let par = explore_ga::<Grower>(p6_population(), 90, 5, 1, ComputationMode::Parallel, 1)
        .unwrap();
    let dist =
        explore_ga::<Grower>(p6_population(), 90, 5, 1, ComputationMode::DistributedMPI, 4)
            .unwrap();
    assert_eq!(seq.best_fitness, 95);
    assert_eq!(par.best_fitness, 95);
    assert_eq!(dist.best_fitness, 95);
}

#[test]
fn empty_population_is_rejected() {
    let out = explore_ga_sequential::<Grower>(Vec::new(), 90, 5, 1);
    assert_eq!(out.unwrap_err(), ConfigurationError::EmptyInitialPopulation);
}

#[test]
fn zero_step_count_is_rejected() {
    let out = explore_ga_sequential::<Grower>(p6_population(), 90, 5, 0);
    assert_eq!(out.unwrap_err(), ConfigurationError::StepCountZero);
}

#[test]
fn zero_world_size_is_rejected() {
    let out = explore_ga_distributed_mpi::<Grower>(p6_population(), 90, 5, 1, 0);
    assert_eq!(out.unwrap_err(), ConfigurationError::WorldSizeZero);
}

#[test]
fn sequential_cut_stops_at_the_first_meeting_individual() {
    // The third of five individuals meets the threshold in generation 1:
    // the sequential strategy records exactly indices 0..=2 of that
    // generation — everything before the cut is below the threshold, the
    // cutting record meets it, and nothing after it was evaluated.
    let pop: Vec<Individual<(i64, i64)>> = vec![
        Individual::new((10, 0)),
        Individual::new((20, 0)),
        Individual::new((95, 0)),
        Individual::new((30, 0)),
        Individual::new((40, 0)),
    ];
    let out = explore_ga_sequential::<Grower>(pop, 90, 5, 1).unwrap();
    assert_eq!(out.state, ConvergenceState::DesiredFitnessMet);
    assert_eq!(out.batches.len(), 1);
    let last = &out.batches[0];
    assert_eq!(last.len(), 3);
    for (i, rec) in last.iter().enumerate() {
        assert_eq!(rec.index, i);
        assert_eq!(rec.generation, 1);
        if i + 1 < last.len() {
            assert!(rec.fitness < 90);
        }
    }
    assert_eq!(last[2].fitness, 95);
    assert_eq!(out.best_fitness, 95);
    assert_eq!(out.best_generation, 1);
    assert_eq!(ledger(&out).len(), 3);
}

#[test]
fn ledger_is_ordered_by_generation_then_index() {
    let out = explore_ga_sequential::<Grower>(p6_population(), 90, 5, 1).unwrap();
    let rows = ledger(&out);
    for pair in rows.windows(2) {
        let earlier = &pair[0];
        let later = &pair[1];
        assert!(
            earlier.generation < later.generation
                || (earlier.generation == later.generation && earlier.index + 1 == later.index)
        );
    }
    assert_eq!(rows[0].generation, 1);
    assert_eq!(rows[0].index, 0);
}

#[test]
fn fitness_is_written_back_into_the_population() {
    let mut pop: Vec<Individual<(i64, i64)>> = vec![
        Individual::new((10, 0)),
        Individual::new((20, 0)),
        Individual::new((30, 0)),
    ];
    let batch: Vec<GenerationRecord<(i64, i64)>> = vec![
        GenerationRecord { generation: 1, index: 0, fitness: 11, params: (10, 0) },
        GenerationRecord { generation: 1, index: 1, fitness: 22, params: (20, 0) },
    ];
    write_back(&mut pop, &batch);
    assert_eq!(pop[0].fitness, 11);
    assert_eq!(pop[1].fitness, 22);
    assert_eq!(pop[2].fitness, 0);
    assert_eq!(pop[0].params, (10, 0));
    assert_eq!(pop[1].params, (20, 0));
    assert_eq!(pop[2].params, (30, 0));
}

#[test]
fn tracker_stays_at_zero_for_negative_scores() {
    let mut pop: Vec<Individual<(i64, i64)>> = Vec::new();
    pop.push(Individual::new((-10, 0)));
    pop.push(Individual::new((-20, 0)));
    let out = explore_ga_sequential::<Grower>(pop, 1000, 2, 1).unwrap();
    assert_eq!(out.state, ConvergenceState::GenerationCapReached);
    assert_eq!(out.gen_bests, vec![0, 0]);
    assert_eq!(out.best_fitness, 0);
    assert_eq!(out.best_generation, 0);
    assert_eq!(out.best_params, None);
}

#[test]
fn convergence_checks_follow_the_fixed_order() {
    // Desired fitness wins over everything, the cap over collapse.
    assert_eq!(convergence_check(true, 5, 5, 1), ConvergenceState::DesiredFitnessMet);
    assert_eq!(convergence_check(false, 5, 5, 1), ConvergenceState::GenerationCapReached);
    assert_eq!(convergence_check(false, 2, 5, 1), ConvergenceState::PopulationCollapsed);
    assert_eq!(convergence_check(false, 2, 5, 0), ConvergenceState::PopulationCollapsed);
    assert_eq!(convergence_check(false, 2, 5, 2), ConvergenceState::Running);
    // A cap of zero is unbounded.
    assert_eq!(convergence_check(false, 1000, 0, 2), ConvergenceState::Running);
}

#[test]
fn unbounded_cap_runs_until_desired_fitness() {
    let mut pop: Vec<Individual<(i64, i64)>> = Vec::new();
    pop.push(Individual::new((0, 7)));
    pop.push(Individual::new((1, 0)));
    let out = explore_ga_sequential::<Grower>(pop, 70, 0, 1).unwrap();
    assert_eq!(out.state, ConvergenceState::DesiredFitnessMet);
    assert_eq!(out.batches.len(), 11);
    assert_eq!(out.best_fitness, 70);
}
