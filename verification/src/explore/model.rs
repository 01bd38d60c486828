//! The caller-facing model interface and the per-candidate data the engine
//! keeps.
//!
//! A caller describes one parameterized simulation by implementing [`Model`]:
//! how to build an instance from a configuration, how to drive it step by
//! step, how to score a finished run, and how the genetic operators transform
//! the population between generations. The engine treats all of these as
//! opaque; its own guarantees are about how evaluations are scheduled,
//! recorded and aggregated.
//!
//! Fitness is a scalar score on an integer scale chosen by the caller (the
//! engine only ever compares scores). An individual's fitness slot starts at
//! zero, meaning "not yet evaluated".

use vstd::prelude::*;

verus! {

/// One candidate configuration together with its mutable fitness slot.
#[derive(Clone, Copy, Debug)]
pub struct Individual<P> {
    pub params: P,
    pub fitness: i64,
}

impl<P> Individual<P> {
    /// A fresh, not-yet-evaluated individual.
    pub fn new(params: P) -> (ind: Individual<P>)
        ensures
            ind.params == params,
            ind.fitness == 0,
    {
        Individual { params, fitness: 0 }
    }
}

/// One row of the result ledger: the evaluation of the individual at
/// position `index` of generation `generation`'s population, echoing the
/// parameters that were evaluated. Rows are uniquely keyed by
/// `(generation, index)` and are never rewritten once appended.
#[derive(Clone, Copy, Debug)]
pub struct GenerationRecord<P> {
    pub generation: u32,
    pub index: usize,
    pub fitness: i64,
    pub params: P,
}

/// The states of the convergence controller. The controller starts in
/// `Running` and moves to exactly one terminal state; checked in this fixed
/// order at the end of every generation: desired fitness reached, generation
/// cap reached, population collapsed after selection.
#[derive(Clone, Copy, Debug, PartialEq, Eq, Structural)]
pub enum ConvergenceState {
    Running,
    DesiredFitnessMet,
    GenerationCapReached,
    PopulationCollapsed,
}

/// A configuration the exploration rejects before running any simulation.
#[derive(Clone, Copy, Debug, PartialEq, Eq, Structural)]
pub enum ConfigurationError {
    /// The initial population holds no individual.
    EmptyInitialPopulation,
    /// Each evaluation must be allowed at least one simulation step.
    StepCountZero,
    /// The distributed strategy needs at least one rank.
    WorldSizeZero,
}

/// A caller-defined, parameterized simulation plus the caller's genetic
/// operators. The engine calls these and assumes nothing about the values
/// they produce; the operators are only bound to never grow the population.
/// Because these are exec methods without value contracts, nothing the
/// engine proves depends on what they compute — and implementations
/// compiled outside the verifier are not checked even against the
/// population bound, which is then their author's obligation.
pub trait Model: Sized {
    /// The caller's configuration record for one individual.
    type Params: Copy;

    /// Builds a fresh simulation instance from one configuration.
    fn new_with_parameters(params: &Self::Params) -> Self;

    /// Prepares the instance; called once before the first step.
    fn init(&mut self);

    /// Advances the simulation by one step.
    fn step(&mut self);

    /// Whether the simulation has reached an early-termination condition;
    /// checked after every step.
    fn end_condition(&self) -> bool;

    /// The caller's scoring function: the fitness of this terminal state,
    /// given how many steps the run took.
    fn fitness(&self, steps: u64) -> i64;

    /// Selection, applied to the evaluated population between generations.
    /// It may shrink the population, never grow it.
    fn selection(population: &mut Vec<Individual<Self::Params>>)
        ensures
            final(population)@.len() <= old(population)@.len(),
    ;

    /// Mutation, applied to each selected individual between generations.
    fn mutation(individual: &mut Individual<Self::Params>);

    /// Crossover, applied to the whole population between generations.
    /// It may shrink the population, never grow it.
    fn crossover(population: &mut Vec<Individual<Self::Params>>)
        ensures
            final(population)@.len() <= old(population)@.len(),
    ;
}

/// The simulation runner: builds a fresh instance for `params`, initializes
/// it, and drives it for at most `max_steps` steps, checking the end
/// condition after every step and stopping early when it fires. The instance
/// is exclusively owned by this run and returned with the number of steps
/// actually taken, so the caller's scoring function can read both.
pub fn run_simulation<M: Model>(params: &M::Params, max_steps: u64) -> (r: (M, u64))
    requires
        max_steps >= 1,
    ensures
        1 <= r.1 <= max_steps,
{
    let mut sim = M::new_with_parameters(params);
    sim.init();
    let mut steps: u64 = 0;
    while steps < max_steps
        invariant
            steps <= max_steps,
            max_steps >= 1,
        ensures
            1 <= steps <= max_steps,
        decreases max_steps - steps,
    {
        sim.step();
        steps = steps + 1;
        if sim.end_condition() {
            break ;
        }
    }
    (sim, steps)
}

/// The fitness evaluator: runs one individual's simulation to its terminal
/// state and applies the caller's scoring function to it. Safe to invoke
/// concurrently on independent individuals, since each call owns its
/// simulation instance exclusively.
pub fn evaluate_individual<M: Model>(params: &M::Params, max_steps: u64) -> (fitness: i64)
    requires
        max_steps >= 1,
{
    let r = run_simulation::<M>(params, max_steps);
    let (sim, steps) = r;
    sim.fitness(steps)
}

} // verus!
