use rust_ab::explore::genetic::{explore_ga_distributed_mpi, gather_batches};
use rust_ab::explore::model::{GenerationRecord, Individual, Model};
use rust_ab::explore::partition::{partition_counts, partition_offsets};

/// A model whose fitness is its single integer parameter; its simulation
/// ends after one step and the genetic operators do nothing.
struct Flat {
    value: i64,
}

impl Model for Flat {
    type Params = i64;

    fn new_with_parameters(p: &i64) -> Flat {
        Flat { value: *p }
    }

    fn init(&mut self) {}

    fn step(&mut self) {}

    fn end_condition(&self) -> bool {
        true
    }

    fn fitness(&self, _steps: u64) -> i64 {
        self.value
    }

    fn selection(_population: &mut Vec<Individual<i64>>) {}

    fn mutation(_individual: &mut Individual<i64>) {}

    fn crossover(_population: &mut Vec<Individual<i64>>) {}
}

#[test]
fn seven_individuals_over_three_ranks() {
    // Population of 7 split over 3 ranks: chunks {3,2,2} with the largest
    // first, offsets {0,3,5}.
    assert_eq!(partition_counts(7, 3), vec![3, 2, 2]);
    assert_eq!(partition_offsets(7, 3), vec![0, 3, 5]);
}

#[test]
fn chunk_sizes_are_balanced_and_cover_everything() {
    for n in 0..40usize {
        for w in 1..10usize {
            let counts = partition_counts(n, w);
            let offsets = partition_offsets(n, w);
            assert_eq!(counts.len(), w);
            assert_eq!(offsets.len(), w);
            assert_eq!(counts.iter().sum::<usize>(), n);
            let lo = counts.iter().min().unwrap();
            let hi = counts.iter().max().unwrap();
            assert!(hi - lo <= 1);
            assert_eq!(offsets[0], 0);
            for r in 0..w - 1 {
                assert_eq!(offsets[r + 1], offsets[r] + counts[r]);
            }
            assert_eq!(offsets[w - 1] + counts[w - 1], n);
        }
    }
}

#[test]
fn gathered_batch_spans_every_index_once() {
    // Distributed run over 7 individuals and 3 ranks: the gathered batch of
    // the first generation holds exactly 7 records spanning indices 0..=6
    // with no duplicates.
    let pop: Vec<Individual<i64>> = (0..7).map(|k| Individual::new(10 * k)).collect();
    let out = explore_ga_distributed_mpi::<Flat>(pop, 1000, 1, 1, 3).unwrap();
    assert_eq!(out.batches.len(), 1);
    let batch = &out.batches[0];
    assert_eq!(batch.len(), 7);
    let mut seen = [false; 7];
    for rec in batch {
        assert!(!seen[rec.index]);
        seen[rec.index] = true;
        assert_eq!(rec.generation, 1);
        assert_eq!(rec.fitness, 10 * rec.index as i64);
        assert_eq!(rec.params, 10 * rec.index as i64);
    }
    assert!(seen.iter().all(|s| *s));
}

#[test]
fn gather_rebases_chunk_local_indices() {
    let part0: Vec<GenerationRecord<i64>> = vec![
        GenerationRecord { generation: 2, index: 0, fitness: 5, params: 50 },
        GenerationRecord { generation: 2, index: 1, fitness: 6, params: 60 },
    ];
    let part1: Vec<GenerationRecord<i64>> = vec![
        GenerationRecord { generation: 2, index: 0, fitness: 7, params: 70 },
    ];
    let merged = gather_batches(&vec![part0, part1]);
    assert_eq!(merged.len(), 3);
    let expect = [(0usize, 5i64, 50i64), (1, 6, 60), (2, 7, 70)];
    for (rec, (idx, fit, par)) in merged.iter().zip(expect.iter()) {
        assert_eq!(rec.index, *idx);
        assert_eq!(rec.fitness, *fit);
        assert_eq!(rec.params, *par);
        assert_eq!(rec.generation, 2);
    }
}
