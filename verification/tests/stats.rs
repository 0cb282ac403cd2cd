use precompress::algorithm::Algorithm;
use precompress::stats::{can_reduce, reduce, AlgStat, Outcome, Stats};

fn alg(time: u128, bytes: u64, saved: i64) -> AlgStat {
    AlgStat { total_time: time, total_bytes: bytes, saved_bytes: saved }
}

fn sample(seed: u64) -> Stats {
    Stats {
        num_files: seed,
        num_errors: seed * 2 + 1,
        brotli: alg(seed as u128 * 1000, seed * 3, seed as i64 * 5),
        deflate: alg(7, seed + 1, -(seed as i64) * 2),
        gzip: alg(seed as u128, 11, 13),
        zstd: alg(0, seed * seed, -1),
    }
}

#[test]
fn default_stats_are_zero() {
    let zero = Stats::default();
    assert_eq!(zero.num_files, 0);
    assert_eq!(zero.num_errors, 0);
    for algorithm in Algorithm::iter() {
        assert_eq!(zero.for_algorithm(algorithm), alg(0, 0, 0));
    }
    assert_eq!(AlgStat::default(), alg(0, 0, 0));
}

#[test]
fn for_algorithm_picks_the_field() {
    let stats = sample(4);
    assert_eq!(stats.for_algorithm(Algorithm::Brotli), stats.brotli);
    assert_eq!(stats.for_algorithm(Algorithm::Deflate), stats.deflate);
    assert_eq!(stats.for_algorithm(Algorithm::Gzip), stats.gzip);
    assert_eq!(stats.for_algorithm(Algorithm::Zstd), stats.zstd);
}

#[test]
fn alg_stat_add_is_pointwise() {
    assert_eq!(alg(5, 100, -20).add(alg(7, 50, 30)), alg(12, 150, 10));
}

#[test]
fn stats_add_is_pointwise() {
    let sum = sample(2).add(sample(5));
    assert_eq!(sum.num_files, 7);
    assert_eq!(sum.num_errors, 16);
    assert_eq!(sum.brotli, alg(7000, 21, 35));
    assert_eq!(sum.deflate, alg(14, 9, -14));
    assert_eq!(sum.gzip, alg(7, 22, 26));
    assert_eq!(sum.zstd, alg(0, 29, -2));
}

#[test]
fn zero_is_the_identity_of_add() {
    let stats = sample(9);
    assert_eq!(stats.add(Stats::default()), stats);
    assert_eq!(Stats::default().add(stats), stats);
}

#[test]
fn add_is_commutative_and_associative() {
    for a in 0..6 {
        for b in 0..6 {
            assert_eq!(sample(a).add(sample(b)), sample(b).add(sample(a)));
            for c in 0..6 {
                assert_eq!(
                    sample(a).add(sample(b)).add(sample(c)),
                    sample(a).add(sample(b).add(sample(c)))
                );
            }
        }
    }
}

#[test]
fn can_add_tells_of_overflow() {
    let mut big = Stats::default();
    big.num_files = u64::MAX;
    assert!(big.can_add(&Stats::default()));
    assert!(!big.can_add(&sample(1)));
    assert!(alg(u128::MAX, 0, 0).can_add(&alg(0, 5, 5)));
    assert!(!alg(u128::MAX, 0, 0).can_add(&alg(1, 0, 0)));
    assert!(!alg(0, u64::MAX, 0).can_add(&alg(0, 1, 0)));
    assert!(!alg(0, 0, i64::MAX).can_add(&alg(0, 0, 1)));
    assert!(!alg(0, 0, i64::MIN).can_add(&alg(0, 0, -1)));
    assert!(alg(0, 0, i64::MIN).can_add(&alg(0, 0, i64::MAX)));
}

#[test]
fn record_counts_a_written_file_for_its_algorithm() {
    let mut stats = Stats::default();
    stats.record(Algorithm::Gzip, Outcome::Done { elapsed: 1500, source_size: 2000, written: 700 });
    assert_eq!(stats.num_files, 1);
    assert_eq!(stats.num_errors, 0);
    assert_eq!(stats.gzip, alg(1500, 700, 1300));
    assert_eq!(stats.brotli, alg(0, 0, 0));
    stats.record(Algorithm::Gzip, Outcome::Done { elapsed: 500, source_size: 10, written: 30 });
    assert_eq!(stats.num_files, 2);
    assert_eq!(stats.gzip, alg(2000, 730, 1280));
}

#[test]
fn saved_bytes_go_negative_for_incompressible_input() {
    let mut stats = Stats::default();
    stats.record(Algorithm::Zstd, Outcome::Done { elapsed: 1, source_size: 0, written: 9 });
    assert_eq!(stats.zstd, alg(1, 9, -9));
}

#[test]
fn record_counts_a_failure_as_an_error_only() {
    let mut stats = sample(3);
    let before = stats;
    stats.record(Algorithm::Brotli, Outcome::Failed);
    assert_eq!(stats.num_errors, before.num_errors + 1);
    assert_eq!(stats.num_files, before.num_files);
    assert_eq!(stats.brotli, before.brotli);
}

#[test]
fn record_leaves_a_skipped_job_out() {
    let mut stats = sample(3);
    stats.record(Algorithm::Deflate, Outcome::Skipped);
    assert_eq!(stats, sample(3));
}

#[test]
fn can_record_tells_of_overflow() {
    let mut stats = Stats::default();
    let done = Outcome::Done { elapsed: 1, source_size: 10, written: 5 };
    assert!(stats.can_record(Algorithm::Gzip, done));
    stats.num_files = u64::MAX;
    assert!(!stats.can_record(Algorithm::Gzip, done));
    assert!(stats.can_record(Algorithm::Gzip, Outcome::Failed));
    assert!(stats.can_record(Algorithm::Gzip, Outcome::Skipped));
    stats.num_errors = u64::MAX;
    assert!(!stats.can_record(Algorithm::Gzip, Outcome::Failed));
    let mut stats = Stats::default();
    stats.gzip.saved_bytes = i64::MAX;
    assert!(!stats.can_record(Algorithm::Gzip, done));
    assert!(stats.can_record(Algorithm::Brotli, done));
    assert!(stats.can_record(
        Algorithm::Gzip,
        Outcome::Done { elapsed: 1, source_size: 0, written: u64::MAX }
    ));
    stats.gzip.saved_bytes = 0;
    assert!(!stats.can_record(
        Algorithm::Gzip,
        Outcome::Done { elapsed: 1, source_size: u64::MAX, written: 0 }
    ));
}

#[test]
fn reduce_sums_from_zero() {
    assert_eq!(reduce(&vec![]), Stats::default());
    assert_eq!(reduce(&vec![sample(4)]), sample(4));
    assert_eq!(reduce(&vec![sample(1), sample(2), sample(3)]), sample(1).add(sample(2)).add(sample(3)));
}

#[test]
fn reduce_gives_the_same_in_any_order() {
    let parts = vec![sample(1), sample(8), sample(3), sample(0)];
    let expected = reduce(&parts);
    let orders = [[3usize, 2, 1, 0], [1, 0, 3, 2], [2, 3, 0, 1], [0, 2, 1, 3]];
    for order in orders {
        let shuffled: Vec<Stats> = order.iter().map(|i| parts[*i]).collect();
        assert_eq!(reduce(&shuffled), expected);
    }
}

#[test]
fn can_reduce_tells_of_overflow_on_the_way() {
    let mut big = Stats::default();
    big.gzip.saved_bytes = i64::MAX;
    let mut one = Stats::default();
    one.gzip.saved_bytes = 1;
    let mut minus = Stats::default();
    minus.gzip.saved_bytes = -1;
    assert!(can_reduce(&vec![]));
    assert!(can_reduce(&vec![big, minus, one]));
    assert!(!can_reduce(&vec![big, one, minus]));
}

fn jobs() -> Vec<(Algorithm, Outcome)> {
    let mut jobs = Vec::new();
    for i in 0..40u64 {
        let algorithm = Algorithm::iter()[(i % 4) as usize];
        let outcome = if i % 7 == 0 {
            Outcome::Failed
        } else {
            Outcome::Done { elapsed: i as u128 * 10, source_size: 1000 + i, written: 300 + 40 * i }
        };
        jobs.push((algorithm, outcome));
    }
    jobs
}

fn run_pool(workers: usize, jobs: &[(Algorithm, Outcome)]) -> Stats {
    let mut stats = vec![Stats::default(); workers];
    for (i, (algorithm, outcome)) in jobs.iter().enumerate() {
        stats[(i * 31 + 7) % workers].record(*algorithm, *outcome);
    }
    reduce(&stats)
}

#[test]
fn the_number_of_workers_does_not_change_the_totals() {
    let jobs = jobs();
    let one = run_pool(1, &jobs);
    assert_eq!(one.num_files + one.num_errors, 40);
    assert_eq!(one.num_errors, 6);
    for workers in [2, 3, 8, 40, 64] {
        assert_eq!(run_pool(workers, &jobs), one, "{} workers", workers);
    }
}

#[test]
fn the_order_of_jobs_does_not_change_the_totals() {
    let jobs = jobs();
    let mut reversed = jobs.clone();
    reversed.reverse();
    assert_eq!(run_pool(1, &reversed), run_pool(1, &jobs));
    assert_eq!(run_pool(5, &reversed), run_pool(8, &jobs));
}
