//! Run statistics: per-codec accumulators, their sums, and the tally of job outcomes.
//!
//! Contracts speak of the accumulators through their views, which hold
//! unbounded numbers. Sums of views form a commutative monoid.

use vstd::prelude::*;
use crate::algorithm::Algorithm;

verus! {

/// What one codec has achieved: time spent in nanoseconds, compressed bytes
/// written, and bytes saved against the sources (negative where the output
/// came out larger).
#[derive(Debug, Clone, Copy, PartialEq, Eq, Structural)]
pub struct AlgStat {
    pub total_time: u128,
    pub total_bytes: u64,
    pub saved_bytes: i64,
}

/// An `AlgStat` in unbounded numbers.
pub struct AlgTotals {
    pub time: nat,
    pub bytes: nat,
    pub saved: int,
}

impl AlgTotals {
    /// The accumulator that holds nothing.
    pub open spec fn zero() -> AlgTotals {
        AlgTotals { time: 0, bytes: 0, saved: 0 }
    }

    /// The pointwise sum.
    pub open spec fn plus(self, other: AlgTotals) -> AlgTotals {
        AlgTotals {
            time: self.time + other.time,
            bytes: self.bytes + other.bytes,
            saved: self.saved + other.saved,
        }
    }

    /// The accumulator after one more file, compressed from `source_size`
    /// bytes to `written` bytes in `elapsed` nanoseconds.
    pub open spec fn with_file(self, elapsed: nat, source_size: nat, written: nat) -> AlgTotals {
        AlgTotals {
            time: self.time + elapsed,
            bytes: self.bytes + written,
            saved: self.saved + (source_size - written),
        }
    }

    /// Whether every number fits the machine field that holds it.
    pub open spec fn fits(self) -> bool {
        &&& self.time <= u128::MAX
        &&& self.bytes <= u64::MAX
        &&& i64::MIN <= self.saved <= i64::MAX
    }
}

impl View for AlgStat {
    type V = AlgTotals;

    open spec fn view(&self) -> AlgTotals {
        AlgTotals {
            time: self.total_time as nat,
            bytes: self.total_bytes as nat,
            saved: self.saved_bytes as int,
        }
    }
}

impl AlgStat {
    /// Tells whether the sum with `rhs` fits.
    pub fn can_add(&self, rhs: &AlgStat) -> (out: bool)
        ensures
            out == self@.plus(rhs@).fits(),
    {
        self.total_time.checked_add(rhs.total_time).is_some() && self.total_bytes.checked_add(
            rhs.total_bytes,
        ).is_some() && self.saved_bytes.checked_add(rhs.saved_bytes).is_some()
    }

    /// Returns the pointwise sum with `rhs`.
    pub fn add(self, rhs: AlgStat) -> (out: AlgStat)
        requires
            self@.plus(rhs@).fits(),
        ensures
            out@ == self@.plus(rhs@),
    {
        AlgStat {
            total_time: self.total_time + rhs.total_time,
            total_bytes: self.total_bytes + rhs.total_bytes,
            saved_bytes: self.saved_bytes + rhs.saved_bytes,
        }
    }

    /// Tells whether one more file fits.
    pub fn can_count(&self, elapsed: u128, source_size: u64, written: u64) -> (out: bool)
        ensures
            out == self@.with_file(elapsed as nat, source_size as nat, written as nat).fits(),
    {
        let saved: i128 = self.saved_bytes as i128 + (source_size as i128 - written as i128);
        self.total_time.checked_add(elapsed).is_some() && self.total_bytes.checked_add(
            written,
        ).is_some() && -0x8000_0000_0000_0000i128 <= saved && saved <= 0x7fff_ffff_ffff_ffffi128
    }

    /// Counts one more file, compressed from `source_size` bytes to
    /// `written` bytes in `elapsed` nanoseconds.
    pub fn count(&mut self, elapsed: u128, source_size: u64, written: u64)
        requires
            old(self)@.with_file(elapsed as nat, source_size as nat, written as nat).fits(),
        ensures
            final(self)@ == old(self)@.with_file(
                elapsed as nat,
                source_size as nat,
                written as nat,
            ),
    {
        let saved: i128 = self.saved_bytes as i128 + (source_size as i128 - written as i128);
        self.total_time = self.total_time + elapsed;
        self.total_bytes = self.total_bytes + written;
        self.saved_bytes = saved as i64;
    }
}

impl Default for AlgStat {
    /// The accumulator that holds nothing.
    fn default() -> (out: AlgStat)
        ensures
            out@ == AlgTotals::zero(),
    {
        AlgStat { total_time: 0, total_bytes: 0, saved_bytes: 0 }
    }
}

/// How a job ended.
#[derive(Debug, Clone, Copy, PartialEq, Eq, Structural)]
pub enum Outcome {
    /// Reading, writing or the codec failed.
    Failed,
    /// No destination could be derived; nothing was done.
    Skipped,
    /// The sibling was written: `source_size` bytes became `written` bytes
    /// in `elapsed` nanoseconds.
    Done { elapsed: u128, source_size: u64, written: u64 },
}

/// The statistics of a worker or of a run.
#[derive(Debug, Clone, Copy, PartialEq, Eq, Structural)]
pub struct Stats {
    pub num_files: u64,
    pub num_errors: u64,
    pub brotli: AlgStat,
    pub deflate: AlgStat,
    pub gzip: AlgStat,
    pub zstd: AlgStat,
}

/// A `Stats` in unbounded numbers.
pub struct Totals {
    pub files: nat,
    pub errors: nat,
    pub brotli: AlgTotals,
    pub deflate: AlgTotals,
    pub gzip: AlgTotals,
    pub zstd: AlgTotals,
}

impl Totals {
    /// The statistics of a run in which nothing happened.
    pub open spec fn zero() -> Totals {
        Totals {
            files: 0,
            errors: 0,
            brotli: AlgTotals::zero(),
            deflate: AlgTotals::zero(),
            gzip: AlgTotals::zero(),
            zstd: AlgTotals::zero(),
        }
    }

    /// The pointwise sum.
    pub open spec fn plus(self, other: Totals) -> Totals {
        Totals {
            files: self.files + other.files,
            errors: self.errors + other.errors,
            brotli: self.brotli.plus(other.brotli),
            deflate: self.deflate.plus(other.deflate),
            gzip: self.gzip.plus(other.gzip),
            zstd: self.zstd.plus(other.zstd),
        }
    }

    /// The accumulator of `algorithm`.
    pub open spec fn of(self, algorithm: Algorithm) -> AlgTotals {
        match algorithm {
            Algorithm::Brotli => self.brotli,
            Algorithm::Deflate => self.deflate,
            Algorithm::Gzip => self.gzip,
            Algorithm::Zstd => self.zstd,
        }
    }

    /// The same statistics with the accumulator of `algorithm` replaced.
    pub open spec fn with(self, algorithm: Algorithm, value: AlgTotals) -> Totals {
        match algorithm {
            Algorithm::Brotli => Totals { brotli: value, ..self },
            Algorithm::Deflate => Totals { deflate: value, ..self },
            Algorithm::Gzip => Totals { gzip: value, ..self },
            Algorithm::Zstd => Totals { zstd: value, ..self },
        }
    }

    /// The statistics after a job of `algorithm` that ended in `outcome`: a
    /// failure counts as an error, a written sibling as a file of its
    /// codec, and a skipped job counts for nothing.
    pub open spec fn after(self, algorithm: Algorithm, outcome: Outcome) -> Totals {
        match outcome {
            Outcome::Failed => Totals { errors: self.errors + 1, ..self },
            Outcome::Skipped => self,
            Outcome::Done { elapsed, source_size, written } => Totals {
                files: self.files + 1,
                ..self.with(
                    algorithm,
                    self.of(algorithm).with_file(
                        elapsed as nat,
                        source_size as nat,
                        written as nat,
                    ),
                )
            },
        }
    }

    /// Whether every number fits the machine field that holds it.
    pub open spec fn fits(self) -> bool {
        &&& self.files <= u64::MAX
        &&& self.errors <= u64::MAX
        &&& self.brotli.fits()
        &&& self.deflate.fits()
        &&& self.gzip.fits()
        &&& self.zstd.fits()
    }
}

impl View for Stats {
    type V = Totals;

    open spec fn view(&self) -> Totals {
        Totals {
            files: self.num_files as nat,
            errors: self.num_errors as nat,
            brotli: self.brotli@,
            deflate: self.deflate@,
            gzip: self.gzip@,
            zstd: self.zstd@,
        }
    }
}

impl Stats {
    /// Returns the accumulator of `alg`.
    pub fn for_algorithm(&self, alg: Algorithm) -> (out: AlgStat)
        ensures
            out@ == self@.of(alg),
            out == match alg {
                Algorithm::Brotli => self.brotli,
                Algorithm::Deflate => self.deflate,
                Algorithm::Gzip => self.gzip,
                Algorithm::Zstd => self.zstd,
            },
    {
        match alg {
            Algorithm::Brotli => self.brotli,
            Algorithm::Deflate => self.deflate,
            Algorithm::Gzip => self.gzip,
            Algorithm::Zstd => self.zstd,
        }
    }

    /// Tells whether the sum with `rhs` fits.
    pub fn can_add(&self, rhs: &Stats) -> (out: bool)
        ensures
            out == self@.plus(rhs@).fits(),
    {
        self.num_files.checked_add(rhs.num_files).is_some() && self.num_errors.checked_add(
            rhs.num_errors,
        ).is_some() && self.brotli.can_add(&rhs.brotli) && self.deflate.can_add(&rhs.deflate)
            && self.gzip.can_add(&rhs.gzip) && self.zstd.can_add(&rhs.zstd)
    }

    /// Returns the pointwise sum with `rhs`.
    pub fn add(self, rhs: Stats) -> (out: Stats)
        requires
            self@.plus(rhs@).fits(),
        ensures
            out@ == self@.plus(rhs@),
    {
        Stats {
            num_files: self.num_files + rhs.num_files,
            num_errors: self.num_errors + rhs.num_errors,
            brotli: self.brotli.add(rhs.brotli),
            deflate: self.deflate.add(rhs.deflate),
            gzip: self.gzip.add(rhs.gzip),
            zstd: self.zstd.add(rhs.zstd),
        }
    }

    /// Tells whether a job of `algorithm` that ended in `outcome` fits.
    pub fn can_record(&self, algorithm: Algorithm, outcome: Outcome) -> (out: bool)
        ensures
            out == self@.after(algorithm, outcome).fits(),
    {
        match outcome {
            Outcome::Failed => self.num_errors < u64::MAX,
            Outcome::Skipped => true,
            Outcome::Done { elapsed, source_size, written } => self.num_files < u64::MAX
                && self.for_algorithm(algorithm).can_count(elapsed, source_size, written),
        }
    }

    /// Records a job of `algorithm` that ended in `outcome`.
    pub fn record(&mut self, algorithm: Algorithm, outcome: Outcome)
        requires
            old(self)@.after(algorithm, outcome).fits(),
        ensures
            final(self)@ == old(self)@.after(algorithm, outcome),
    {
        match outcome {
            Outcome::Failed => {
                self.num_errors = self.num_errors + 1;
            },
            Outcome::Skipped => {},
            Outcome::Done { elapsed, source_size, written } => {
                match algorithm {
                    Algorithm::Brotli => self.brotli.count(elapsed, source_size, written),
                    Algorithm::Deflate => self.deflate.count(elapsed, source_size, written),
                    Algorithm::Gzip => self.gzip.count(elapsed, source_size, written),
                    Algorithm::Zstd => self.zstd.count(elapsed, source_size, written),
                }
                self.num_files = self.num_files + 1;
            },
        }
    }
}

impl Default for Stats {
    /// The statistics of a run in which nothing happened.
    fn default() -> (out: Stats)
        ensures
            out@ == Totals::zero(),
    {
        Stats {
            num_files: 0,
            num_errors: 0,
            brotli: AlgStat::default(),
            deflate: AlgStat::default(),
            gzip: AlgStat::default(),
            zstd: AlgStat::default(),
        }
    }
}

/// A job as the tally sees it: its codec and how it ended.
pub type Job = (Algorithm, Outcome);

/// The step of a sum: the statistics so far plus one more part.
pub open spec fn sum_step() -> spec_fn(Totals, Totals) -> Totals {
    |acc: Totals, part: Totals| acc.plus(part)
}

/// The step of a tally: the statistics so far after one more job.
pub open spec fn tally_step() -> spec_fn(Totals, Job) -> Totals {
    |acc: Totals, job: Job| acc.after(job.0, job.1)
}

/// The sum of `parts`, from zero.
pub open spec fn total_of(parts: Seq<Totals>) -> Totals {
    parts.fold_left(Totals::zero(), sum_step())
}

/// The statistics of a worker that has handled `jobs` in order, from zero.
pub open spec fn tally(jobs: Seq<Job>) -> Totals {
    jobs.fold_left(Totals::zero(), tally_step())
}

/// The views of `parts`.
pub open spec fn views(parts: Seq<Stats>) -> Seq<Totals> {
    Seq::new(parts.len(), |i: int| parts[i]@)
}

/// Whether the sum of `parts` fits at every step of adding them up in order.
pub open spec fn summable(parts: Seq<Totals>) -> bool {
    forall|k: int| 0 <= k <= parts.len() ==> (#[trigger] total_of(parts.take(k))).fits()
}

/// The number of jobs of `jobs` that ended in a failure.
pub open spec fn failures(jobs: Seq<Job>) -> nat {
    jobs.filter(|job: Job| job.1 is Failed).len()
}

/// The number of jobs of `jobs` that were skipped.
pub open spec fn skips(jobs: Seq<Job>) -> nat {
    jobs.filter(|job: Job| job.1 is Skipped).len()
}

/// The number of jobs of `jobs` that wrote their sibling.
pub open spec fn successes(jobs: Seq<Job>) -> nat {
    jobs.filter(|job: Job| job.1 is Done).len()
}

/// Sums are commutative.
pub proof fn lemma_plus_commutative(a: Totals, b: Totals)
    ensures
        a.plus(b) == b.plus(a),
{
}

/// Sums are associative.
pub proof fn lemma_plus_associative(a: Totals, b: Totals, c: Totals)
    ensures
        a.plus(b).plus(c) == a.plus(b.plus(c)),
{
}

/// Zero is the identity of sums.
pub proof fn lemma_plus_zero(a: Totals)
    ensures
        a.plus(Totals::zero()) == a,
        Totals::zero().plus(a) == a,
{
}

/// Sums of single codecs are commutative and associative, with zero as identity.
pub proof fn lemma_alg_plus_monoid(a: AlgTotals, b: AlgTotals, c: AlgTotals)
    ensures
        a.plus(b) == b.plus(a),
        a.plus(b).plus(c) == a.plus(b.plus(c)),
        a.plus(AlgTotals::zero()) == a,
        AlgTotals::zero().plus(a) == a,
{
}

/// Recording a job adds the statistics of that job alone.
pub proof fn lemma_after_is_plus(acc: Totals, algorithm: Algorithm, outcome: Outcome)
    ensures
        acc.after(algorithm, outcome) == acc.plus(Totals::zero().after(algorithm, outcome)),
{
}

/// The sum of two lists put end to end is the sum of their sums.
pub proof fn lemma_total_concat(a: Seq<Totals>, b: Seq<Totals>)
    ensures
        total_of(a + b) == total_of(a).plus(total_of(b)),
    decreases b.len(),
{
    if b.len() != 0 {
        assert((a + b).drop_last() =~= a + b.drop_last());
        lemma_total_concat(a, b.drop_last());
    }
}

/// The tally of two job lists put end to end is the sum of their tallies.
pub proof fn lemma_tally_concat(a: Seq<Job>, b: Seq<Job>)
    ensures
        tally(a + b) == tally(a).plus(tally(b)),
    decreases b.len(),
{
    if b.len() != 0 {
        assert((a + b).drop_last() =~= a + b.drop_last());
        lemma_tally_concat(a, b.drop_last());
        lemma_after_is_plus(tally(a + b.drop_last()), b.last().0, b.last().1);
        lemma_after_is_plus(tally(b.drop_last()), b.last().0, b.last().1);
    }
}

/// Parts summed in any order give the same statistics.
pub proof fn lemma_total_any_order(a: Seq<Totals>, b: Seq<Totals>)
    requires
        a.to_multiset() == b.to_multiset(),
    ensures
        total_of(a) == total_of(b),
{
    vstd::seq_lib::lemma_fold_left_permutation(a, b, sum_step(), Totals::zero());
}

/// Jobs handled in any order give the same statistics.
pub proof fn lemma_tally_any_order(a: Seq<Job>, b: Seq<Job>)
    requires
        a.to_multiset() == b.to_multiset(),
    ensures
        tally(a) == tally(b),
{
    vstd::seq_lib::lemma_fold_left_permutation(a, b, tally_step(), Totals::zero());
}

/// The tallies of the workers of a pool, one job list per worker.
pub open spec fn tallies(assignment: Seq<Seq<Job>>) -> Seq<Totals> {
    Seq::new(assignment.len(), |i: int| tally(assignment[i]))
}

/// The sum of the workers' tallies is the tally of all their jobs, worker after worker.
pub proof fn lemma_tallies_sum(assignment: Seq<Seq<Job>>)
    ensures
        total_of(tallies(assignment)) == tally(assignment.flatten()),
    decreases assignment.len(),
{
    if assignment.len() != 0 {
        let front = assignment.drop_last();
        lemma_tallies_sum(front);
        assert(tallies(assignment).drop_last() =~= tallies(front));
        assert(assignment =~= front.push(assignment.last()));
        front.lemma_flatten_push(assignment.last());
        lemma_tally_concat(front.flatten(), assignment.last());
    }
}

/// However the jobs of a run are dealt out to the workers of a pool, with
/// any number of workers and each worker taking its jobs in any order, the
/// sum of the workers' statistics is the tally of the jobs.
pub proof fn lemma_pool_size_is_irrelevant(jobs: Seq<Job>, assignment: Seq<Seq<Job>>)
    requires
        assignment.flatten().to_multiset() == jobs.to_multiset(),
    ensures
        total_of(tallies(assignment)) == tally(jobs),
{
    lemma_tallies_sum(assignment);
    lemma_tally_any_order(assignment.flatten(), jobs);
}

/// The files of a tally are the jobs that wrote their sibling and its
/// errors are the jobs that failed; with the skipped jobs they are all jobs.
pub proof fn lemma_tally_counts(jobs: Seq<Job>)
    ensures
        tally(jobs).files == successes(jobs),
        tally(jobs).errors == failures(jobs),
        successes(jobs) + failures(jobs) + skips(jobs) == jobs.len(),
        skips(jobs) == 0 ==> tally(jobs).files == jobs.len() - tally(jobs).errors,
    decreases jobs.len(),
{
    reveal(Seq::filter);
    if jobs.len() > 0 {
        lemma_tally_counts(jobs.drop_last());
    }
}

/// Tells whether the statistics of `parts` can be summed in order without
/// any number leaving its field.
pub fn can_reduce(parts: &Vec<Stats>) -> (out: bool)
    ensures
        out == summable(views(parts@)),
{
    let ghost all = views(parts@);
    let mut sum = Stats::default();
    let mut i: usize = 0;
    while i < parts.len()
        invariant
            i <= parts.len(),
            all == views(parts@),
            sum@ == total_of(all.take(i as int)),
            forall|k: int| 0 <= k <= i ==> (#[trigger] total_of(all.take(k))).fits(),
        decreases parts.len() - i,
    {
        assert(all.take(i + 1).drop_last() =~= all.take(i as int));
        if !sum.can_add(&parts[i]) {
            assert(!total_of(all.take(i + 1)).fits());
            return false;
        }
        sum = sum.add(parts[i]);
        i = i + 1;
    }
    true
}

/// Sums the statistics of the workers of a pool, in order, from zero.
pub fn reduce(parts: &Vec<Stats>) -> (out: Stats)
    requires
        summable(views(parts@)),
    ensures
        out@ == total_of(views(parts@)),
{
    let ghost all = views(parts@);
    let mut sum = Stats::default();
    let mut i: usize = 0;
    while i < parts.len()
        invariant
            i <= parts.len(),
            all == views(parts@),
            summable(all),
            sum@ == total_of(all.take(i as int)),
        decreases parts.len() - i,
    {
        assert(all.take(i + 1).drop_last() =~= all.take(i as int));
        assert(total_of(all.take(i + 1)).fits());
        sum = sum.add(parts[i]);
        i = i + 1;
    }
    sum
}

} // verus!
