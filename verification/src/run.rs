//! A run as a whole: from the entries of a walk to the statistics of the pool.

use vstd::prelude::*;
use crate::algorithm::Algorithm;
use crate::dispatch::{Compressor, FileEntry};
use crate::path::sibling;
use crate::stats::{
    failures, lemma_pool_size_is_irrelevant, lemma_tally_counts, reduce, skips, summable, tallies,
    tally, total_of, views, Job, Outcome, Stats, Totals,
};

verus! {

/// How the jobs `jobs` end when the work on the `i`-th of them ends in
/// `results[i]`: a job without a sibling path is skipped before any work.
pub open spec fn handled(jobs: Seq<(Algorithm, Seq<char>)>, results: Seq<Outcome>) -> Seq<Job> {
    Seq::new(
        jobs.len(),
        |i: int|
            (
                jobs[i].0,
                if sibling(jobs[i].1, jobs[i].0) is Some {
                    results[i]
                } else {
                    Outcome::Skipped
                },
            ),
    )
}

/// Every job that the dispatcher emits has a sibling path to write to.
pub proof fn lemma_jobs_have_siblings(c: &Compressor, entries: Seq<FileEntry>)
    ensures
        forall|i: int|
            0 <= i < c.jobs_of(entries).len() ==> sibling(
                (#[trigger] c.jobs_of(entries)[i]).1,
                c.jobs_of(entries)[i].0,
            ) is Some,
    decreases entries.len(),
{
    if entries.len() > 0 {
        let last = &entries.last();
        lemma_jobs_have_siblings(c, entries.drop_last());
        if c.eligible(last) {
            c.lemma_eligible_jobs(last);
        }
    }
}

/// Jobs of which none was skipped count no skip.
pub proof fn lemma_no_skips(jobs: Seq<Job>)
    requires
        forall|i: int| 0 <= i < jobs.len() ==> (#[trigger] jobs[i]).1 !is Skipped,
    ensures
        skips(jobs) == 0,
    decreases jobs.len(),
{
    reveal(Seq::filter);
    if jobs.len() > 0 {
        lemma_no_skips(jobs.drop_last());
    }
}

/// The statistics of a run. Whatever the entries of the walk, however the
/// work on each job ends, and however the jobs are dealt out to the workers
/// of the pool: the summed statistics are the tally of the jobs, the errors
/// are the failed jobs, and files and errors together are the jobs
/// dispatched, one per eligible file and enabled codec.
pub proof fn lemma_run_totals(
    c: &Compressor,
    entries: Seq<FileEntry>,
    results: Seq<Outcome>,
    assignment: Seq<Seq<Job>>,
)
    requires
        results.len() == c.jobs_of(entries).len(),
        forall|i: int| 0 <= i < results.len() ==> (#[trigger] results[i]) !is Skipped,
        assignment.flatten().to_multiset() == handled(c.jobs_of(entries), results).to_multiset(),
    ensures
        total_of(tallies(assignment)) == tally(handled(c.jobs_of(entries), results)),
        total_of(tallies(assignment)).errors == failures(handled(c.jobs_of(entries), results)),
        total_of(tallies(assignment)).files + total_of(tallies(assignment)).errors
            == c.eligible_count(entries) * c.algorithms.count(),
        total_of(tallies(assignment)).files == c.jobs_of(entries).len() - total_of(
            tallies(assignment),
        ).errors,
{
    let jobs = handled(c.jobs_of(entries), results);
    lemma_pool_size_is_irrelevant(jobs, assignment);
    lemma_jobs_have_siblings(c, entries);
    lemma_no_skips(jobs);
    lemma_tally_counts(jobs);
    c.lemma_job_count(entries);
}

/// Every eligible entry of a walk gets a job for every enabled codec, and
/// that job has a sibling path to write to.
pub proof fn lemma_every_pair_gets_a_job(
    c: &Compressor,
    entries: Seq<FileEntry>,
    i: int,
    algorithm: Algorithm,
)
    requires
        0 <= i < entries.len(),
        c.eligible(&entries[i]),
        c.algorithms.enabled(algorithm),
    ensures
        c.jobs_of(entries).contains((algorithm, entries[i].path@)),
        sibling(entries[i].path@, algorithm) is Some,
    decreases entries.len(),
{
    let job = (algorithm, entries[i].path@);
    let front = c.jobs_of(entries.drop_last());
    let last = c.jobs_for(&entries.last());
    c.lemma_eligible_jobs(&entries[i]);
    if i == entries.len() - 1 {
        let k = choose|k: int| 0 <= k < last.len() && last[k] == job;
        assert(c.jobs_of(entries)[front.len() + k] == job);
    } else {
        lemma_every_pair_gets_a_job(c, entries.drop_last(), i, algorithm);
        let k = choose|k: int| 0 <= k < front.len() && front[k] == job;
        assert(c.jobs_of(entries)[k] == job);
    }
}

/// Every job of a walk is the job of an eligible entry and an enabled
/// codec: nothing is dispatched for a file below the least size or for a
/// path whose extension is not on the allow-list.
pub proof fn lemma_every_job_has_a_pair(c: &Compressor, entries: Seq<FileEntry>, j: int)
    requires
        0 <= j < c.jobs_of(entries).len(),
    ensures
        c.algorithms.enabled(c.jobs_of(entries)[j].0),
        exists|i: int|
            0 <= i < entries.len() && c.eligible(&#[trigger] entries[i]) && entries[i].path@
                == c.jobs_of(entries)[j].1,
    decreases entries.len(),
{
    let front = c.jobs_of(entries.drop_last());
    if j < front.len() {
        lemma_every_job_has_a_pair(c, entries.drop_last(), j);
        let i = choose|i: int|
            0 <= i < entries.drop_last().len() && c.eligible(
                &#[trigger] entries.drop_last()[i],
            ) && entries.drop_last()[i].path@ == front[j].1;
        assert(entries[i] == entries.drop_last()[i]);
    } else {
        c.lemma_eligible_jobs(&entries.last());
        assert(c.jobs_of(entries)[j] == c.jobs_for(&entries.last())[j - front.len()]);
        assert(c.eligible(&entries[entries.len() - 1]));
    }
}

/// An entry that is not eligible leaves the jobs of a walk as they are
/// without it: a file below the least size, or one whose extension is not on
/// the allow-list, adds no job and so nothing to any statistics.
pub proof fn lemma_ineligible_entry_adds_nothing(c: &Compressor, entries: Seq<FileEntry>, i: int)
    requires
        0 <= i < entries.len(),
        !c.eligible(&entries[i]),
    ensures
        c.jobs_of(entries) == c.jobs_of(entries.remove(i)),
        c.eligible_count(entries) == c.eligible_count(entries.remove(i)),
    decreases entries.len(),
{
    let front = entries.drop_last();
    if i == entries.len() - 1 {
        assert(entries.remove(i) =~= front);
        assert(c.jobs_of(entries) =~= c.jobs_of(front));
    } else {
        lemma_ineligible_entry_adds_nothing(c, front, i);
        assert(entries.remove(i).drop_last() =~= front.remove(i));
        assert(entries.remove(i).last() == entries.last());
    }
}

impl Compressor {
    /// Whether `parts` are the statistics that the workers of a pool hand
    /// back after a run over `entries`: the work on the `i`-th job ended in
    /// `results[i]`, never skipped once begun; every job went to exactly one
    /// worker, `assignment` telling which and in what order; and each part
    /// is the tally of one worker.
    pub open spec fn ran(
        &self,
        entries: Seq<FileEntry>,
        results: Seq<Outcome>,
        assignment: Seq<Seq<Job>>,
        parts: Seq<Totals>,
    ) -> bool {
        &&& results.len() == self.jobs_of(entries).len()
        &&& forall|i: int| 0 <= i < results.len() ==> (#[trigger] results[i]) !is Skipped
        &&& assignment.flatten().to_multiset() == handled(
            self.jobs_of(entries),
            results,
        ).to_multiset()
        &&& parts == tallies(assignment)
    }

    /// Ends a run: sums the statistics that the workers handed back, in
    /// order, from zero. Whatever run they come from, the files of the sum
    /// are the jobs dispatched, one per eligible file and enabled codec,
    /// less the errors, and the errors are the jobs that failed.
    pub fn finish(self, parts: &Vec<Stats>) -> (out: Stats)
        requires
            summable(views(parts@)),
        ensures
            out@ == total_of(views(parts@)),
            forall|entries: Seq<FileEntry>, results: Seq<Outcome>, assignment: Seq<Seq<Job>>|
                #[trigger] self.ran(entries, results, assignment, views(parts@)) ==> {
                    &&& out@ == tally(handled(self.jobs_of(entries), results))
                    &&& out.num_errors == failures(handled(self.jobs_of(entries), results))
                    &&& out.num_files == self.eligible_count(entries) * self.algorithms.count()
                        - out.num_errors
                },
    {
        let out = reduce(parts);
        proof {
            assert forall|entries: Seq<FileEntry>, results: Seq<Outcome>, assignment: Seq<Seq<Job>>|
                #[trigger] self.ran(entries, results, assignment, views(parts@)) implies {
                &&& out@ == tally(handled(self.jobs_of(entries), results))
                &&& out.num_errors == failures(handled(self.jobs_of(entries), results))
                &&& out.num_files == self.eligible_count(entries) * self.algorithms.count()
                    - out.num_errors
            } by {
                lemma_run_totals(&self, entries, results, assignment);
            }
        }
        out
    }
}

} // verus!
