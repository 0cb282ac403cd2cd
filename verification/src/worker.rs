//! A worker of the pool as a state machine: it takes a job, compresses,
//! records how the job ended, and waits for the next until the queue closes.
//!
//! The worker owns its encoding context and its statistics. Whoever drives
//! it does the waiting, the reading and the writing.

use vstd::prelude::*;
use crate::algorithm::Algorithm;
use crate::encode::{CompressError, Context};
use crate::path::{destination_path, sibling};
use crate::quality::Quality;
use crate::stats::{tally, Job, Outcome, Stats, Totals};

verus! {

/// The size of the two blocks of a worker's encoding context.
pub const BLOCK_SIZE: usize = 16384;

/// The states of a worker.
#[derive(Debug, Clone, Copy, PartialEq, Eq, Structural)]
pub enum WorkerState {
    /// Waiting for a job.
    Idle,
    /// At work on a job of the given codec.
    Compressing(Algorithm),
    /// The queue was closed; the worker takes no more jobs.
    Terminated,
}

/// A worker of the pool.
pub struct Worker {
    ctx: Context,
    stats: Stats,
    state: WorkerState,
    history: Ghost<Seq<Job>>,
}

impl Worker {
    /// The state of the worker.
    pub closed spec fn state(&self) -> WorkerState {
        self.state
    }

    /// The jobs the worker has finished, in order, each with how it ended.
    pub closed spec fn history(&self) -> Seq<Job> {
        self.history@
    }

    /// The statistics of the worker.
    pub closed spec fn totals(&self) -> Totals {
        self.stats@
    }

    /// The encoding context of the worker.
    pub closed spec fn context(&self) -> &Context {
        &self.ctx
    }

    /// The context is well formed and the statistics are the tally of the finished jobs.
    pub closed spec fn wf(&self) -> bool {
        &&& self.ctx.wf()
        &&& self.stats@ == tally(self.history@)
    }

    /// In every state the statistics are the tally of the finished jobs.
    pub proof fn lemma_stats_are_tally(&self)
        requires
            self.wf(),
        ensures
            self.totals() == tally(self.history()),
            self.totals().fits(),
            self.context().wf(),
    {
    }

    /// Makes an idle worker that has finished no job, with blocks of
    /// `BLOCK_SIZE` bytes and the qualities of `quality`.
    pub fn new(quality: Quality) -> (out: Worker)
        requires
            quality.wf(),
        ensures
            out.wf(),
            out.state() == WorkerState::Idle,
            out.history() == Seq::<Job>::empty(),
            out.context().block_size() == BLOCK_SIZE,
            out.context().write_block_size() == BLOCK_SIZE,
            forall|a: Algorithm| out.context().level(a) == quality.level(a),
    {
        Worker {
            ctx: Context::new(BLOCK_SIZE, quality),
            stats: Stats::default(),
            state: WorkerState::Idle,
            history: Ghost(Seq::empty()),
        }
    }

    /// Returns the state of the worker.
    pub fn phase(&self) -> (out: WorkerState)
        ensures
            out == self.state(),
    {
        self.state
    }

    /// Returns the codec of the job at hand.
    pub fn job(&self) -> (out: Algorithm)
        requires
            self.state() is Compressing,
        ensures
            self.state() == WorkerState::Compressing(out),
    {
        match self.state {
            WorkerState::Compressing(algorithm) => algorithm,
            _ => vstd::pervasive::unreached(),
        }
    }

    /// Returns the statistics of the worker so far.
    pub fn stats(&self) -> (out: Stats)
        requires
            self.wf(),
        ensures
            out@ == tally(self.history()),
    {
        self.stats
    }

    /// Takes the job of compressing `path` with `algorithm` and returns the
    /// path of the sibling to write. Where the path has no file name there
    /// is no sibling: the job is finished at once as skipped, and the worker
    /// stays idle.
    pub fn begin(&mut self, algorithm: Algorithm, path: &str) -> (out: Option<String>)
        requires
            old(self).wf(),
            old(self).state() == WorkerState::Idle,
        ensures
            final(self).wf(),
            old(self).context().same_setup(final(self).context()),
            match out {
                Some(dst) => {
                    &&& sibling(path@, algorithm) == Some(dst@)
                    &&& final(self).state() == WorkerState::Compressing(algorithm)
                    &&& final(self).history() == old(self).history()
                },
                None => {
                    &&& sibling(path@, algorithm) is None
                    &&& final(self).state() == WorkerState::Idle
                    &&& final(self).history() == old(self).history().push(
                        (algorithm, Outcome::Skipped),
                    )
                },
            },
    {
        let out = destination_path(path, algorithm);
        if out.is_some() {
            self.state = WorkerState::Compressing(algorithm);
        } else {
            proof {
                let job = (algorithm, Outcome::Skipped);
                assert(self.history@.push(job).drop_last() =~= self.history@);
                self.history@ = self.history@.push(job);
            }
        }
        out
    }

    /// Compresses `input` with the codec of the job at hand and appends the
    /// result to `output`, as the worker's context does, and succeeds
    /// exactly where the context does.
    pub fn encode(&mut self, input: &[u8], output: &mut Vec<u8>) -> (done: Result<
        (),
        CompressError,
    >)
        requires
            old(self).wf(),
            old(self).state() is Compressing,
        ensures
            final(self).wf(),
            final(self).state() == old(self).state(),
            final(self).history() == old(self).history(),
            old(self).context().same_setup(final(self).context()),
            old(output)@.is_prefix_of(final(output)@),
            done is Ok <==> old(self).context().succeeds(
                old(self).state()->Compressing_0,
                input@,
            ),
            match done {
                Ok(()) => final(output)@ == old(output)@ + old(self).context().output_of(
                    old(self).state()->Compressing_0,
                    input@,
                ),
                Err(error) => error.algorithm == old(self).state()->Compressing_0 && (
                error.algorithm != Algorithm::Brotli ==> final(output)@ == old(output)@),
            },
    {
        let algorithm = self.job();
        self.ctx.compress(algorithm, input, output)
    }

    /// Tells whether the job at hand can be finished with `outcome`: a job
    /// at hand is never skipped, and the statistics must fit.
    pub fn can_complete(&self, outcome: Outcome) -> (out: bool)
        requires
            self.wf(),
            self.state() is Compressing,
        ensures
            out == (outcome !is Skipped && self.totals().after(
                self.state()->Compressing_0,
                outcome,
            ).fits()),
    {
        match outcome {
            Outcome::Skipped => false,
            _ => self.stats.can_record(self.job(), outcome),
        }
    }

    /// Finishes the job at hand with `outcome`, records it, and goes back
    /// to waiting. A failure is tallied as an error and never stops the worker.
    pub fn complete(&mut self, outcome: Outcome)
        requires
            old(self).wf(),
            old(self).state() is Compressing,
            outcome !is Skipped,
            old(self).totals().after(old(self).state()->Compressing_0, outcome).fits(),
        ensures
            final(self).wf(),
            final(self).state() == WorkerState::Idle,
            final(self).history() == old(self).history().push(
                (old(self).state()->Compressing_0, outcome),
            ),
            final(self).totals() == old(self).totals().after(
                old(self).state()->Compressing_0,
                outcome,
            ),
            old(self).context().same_setup(final(self).context()),
    {
        let algorithm = self.job();
        self.stats.record(algorithm, outcome);
        proof {
            let job = (algorithm, outcome);
            assert(self.history@.push(job).drop_last() =~= self.history@);
            self.history@ = self.history@.push(job);
        }
        self.state = WorkerState::Idle;
    }

    /// Ends the worker when the queue is closed and returns its statistics:
    /// the tally of all the jobs it has finished.
    pub fn close(&mut self) -> (out: Stats)
        requires
            old(self).wf(),
            old(self).state() == WorkerState::Idle,
        ensures
            final(self).wf(),
            final(self).state() == WorkerState::Terminated,
            final(self).history() == old(self).history(),
            out@ == tally(old(self).history()),
    {
        self.state = WorkerState::Terminated;
        self.stats
    }
}

} // verus!
