use vstd::prelude::*;
use crate::message::{
    job_count,
    terminate_count,
    terminates,
    lemma_counts_split,
    lemma_no_jobs,
};
use crate::dispatch::{Dispatcher, WorkerState, count_in, running_count, lemma_count_total};

verus! {

/// If every entry of `s` is `w`, then `w` occurs `s.len()` times.
proof fn lemma_count_all(s: Seq<WorkerState>, w: WorkerState)
    requires
        forall|i: int| 0 <= i < s.len() ==> s[i] == w,
    ensures
        count_in(s, w) == s.len(),
    decreases s.len(),
{
    if s.len() > 0 {
        assert forall|i: int| 0 <= i < s.drop_last().len() implies s.drop_last()[i] == w by {
            assert(s.drop_last()[i] == s[i]);
        }
        lemma_count_all(s.drop_last(), w);
    }
}

/// Once teardown has begun and every worker has been joined, the queue is
/// empty and every job ever accepted was handed to exactly one worker and
/// finished: none was lost and none ran twice.
pub proof fn lemma_teardown_runs_every_job<J>(d: Dispatcher<J>)
    requires
        d.wf(),
        d.is_closed(),
        forall|i: int| 0 <= i < d.size() ==> d.states()[i] == WorkerState::Stopped,
    ensures
        d.queue().len() == 0,
        d.delivered() == d.submitted(),
        d.completed() == d.submitted(),
{
    lemma_count_all(d.states(), WorkerState::Stopped);
    lemma_count_total(d.states());
    lemma_counts_split(d.queue());
}

/// At any moment, the jobs handed out and not yet finished are exactly those
/// of the executing workers, so no more jobs run at once than there are
/// workers.
pub proof fn lemma_running_jobs_bounded<J>(d: Dispatcher<J>)
    requires
        d.wf(),
    ensures
        d.delivered() - d.completed() == count_in(d.states(), WorkerState::Executing),
        d.delivered() - d.completed() <= d.size(),
{
    lemma_count_total(d.states());
}

/// During teardown, every worker still in its running phase has exactly one
/// terminate signal waiting for it in the queue, behind the remaining jobs,
/// so no such worker ever finds the queue empty and waits forever; in a pool
/// that never received a job, the queue holds nothing else.
pub proof fn lemma_teardown_signals_each_worker<J>(d: Dispatcher<J>)
    requires
        d.wf(),
        d.is_closed(),
    ensures
        terminate_count(d.queue()) == running_count(d.states()),
        running_count(d.states()) > 0 ==> d.queue().len() > 0,
        d.submitted() == 0 ==> d.queue() == terminates::<J>(running_count(d.states())),
{
    lemma_count_total(d.states());
    lemma_counts_split(d.queue());
    if d.submitted() == 0 {
        lemma_no_jobs(d.queue());
        lemma_counts_split(d.queue());
        assert(d.queue() =~= terminates::<J>(running_count(d.states())));
    }
}

} // verus!
